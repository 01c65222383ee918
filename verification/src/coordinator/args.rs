//! The coordinator's arguments, as given and as made ready for a ceremony.

use crate::ciphersuite::{text_equal, Ciphersuite};
use crate::error::{Error, ErrorView};
use crate::hexcodec::{hex_decode, hex_decoded, is_hex_text};
use crate::identifier::copy_bytes;
use crate::keys::PublicKeyPackage;
use crate::text::{parse_u16, parsed_u16, trim, trimmed};
use vstd::prelude::*;
use vstd::utf8::encode_utf8;

verus! {

/// The arguments of the coordinator as the command line gives them.
#[derive(Debug)]
pub struct Args {
    /// The name of the ciphersuite.
    pub ciphersuite: String,
    /// Whether messages go over the console rather than a socket.
    pub cli: bool,
    /// The number of signers; zero asks for it on the console.
    pub num_signers: u16,
    /// Where the public key package is read from: a path, or `-` or
    /// nothing for the console.
    pub public_key_package: String,
    /// Where each message to sign is read from: a path to its raw bytes, or
    /// `-` or nothing for a line of hexadecimal digits on the console.
    /// Without any, one message is read from the console.
    pub message: Vec<String>,
    /// Where the signature goes: a path for its raw bytes, or `-` or
    /// nothing for the console.
    pub signature: String,
    /// The address to listen on.
    pub ip: String,
    /// The port to listen on.
    pub port: u16,
}

impl Default for Args {
    fn default() -> (args: Args)
        ensures
            args.ciphersuite@.len() == 0,
            !args.cli,
            args.num_signers == 0,
            args.public_key_package@.len() == 0,
            args.message@.len() == 0,
            args.signature@.len() == 0,
            args.ip@.len() == 0,
            args.port == 0,
    {
        Args {
            ciphersuite: String::new(),
            cli: false,
            num_signers: 0,
            public_key_package: String::new(),
            message: Vec::new(),
            signature: String::new(),
            ip: String::new(),
            port: 0,
        }
    }
}

/// Where something is read from or written to.
#[derive(Clone, Copy, Debug, PartialEq, Eq, Structural)]
pub enum Source {
    /// The console.
    Console,
    /// The file at the path.
    File,
}

/// The place that a path argument names: the console for `-` and for
/// nothing, a file for anything else.
pub open spec fn spec_source(path: Seq<char>) -> Source {
    if path == "-"@ || path.len() == 0 {
        Source::Console
    } else {
        Source::File
    }
}

/// The place that a path argument names.
pub fn source(path: &str) -> (s: Source)
    ensures
        s == spec_source(path@),
{
    if text_equal(path, "-") || path.is_empty() {
        Source::Console
    } else {
        Source::File
    }
}

/// What was read for one message to sign.
#[derive(Debug, PartialEq, Eq)]
pub enum MessageInput {
    /// A line from the console.
    Console(String),
    /// The bytes of a file.
    File(Vec<u8>),
}

/// What was read for one message to sign, as sequences.
pub enum MessageInputView {
    Console(Seq<char>),
    File(Seq<u8>),
}

impl View for MessageInput {
    type V = MessageInputView;

    open spec fn view(&self) -> MessageInputView {
        match self {
            MessageInput::Console(line) => MessageInputView::Console(line@),
            MessageInput::File(bytes) => MessageInputView::File(bytes@),
        }
    }
}

impl MessageInputView {
    /// The place this was read from.
    pub open spec fn source(self) -> Source {
        match self {
            MessageInputView::Console(_) => Source::Console,
            MessageInputView::File(_) => Source::File,
        }
    }

    /// The message that this stands for: the bytes of a file as they are,
    /// and the bytes that a console line spells in hexadecimal digits
    /// between its leading and trailing white space.
    pub open spec fn message(self) -> Option<Seq<u8>> {
        match self {
            MessageInputView::Console(line) => line_message(line),
            MessageInputView::File(bytes) => Some(bytes),
        }
    }
}

/// The bytes that a console line spells in hexadecimal digits.
pub open spec fn line_message(line: Seq<char>) -> Option<Seq<u8>> {
    let digits = encode_utf8(trimmed(line));
    if is_hex_text(digits) {
        Some(hex_decoded(digits))
    } else {
        None
    }
}

/// The places that the messages are read from: one for each path, and the
/// console once where no path is given.
pub open spec fn spec_message_sources(paths: Seq<Seq<char>>) -> Seq<Source> {
    if paths.len() == 0 {
        seq![Source::Console]
    } else {
        Seq::new(paths.len(), |i: int| spec_source(paths[i]))
    }
}

/// Texts as sequences of characters.
pub open spec fn texts_view(texts: Seq<String>) -> Seq<Seq<char>> {
    Seq::new(texts.len(), |i: int| texts[i]@)
}

/// Byte strings as sequences.
pub open spec fn messages_view(messages: Seq<Vec<u8>>) -> Seq<Seq<u8>> {
    Seq::new(messages.len(), |i: int| messages[i]@)
}

/// What was read, as sequences.
pub open spec fn inputs_view(inputs: Seq<MessageInput>) -> Seq<MessageInputView> {
    Seq::new(inputs.len(), |i: int| inputs[i]@)
}

/// The places that the messages are read from.
pub fn message_sources(message_paths: &Vec<String>) -> (sources: Vec<Source>)
    ensures
        sources@ == spec_message_sources(texts_view(message_paths@)),
{
    let mut sources: Vec<Source> = Vec::new();
    if message_paths.len() == 0 {
        sources.push(Source::Console);
        assert(sources@ =~= spec_message_sources(texts_view(message_paths@)));
        return sources;
    }
    let mut i: usize = 0;
    while i < message_paths.len()
        invariant
            i <= message_paths@.len(),
            sources@.len() == i,
            forall|j: int| 0 <= j < i ==> sources@[j] == spec_source(message_paths@[j]@),
        decreases message_paths@.len() - i,
    {
        sources.push(source(message_paths[i].as_str()));
        i = i + 1;
    }
    assert(sources@ =~= spec_message_sources(texts_view(message_paths@)));
    sources
}

/// Whether what was read is what the paths ask for and every console line
/// spells a message.
pub open spec fn inputs_fit(paths: Seq<Seq<char>>, inputs: Seq<MessageInputView>) -> bool {
    &&& inputs.len() == spec_message_sources(paths).len()
    &&& forall|i: int|
        0 <= i < inputs.len() ==> (#[trigger] inputs[i]).source() == spec_message_sources(paths)[i]
            && inputs[i].message() is Some
}

/// The messages to sign: one for each input that was read.
pub open spec fn spec_read_messages(
    paths: Seq<Seq<char>>,
    inputs: Seq<MessageInputView>,
) -> Option<Seq<Seq<u8>>> {
    if inputs_fit(paths, inputs) {
        Some(Seq::new(inputs.len(), |i: int| inputs[i].message()->0))
    } else {
        None
    }
}

/// The message that one input stands for.
pub fn input_message(input: &MessageInput) -> (message: Option<Vec<u8>>)
    ensures
        match message {
            Some(m) => input@.message() == Some(m@),
            None => input@.message() is None,
        },
{
    match input {
        MessageInput::Console(line) => hex_decode(trim(line.as_str()).as_bytes()),
        MessageInput::File(bytes) => Some(copy_bytes(bytes)),
    }
}

/// Makes the messages to sign out of what was read for them. `inputs`
/// holds, in the order of `message_paths`, a console line for each path
/// that names the console and the bytes of the file for each other path;
/// without paths it holds one console line. Anything else is refused, and
/// so is a console line that does not spell bytes.
pub fn read_messages(message_paths: &Vec<String>, inputs: &Vec<MessageInput>) -> (messages:
    Result<Vec<Vec<u8>>, Error>)
    ensures
        match messages {
            Ok(m) => spec_read_messages(texts_view(message_paths@), inputs_view(inputs@)) == Some(
                messages_view(m@),
            ),
            Err(e) => e@ == ErrorView::Config && spec_read_messages(
                texts_view(message_paths@),
                inputs_view(inputs@),
            ) is None,
        },
{
    let sources = message_sources(message_paths);
    let ghost paths = texts_view(message_paths@);
    let ghost read = inputs_view(inputs@);
    if inputs.len() != sources.len() {
        return Err(Error::Config);
    }
    let mut messages: Vec<Vec<u8>> = Vec::new();
    let mut i: usize = 0;
    while i < inputs.len()
        invariant
            i <= inputs@.len(),
            inputs@.len() == sources@.len(),
            sources@ == spec_message_sources(paths),
            paths == texts_view(message_paths@),
            read == inputs_view(inputs@),
            messages@.len() == i,
            forall|j: int|
                0 <= j < i ==> (#[trigger] read[j]).source() == sources@[j] && read[j].message()
                    == Some(messages@[j]@),
        decreases inputs@.len() - i,
    {
        assert(read[i as int] == inputs@[i as int]@);
        let found = match &inputs[i] {
            MessageInput::Console(_) => Source::Console,
            MessageInput::File(_) => Source::File,
        };
        if found != sources[i] {
            assert(found == read[i as int].source());
            assert(read[i as int].source() != spec_message_sources(paths)[i as int]);
            assert(!inputs_fit(paths, read));
            return Err(Error::Config);
        }
        match input_message(&inputs[i]) {
            Some(message) => {
                messages.push(message);
            },
            None => {
                assert(read[i as int].message() is None);
                assert(!inputs_fit(paths, read));
                return Err(Error::Config);
            },
        }
        i = i + 1;
    }
    assert(inputs_fit(paths, read));
    assert(messages_view(messages@) =~= Seq::new(read.len(), |i: int| read[i].message()->0));
    Ok(messages)
}

/// What the coordinator read at its edge before the ceremony.
pub struct Input {
    /// The console line that answers the question for the number of
    /// signers. It counts only where the arguments give none.
    pub num_signers: String,
    /// The text of the public key package.
    pub public_key_package: String,
    /// What was read for each message to sign.
    pub messages: Vec<MessageInput>,
}

/// The coordinator's arguments, read and checked.
pub struct ProcessedArgs {
    /// The ciphersuite of the ceremony.
    pub ciphersuite: Ciphersuite,
    /// Whether messages go over the console rather than a socket.
    pub cli: bool,
    /// The number of signers.
    pub num_signers: u16,
    /// The public key package of the group.
    pub public_key_package: PublicKeyPackage,
    /// The messages to sign.
    pub messages: Vec<Vec<u8>>,
    /// Where the signature goes.
    pub signature: String,
    /// The address to listen on.
    pub ip: String,
    /// The port to listen on.
    pub port: u16,
}

/// Whether the number of signers is asked for on the console.
pub fn asks_for_num_signers(args: &Args) -> (asks: bool)
    ensures
        asks == (args.num_signers == 0),
{
    args.num_signers == 0
}

/// The number of signers: the one the arguments give, or else the one that
/// the console line spells between its leading and trailing white space.
pub open spec fn spec_num_signers(given: u16, line: Seq<char>) -> Option<u16> {
    if given != 0 {
        Some(given)
    } else {
        parsed_u16(encode_utf8(trimmed(line)))
    }
}

/// Whether the arguments and what was read for them make a ceremony: the
/// ciphersuite is known, the number of signers is given or spelled, the
/// public key package is one of that suite, every message can be read,
/// and over sockets there is one message only.
pub open spec fn acceptable(
    args: &Args,
    num_signers: Seq<char>,
    public_key_package: Seq<char>,
    messages: Seq<MessageInputView>,
) -> bool {
    &&& Ciphersuite::spec_from_name(args.ciphersuite@) matches Some(suite)
    &&& spec_num_signers(args.num_signers, num_signers) is Some
    &&& PublicKeyPackage::spec_parse(suite, public_key_package) is Some
    &&& spec_read_messages(texts_view(args.message@), messages) matches Some(read)
    &&& args.cli || read.len() == 1
}

impl ProcessedArgs {
    /// Makes the arguments ready: reads the number of signers, the public
    /// key package and the messages out of `input`, and takes the rest
    /// over.
    pub fn new(args: &Args, input: &Input) -> (processed: Result<ProcessedArgs, Error>)
        ensures
            match processed {
                Ok(p) => {
                    &&& acceptable(
                        args,
                        input.num_signers@,
                        input.public_key_package@,
                        inputs_view(input.messages@),
                    )
                    &&& Some(p.ciphersuite) == Ciphersuite::spec_from_name(args.ciphersuite@)
                    &&& p.cli == args.cli
                    &&& Some(p.num_signers) == spec_num_signers(
                        args.num_signers,
                        input.num_signers@,
                    )
                    &&& Some(p.public_key_package@) == PublicKeyPackage::spec_parse(
                        p.ciphersuite,
                        input.public_key_package@,
                    )
                    &&& Some(messages_view(p.messages@)) == spec_read_messages(
                        texts_view(args.message@),
                        inputs_view(input.messages@),
                    )
                    &&& p.signature@ == args.signature@
                    &&& p.ip@ == args.ip@
                    &&& p.port == args.port
                },
                Err(e) => e@ == ErrorView::Config && !acceptable(
                    args,
                    input.num_signers@,
                    input.public_key_package@,
                    inputs_view(input.messages@),
                ),
            },
    {
        let ciphersuite = match Ciphersuite::from_name(args.ciphersuite.as_str()) {
            Some(suite) => suite,
            None => {
                return Err(Error::Config);
            },
        };
        let num_signers = if args.num_signers == 0 {
            match parse_u16(trim(input.num_signers.as_str())) {
                Some(n) => n,
                None => {
                    return Err(Error::Config);
                },
            }
        } else {
            args.num_signers
        };
        let public_key_package = match PublicKeyPackage::parse(
            ciphersuite,
            input.public_key_package.as_str(),
        ) {
            Some(package) => package,
            None => {
                return Err(Error::Config);
            },
        };
        let messages = match read_messages(&args.message, &input.messages) {
            Ok(messages) => messages,
            Err(_) => {
                return Err(Error::Config);
            },
        };
        if !args.cli && messages.len() != 1 {
            return Err(Error::Config);
        }
        Ok(
            ProcessedArgs {
                ciphersuite,
                cli: args.cli,
                num_signers,
                public_key_package,
                messages,
                signature: args.signature.clone(),
                ip: args.ip.clone(),
                port: args.port,
            },
        )
    }
}

} // verus!
