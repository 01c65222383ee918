use frost_ceremony::ciphersuite::{text_equal, Ciphersuite};
use frost_ceremony::coordinator::args::{
    asks_for_num_signers, input_message, message_sources, read_messages, source, Args,
    MessageInput, Source,
};
use frost_ceremony::error::{Error, ErrorKind};
use frost_ceremony::identifier::Identifier;
use frost_ceremony::text::parse_u16;

#[test]
fn parse_u16_reads_decimal_digits() {
    assert_eq!(parse_u16("0"), Some(0));
    assert_eq!(parse_u16("2"), Some(2));
    assert_eq!(parse_u16("+2"), Some(2));
    assert_eq!(parse_u16("007"), Some(7));
    assert_eq!(parse_u16("65535"), Some(65535));
    assert_eq!(parse_u16("0000065535"), Some(65535));
}

#[test]
fn parse_u16_refuses_what_is_no_number_below_65536() {
    assert_eq!(parse_u16(""), None);
    assert_eq!(parse_u16("+"), None);
    assert_eq!(parse_u16("-1"), None);
    assert_eq!(parse_u16("65536"), None);
    assert_eq!(parse_u16("99999999999999999999"), None);
    assert_eq!(parse_u16("1 2"), None);
    assert_eq!(parse_u16(" 2"), None);
    assert_eq!(parse_u16("2\n"), None);
    assert_eq!(parse_u16("++2"), None);
    assert_eq!(parse_u16("١"), None);
}

#[test]
fn parse_u16_agrees_with_the_standard_library() {
    let samples = [
        "1", "12", "123", "1234", "12345", "65534", "65535", "65536", "70000", "+0", "+65535",
        "+65536", "000", "a", "1a", "", "+", "-", "-0", "0x10",
    ];
    for sample in samples {
        assert_eq!(parse_u16(sample), sample.parse::<u16>().ok(), "{}", sample);
    }
}

#[test]
fn text_equal_compares_characters() {
    assert!(text_equal("ed25519", "ed25519"));
    assert!(!text_equal("ed25519", "ed448"));
    assert!(!text_equal("", "-"));
    assert!(text_equal("", ""));
}

#[test]
fn ciphersuite_names() {
    assert_eq!(Ciphersuite::from_name("ed25519"), Some(Ciphersuite::Ed25519));
    assert_eq!(Ciphersuite::from_name("ed448"), Some(Ciphersuite::Ed448));
    assert_eq!(Ciphersuite::from_name("Ed25519"), None);
    assert_eq!(Ciphersuite::from_name("redpallas"), None);
    assert_eq!(Ciphersuite::from_name(""), None);
    assert_eq!(Ciphersuite::Ed25519.id(), "FROST-ED25519-SHA512-v1");
    assert_eq!(Ciphersuite::Ed448.id(), "FROST-ED448-SHAKE256-v1");
    assert_eq!(Ciphersuite::Ed25519.scalar_width(), 32);
    assert_eq!(Ciphersuite::Ed25519.element_width(), 32);
    assert_eq!(Ciphersuite::Ed448.scalar_width(), 57);
    assert_eq!(Ciphersuite::Ed448.element_width(), 57);
}

#[test]
fn a_dash_and_nothing_name_the_console() {
    assert_eq!(source("-"), Source::Console);
    assert_eq!(source(""), Source::Console);
    assert_eq!(source("message.bin"), Source::File);
    assert_eq!(source("--"), Source::File);
    assert_eq!(source(" "), Source::File);
}

#[test]
fn without_paths_one_message_comes_from_the_console() {
    assert_eq!(message_sources(&vec![]), vec![Source::Console]);
    assert_eq!(
        message_sources(&vec!["a.bin".to_string(), "-".to_string(), "".to_string()]),
        vec![Source::File, Source::Console, Source::Console]
    );
}

#[test]
fn a_console_line_spells_the_message_in_hexadecimal_digits() {
    let line = MessageInput::Console("48656c6c6f\n".to_string());
    assert_eq!(input_message(&line), Some(b"Hello".to_vec()));
    let upper = MessageInput::Console("  48656C6C6F \r\n".to_string());
    assert_eq!(input_message(&upper), Some(b"Hello".to_vec()));
    let empty = MessageInput::Console("\n".to_string());
    assert_eq!(input_message(&empty), Some(Vec::new()));
    let wide_space = MessageInput::Console("\u{3000}00ff\u{2028}".to_string());
    assert_eq!(input_message(&wide_space), Some(vec![0, 255]));
}

#[test]
fn a_console_line_that_spells_no_bytes_is_refused() {
    assert_eq!(input_message(&MessageInput::Console("123\n".to_string())), None);
    assert_eq!(input_message(&MessageInput::Console("zz\n".to_string())), None);
    assert_eq!(input_message(&MessageInput::Console("48 65\n".to_string())), None);
}

#[test]
fn the_bytes_of_a_file_are_the_message() {
    let file = MessageInput::File(vec![0x34, 0x38, 0x0a]);
    assert_eq!(input_message(&file), Some(vec![0x34, 0x38, 0x0a]));
}

#[test]
fn read_messages_takes_one_input_for_each_path() {
    let paths = vec!["-".to_string(), "m.bin".to_string(), "".to_string()];
    let inputs = vec![
        MessageInput::Console("00\n".to_string()),
        MessageInput::File(vec![1, 2, 3]),
        MessageInput::Console("ff\n".to_string()),
    ];
    assert_eq!(read_messages(&paths, &inputs), Ok(vec![vec![0], vec![1, 2, 3], vec![255]]));
    let none: Vec<String> = Vec::new();
    assert_eq!(
        read_messages(&none, &vec![MessageInput::Console("48656c6c6f".to_string())]),
        Ok(vec![b"Hello".to_vec()])
    );
}

#[test]
fn read_messages_refuses_inputs_that_do_not_fit_the_paths() {
    let paths = vec!["-".to_string()];
    assert_eq!(read_messages(&paths, &vec![]), Err(Error::Config));
    assert_eq!(read_messages(&paths, &vec![MessageInput::File(vec![1])]), Err(Error::Config));
    assert_eq!(
        read_messages(&paths, &vec![MessageInput::Console("0".to_string())]),
        Err(Error::Config)
    );
    let file = vec!["m.bin".to_string()];
    assert_eq!(
        read_messages(&file, &vec![MessageInput::Console("00".to_string())]),
        Err(Error::Config)
    );
    let none: Vec<String> = Vec::new();
    assert_eq!(read_messages(&none, &vec![]), Err(Error::Config));
    assert_eq!(read_messages(&none, &vec![MessageInput::File(vec![])]), Err(Error::Config));
}

#[test]
fn the_number_of_signers_is_asked_for_when_it_is_zero() {
    let mut args = Args::default();
    assert!(asks_for_num_signers(&args));
    args.num_signers = 2;
    assert!(!asks_for_num_signers(&args));
}

#[test]
fn default_arguments_are_empty() {
    let args = Args::default();
    assert_eq!(args.ciphersuite, "");
    assert!(!args.cli);
    assert_eq!(args.num_signers, 0);
    assert_eq!(args.public_key_package, "");
    assert!(args.message.is_empty());
    assert_eq!(args.signature, "");
    assert_eq!(args.ip, "");
    assert_eq!(args.port, 0);
    let participant = frost_ceremony::participant::args::Args::default();
    assert_eq!(participant.ciphersuite, "");
    assert!(!participant.cli);
    assert_eq!(participant.key_package, "");
    assert_eq!(participant.ip, "");
    assert_eq!(participant.port, 0);
}

#[test]
fn every_kind_of_error_has_its_own_exit_code() {
    let errors = vec![
        Error::Config,
        Error::Decode,
        Error::UnknownSigner(Identifier::new(vec![1])),
        Error::DuplicateSigner(Identifier::new(vec![1])),
        Error::UnexpectedMessage,
        Error::PackageMismatch,
        Error::Crypto,
        Error::Transport,
        Error::Timeout,
    ];
    let codes: Vec<u8> = errors.iter().map(|e| e.exit_code()).collect();
    assert_eq!(codes, vec![2, 3, 4, 5, 6, 7, 8, 9, 10]);
    assert_eq!(errors[2].kind(), ErrorKind::UnknownSigner);
    assert_eq!(errors[3].kind(), ErrorKind::DuplicateSigner);
    assert_eq!(errors[8].kind(), ErrorKind::Timeout);
}
