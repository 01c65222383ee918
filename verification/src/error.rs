//! The ways a ceremony can fail.

use crate::identifier::Identifier;
use vstd::prelude::*;

verus! {

/// Why a step of a ceremony was refused. Every failure ends the ceremony
/// for the party that meets it; none of them ends the process.
#[derive(Debug, PartialEq, Eq)]
pub enum Error {
    /// An argument, a key package or a message to sign could not be read.
    Config,
    /// A line from the wire is no message.
    Decode,
    /// The identifier is not listed in the public key package.
    UnknownSigner(Identifier),
    /// The identifier has already contributed to this round.
    DuplicateSigner(Identifier),
    /// The message is of a kind that the current round does not take.
    UnexpectedMessage,
    /// The signing package leaves the participant out, or lists other
    /// commitments for it than the ones it sent.
    PackageMismatch,
    /// The signature scheme rejected its input.
    Crypto,
    /// A connection failed or ended early.
    Transport,
    /// A round did not complete in time.
    Timeout,
}

/// What an error says, without the identifier it may carry.
#[derive(Clone, Copy, Debug, PartialEq, Eq, Structural)]
pub enum ErrorKind {
    Config,
    Decode,
    UnknownSigner,
    DuplicateSigner,
    UnexpectedMessage,
    PackageMismatch,
    Crypto,
    Transport,
    Timeout,
}

/// An error with the identifier it carries taken by its encoding.
pub enum ErrorView {
    Config,
    Decode,
    UnknownSigner(Seq<u8>),
    DuplicateSigner(Seq<u8>),
    UnexpectedMessage,
    PackageMismatch,
    Crypto,
    Transport,
    Timeout,
}

impl View for Error {
    type V = ErrorView;

    open spec fn view(&self) -> ErrorView {
        match self {
            Error::Config => ErrorView::Config,
            Error::Decode => ErrorView::Decode,
            Error::UnknownSigner(id) => ErrorView::UnknownSigner(id@),
            Error::DuplicateSigner(id) => ErrorView::DuplicateSigner(id@),
            Error::UnexpectedMessage => ErrorView::UnexpectedMessage,
            Error::PackageMismatch => ErrorView::PackageMismatch,
            Error::Crypto => ErrorView::Crypto,
            Error::Transport => ErrorView::Transport,
            Error::Timeout => ErrorView::Timeout,
        }
    }
}

impl Error {
    /// The kind of this error.
    pub fn kind(&self) -> (k: ErrorKind)
        ensures
            k == self@.kind(),
    {
        match self {
            Error::Config => ErrorKind::Config,
            Error::Decode => ErrorKind::Decode,
            Error::UnknownSigner(_) => ErrorKind::UnknownSigner,
            Error::DuplicateSigner(_) => ErrorKind::DuplicateSigner,
            Error::UnexpectedMessage => ErrorKind::UnexpectedMessage,
            Error::PackageMismatch => ErrorKind::PackageMismatch,
            Error::Crypto => ErrorKind::Crypto,
            Error::Transport => ErrorKind::Transport,
            Error::Timeout => ErrorKind::Timeout,
        }
    }

    /// The process exit status for this error: one stable, non-zero code
    /// for each kind.
    pub fn exit_code(&self) -> (code: u8)
        ensures
            code == self@.kind().spec_exit_code(),
            code != 0,
    {
        match self {
            Error::Config => 2,
            Error::Decode => 3,
            Error::UnknownSigner(_) => 4,
            Error::DuplicateSigner(_) => 5,
            Error::UnexpectedMessage => 6,
            Error::PackageMismatch => 7,
            Error::Crypto => 8,
            Error::Transport => 9,
            Error::Timeout => 10,
        }
    }
}

impl ErrorView {
    /// The kind of this error.
    pub open spec fn kind(self) -> ErrorKind {
        match self {
            ErrorView::Config => ErrorKind::Config,
            ErrorView::Decode => ErrorKind::Decode,
            ErrorView::UnknownSigner(_) => ErrorKind::UnknownSigner,
            ErrorView::DuplicateSigner(_) => ErrorKind::DuplicateSigner,
            ErrorView::UnexpectedMessage => ErrorKind::UnexpectedMessage,
            ErrorView::PackageMismatch => ErrorKind::PackageMismatch,
            ErrorView::Crypto => ErrorKind::Crypto,
            ErrorView::Transport => ErrorKind::Transport,
            ErrorView::Timeout => ErrorKind::Timeout,
        }
    }
}

impl ErrorKind {
    /// The exit status that stands for this kind.
    pub open spec fn spec_exit_code(self) -> u8 {
        match self {
            ErrorKind::Config => 2,
            ErrorKind::Decode => 3,
            ErrorKind::UnknownSigner => 4,
            ErrorKind::DuplicateSigner => 5,
            ErrorKind::UnexpectedMessage => 6,
            ErrorKind::PackageMismatch => 7,
            ErrorKind::Crypto => 8,
            ErrorKind::Transport => 9,
            ErrorKind::Timeout => 10,
        }
    }
}

} // verus!
