//! The driver of a FROST threshold signing ceremony.
//!
//! A coordinator and the signers that take part produce one signature on
//! one message in three rounds: the participants commit, the coordinator
//! issues the signing package, the participants sign and the coordinator
//! aggregates. The signature scheme itself comes from `frost-ed25519` and
//! `frost-ed448`; this library is what drives it.
//!
//! - [`message`] holds the envelope and its text form, [`wire`] and
//!   [`reading`] the text of what it carries.
//! - [`coordinator`] and [`participant`] hold the two round machines, the
//!   arguments of the two programs and the bookkeeping of their transports.
//! - [`identifier`], [`identifier_map`], [`keys`], [`round1`], [`round2`]
//!   and [`signing_package`] hold the values of a ceremony as plain bytes.
//! - [`scheme`] holds every call into the signature scheme, [`hexcodec`]
//!   and [`text`] the calls that read console input.
//! - [`trusted_dealer`] makes the key material of a group.
//!
//! The library reads and writes no file, socket or console. A program
//! around it hands it what was read and carries out what it returns.

pub mod ciphersuite;
pub mod coordinator;
pub mod error;
pub mod hexcodec;
pub mod identifier;
pub mod identifier_map;
pub mod keys;
pub mod message;
pub mod participant;
pub mod reading;
pub mod round1;
pub mod round2;
pub mod scheme;
pub mod signing_package;
pub mod text;
pub mod trusted_dealer;
pub mod wire;
