//! A participant's arguments, as given and as made ready for a ceremony.

use crate::ciphersuite::Ciphersuite;
use crate::error::{Error, ErrorView};
use crate::keys::KeyPackage;
use vstd::prelude::*;

verus! {

/// The arguments of a participant as the command line gives them.
#[derive(Debug)]
pub struct Args {
    /// The name of the ciphersuite.
    pub ciphersuite: String,
    /// Whether messages go over the console rather than a socket.
    pub cli: bool,
    /// Where the key package is read from: a path, or `-` or nothing for
    /// the console.
    pub key_package: String,
    /// The address of the coordinator.
    pub ip: String,
    /// The port of the coordinator.
    pub port: u16,
}

impl Default for Args {
    fn default() -> (args: Args)
        ensures
            args.ciphersuite@.len() == 0,
            !args.cli,
            args.key_package@.len() == 0,
            args.ip@.len() == 0,
            args.port == 0,
    {
        Args {
            ciphersuite: String::new(),
            cli: false,
            key_package: String::new(),
            ip: String::new(),
            port: 0,
        }
    }
}

/// A participant's arguments, read and checked.
pub struct ProcessedArgs {
    /// The ciphersuite of the ceremony.
    pub ciphersuite: Ciphersuite,
    /// Whether messages go over the console rather than a socket.
    pub cli: bool,
    /// The key package of the participant.
    pub key_package: KeyPackage,
    /// The address of the coordinator.
    pub ip: String,
    /// The port of the coordinator.
    pub port: u16,
}

/// Whether the arguments and the text read for the key package make a
/// participant: the ciphersuite is known, and the text holds a key package
/// of that suite or a secret share that yields one.
pub open spec fn acceptable(args: &Args, key_package: Seq<char>) -> bool {
    &&& Ciphersuite::spec_from_name(args.ciphersuite@) matches Some(suite)
    &&& KeyPackage::spec_parse(suite, key_package) is Some
}

impl ProcessedArgs {
    /// Makes the arguments ready: reads the key package out of the text
    /// that was read for it, and takes the rest over.
    pub fn new(args: &Args, key_package: &str) -> (processed: Result<ProcessedArgs, Error>)
        ensures
            match processed {
                Ok(p) => {
                    &&& acceptable(args, key_package@)
                    &&& Some(p.ciphersuite) == Ciphersuite::spec_from_name(args.ciphersuite@)
                    &&& p.cli == args.cli
                    &&& Some(p.key_package@) == KeyPackage::spec_parse(p.ciphersuite, key_package@)
                    &&& p.ip@ == args.ip@
                    &&& p.port == args.port
                },
                Err(e) => e@ == ErrorView::Config && !acceptable(args, key_package@),
            },
    {
        let ciphersuite = match Ciphersuite::from_name(args.ciphersuite.as_str()) {
            Some(suite) => suite,
            None => {
                return Err(Error::Config);
            },
        };
        let key_package = match KeyPackage::parse(ciphersuite, key_package) {
            Some(package) => package,
            None => {
                return Err(Error::Config);
            },
        };
        Ok(
            ProcessedArgs {
                ciphersuite,
                cli: args.cli,
                key_package,
                ip: args.ip.clone(),
                port: args.port,
            },
        )
    }
}

} // verus!
