use vstd::prelude::*;

verus! {

/// `std::io::Error`, carried through unchanged.
#[verifier::external_type_specification]
#[verifier::external_body]
pub struct ExIoError(std::io::Error);

/// `nix::errno::Errno`, carried through unchanged.
#[verifier::external_type_specification]
#[verifier::external_body]
pub struct ExErrno(nix::errno::Errno);

/// Errors of starting and stopping the oracle.
#[derive(Debug)]
pub enum Error {
    /// An I/O operation failed (binding a port, writing the config, spawning or waiting).
    Io(std::io::Error),
    /// Sending a signal to the oracle process failed.
    Nix(nix::errno::Errno),
    /// The oracle did not report that it serves HTTP before the start-up deadline.
    Start,
}

} // verus!
