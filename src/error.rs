//! The errors an introduction may end with.

use vstd::prelude::*;

verus! {

/// `std::io::Error`, carried opaquely by `Error::Io`.
#[verifier::external_type_specification]
#[verifier::external_body]
pub struct ExIoError(std::io::Error);

/// The errors that may occur.
#[derive(Debug)]
pub enum Error {
    /// The library holding the loader (`libc` on Linux, `libdl.so` on Android)
    /// is not in the target's memory map.
    LibraryNotFound(String),
    /// None of the loader symbol names is in that library.
    SymbolNotFound(Vec<&'static str>),
    /// No thread of the target is blocked in a system call.
    InstructionPointerNotFound,
    /// The target's architecture is not supported on this host.
    UnsupportedArch,
    /// The target process is not running: `/proc/<id>` does not exist.
    ProcessNotRunning,
    /// The authority policy denies the introduction, or the stage-two file
    /// cannot be handed to the target's owner.
    InsufficientPrivileges,
    /// An Android application target needs the library as a path, not a bare name.
    LibraryPathNeeded,
    /// An I/O operation failed.
    Io(std::io::Error),
}

impl From<std::io::Error> for Error {
    fn from(err: std::io::Error) -> (r: Error)
        ensures
            r == Error::Io(err),
    {
        Error::Io(err)
    }
}

impl vstd::std_specs::convert::FromSpecImpl<std::io::Error> for Error {
    open spec fn obeys_from_spec() -> bool {
        true
    }

    open spec fn from_spec(v: std::io::Error) -> Error {
        Error::Io(v)
    }
}

} // verus!
