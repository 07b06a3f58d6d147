//! Error conditions surfaced by the library.

use vstd::prelude::*;

verus! {

/// Error conditions that the core can report.  The unverified driver maps
/// failures of outside services (host commands, sockets, the hypervisor
/// control API) into these kinds before handing them back to callers.
#[derive(Debug)]
pub enum Error {
    /// A requested feature has no implementation.
    NotImplemented(String),
    /// A named thing (node, sidecar file, workspace, image) is absent.
    NotFound(String),
    /// A bad name, MAC address, path or dataset in the configuration.
    Config(String),
    /// A host command exited non-zero; carries its stderr text.
    Exec(String),
    /// A `zfs` invocation failed; carries its stderr text.
    Zfs(String),
    /// A path could not be used.
    PathError(String),
    /// File or network input/output failed.
    IO(String),
    /// A value (integer, UUID, port, serialized topology) failed to parse.
    Parse(String),
    /// A failure wrapped from another layer with context.
    Wrap(String),
    /// Bad command-line usage.
    Cli(String),
}

impl Error {
    /// The human-readable text carried by this error.
    pub fn msg(&self) -> (r: &String)
        ensures
            r@ == self.text(),
    {
        match self {
            Error::NotImplemented(s) => s,
            Error::NotFound(s) => s,
            Error::Config(s) => s,
            Error::Exec(s) => s,
            Error::Zfs(s) => s,
            Error::PathError(s) => s,
            Error::IO(s) => s,
            Error::Parse(s) => s,
            Error::Wrap(s) => s,
            Error::Cli(s) => s,
        }
    }

    /// The text carried by this error, at the specification level.
    pub open spec fn text(self) -> Seq<char> {
        match self {
            Error::NotImplemented(s) => s@,
            Error::NotFound(s) => s@,
            Error::Config(s) => s@,
            Error::Exec(s) => s@,
            Error::Zfs(s) => s@,
            Error::PathError(s) => s@,
            Error::IO(s) => s@,
            Error::Parse(s) => s@,
            Error::Wrap(s) => s@,
            Error::Cli(s) => s@,
        }
    }
}

} // verus!
