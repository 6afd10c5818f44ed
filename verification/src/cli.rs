//! Which of the three parties a process runs as.
//!
//! The command-line flags themselves are parsed outside the library; the
//! decision they encode (backend first, then frontend, then broker) is
//! taken here.

use vstd::prelude::*;

verus! {

/// The flags a process was started with. `debug` is accepted and ignored
/// by the selection; `b`, `f` and `stun` pick the party to run.
pub struct Cli {
    pub debug: bool,
    pub b: bool,
    pub f: bool,
    pub stun: bool,
}

/// What the process should run as.
#[derive(PartialEq, Eq, Structural, Debug, Clone, Copy)]
pub enum CliKind {
    Unknown,
    Backend,
    Frontend,
    StunServer,
}

impl Cli {
    /// Picks the party to run: the backend flag wins over the frontend
    /// flag, which wins over the broker flag; with no flag set, nothing
    /// runs.
    pub fn kind(self) -> (k: CliKind)
        ensures
            k == (if self.b {
                CliKind::Backend
            } else if self.f {
                CliKind::Frontend
            } else if self.stun {
                CliKind::StunServer
            } else {
                CliKind::Unknown
            }),
    {
        if self.b {
            return CliKind::Backend;
        }
        if self.f {
            return CliKind::Frontend;
        }
        if self.stun {
            return CliKind::StunServer;
        }
        CliKind::Unknown
    }
}

} // verus!
