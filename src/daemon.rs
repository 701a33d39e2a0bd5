//! The user daemon's start-up decisions: which interface the program is attached to,
//! and which attach flags are tried in turn.
use vstd::prelude::*;

verus! {

/// What the daemon attaches its program to.
#[derive(Clone, Debug, PartialEq, Eq)]
pub struct EbpfBuilder {
    pub ifname: String,
}

impl EbpfBuilder {
    /// A builder for the interface `target_ifname`.
    pub fn build(target_ifname: String) -> (r: EbpfBuilder)
        ensures
            r.ifname@ == target_ifname@,
    {
        EbpfBuilder { ifname: target_ifname }
    }
}

/// The flags an attach attempt uses.
#[derive(Clone, Copy, Debug, PartialEq, Eq)]
pub enum AttachMode {
    /// The kernel's default choice of hook.
    Default,
    /// Explicitly the generic (socket-buffer) hook, which every driver offers.
    Generic,
}

impl AttachMode {
    /// The first attempt: default flags.
    pub fn first() -> (r: AttachMode)
        ensures
            r == AttachMode::Default,
    {
        AttachMode::Default
    }

    /// The attempt after this one failed: explicit flags after the default ones, and
    /// nothing after that.
    pub fn fallback(self) -> (r: Option<AttachMode>)
        ensures
            r == (match self {
                AttachMode::Default => Some(AttachMode::Generic),
                AttachMode::Generic => None,
            }),
    {
        match self {
            AttachMode::Default => Some(AttachMode::Generic),
            AttachMode::Generic => None,
        }
    }
}

} // verus!
