//! Loading the packet hooks: which attachment to try, and when to give up.

use crate::state::{OverallState, OverallView};
use vstd::prelude::*;

verus! {

/// How the ingress hook is attached to the interface.
#[derive(Debug, Clone, Copy, PartialEq, Eq, Structural)]
pub enum AttachMode {
    /// With the default flags, in the driver where it can.
    Native,
    /// In the generic mode that every interface supports.
    Skb,
}

/// One try to load and attach the hooks, and how it went.
#[derive(Debug, Clone, PartialEq, Eq)]
pub struct Attempt {
    /// How the ingress hook was to be attached.
    pub mode: AttachMode,
    /// Why the try failed, if it did.
    pub failure: Option<String>,
}

/// What came of loading the hooks.
#[derive(Debug, Clone, PartialEq, Eq)]
pub enum LoadReport {
    /// The hooks are attached, the ingress hook in the given mode.
    Loaded(AttachMode),
    /// The hooks could not be attached, for the given reason.
    Failed(String),
}

/// What to do next when loading the hooks.
#[derive(Debug, Clone, PartialEq, Eq)]
pub enum LoadStep {
    /// Try to load and attach in the given mode.
    Try(AttachMode),
    /// Loading is over.
    Done(LoadReport),
}

/// The step that follows `previous`, the last try, if there was one:
/// the first try uses the default flags; a try that succeeded ends the
/// loading; after a failure with the default flags the generic mode is
/// tried once; a failure in the generic mode is final.
pub open spec fn load_plan(previous: Option<Attempt>) -> LoadStep {
    match previous {
        None => LoadStep::Try(AttachMode::Native),
        Some(attempt) => match attempt.failure {
            None => LoadStep::Done(LoadReport::Loaded(attempt.mode)),
            Some(reason) => match attempt.mode {
                AttachMode::Native => LoadStep::Try(AttachMode::Skb),
                AttachMode::Skb => LoadStep::Done(LoadReport::Failed(reason)),
            },
        },
    }
}

/// Decides the next step of loading the hooks; see [`load_plan`].
pub fn load_ebpf(previous: Option<Attempt>) -> (step: LoadStep)
    ensures
        step == load_plan(previous),
{
    match previous {
        None => LoadStep::Try(AttachMode::Native),
        Some(attempt) => match attempt.failure {
            None => LoadStep::Done(LoadReport::Loaded(attempt.mode)),
            Some(reason) => match attempt.mode {
                AttachMode::Native => LoadStep::Try(AttachMode::Skb),
                AttachMode::Skb => LoadStep::Done(LoadReport::Failed(reason)),
            },
        },
    }
}

/// Unloads the hooks: the firewall lets go of all it held, so that
/// nothing keeps the tables alive.
pub fn unload_ebpf(overall: &mut OverallState)
    requires
        old(overall).wf(),
    ensures
        final(overall).wf(),
        final(overall)@ == (OverallView {
            enabled: false,
            state: None,
            counters: old(overall)@.counters,
        }),
{
    overall.unload();
}

} // verus!
