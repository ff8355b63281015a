//! The probe of whether directory links can be made: its decisions, from the
//! step that ran and how it ended to the next step or the verdict. The steps
//! themselves (a temporary directory, a target directory in it, a junction on
//! Windows, a directory symlink) are file-system work that the caller does.

use vstd::prelude::*;

verus! {

/// Whether directory links can be made here.
#[derive(Clone, Copy, Debug, PartialEq, Eq, Structural)]
pub enum SymlinkCapability {
    Supported,
    RequiresAdmin,
    Unsupported,
}

/// A step of the probe.
#[derive(Clone, Copy, Debug, PartialEq, Eq, Structural)]
pub enum ProbeStep {
    /// Make a temporary directory.
    CreateTempDir,
    /// Make the directory `target` in it.
    CreateTarget,
    /// Make a junction `link` to `target` (Windows).
    CreateJunction,
    /// Make a directory symlink `link` to `target`.
    CreateSymlink,
}

/// How a step ended.
#[derive(Clone, Copy, Debug, PartialEq, Eq, Structural)]
pub enum StepOutcome {
    /// The step succeeded.
    Done,
    /// The step returned an I/O error: whether its kind was
    /// `PermissionDenied`, and its raw OS error code.
    Failed { permission_denied: bool, raw_os_error: Option<i32> },
    /// The blocking task that ran the step did not complete.
    Aborted,
}

/// What the caller does next.
#[derive(Clone, Copy, Debug, PartialEq, Eq, Structural)]
pub enum ProbeAction {
    Run(ProbeStep),
    Finish(SymlinkCapability),
}

/// Windows' `ERROR_PRIVILEGE_NOT_HELD`: making a symlink needs a privilege.
pub const ERROR_PRIVILEGE_NOT_HELD: i32 = 1314;

/// A failure of the symlink step that means links need more rights: a denied
/// permission, or on Windows a privilege that is not held.
pub open spec fn needs_admin(outcome: StepOutcome, on_windows: bool) -> bool {
    match outcome {
        StepOutcome::Failed { permission_denied, raw_os_error } => permission_denied || (on_windows
            && raw_os_error == Some(ERROR_PRIVILEGE_NOT_HELD)),
        _ => false,
    }
}

/// The decision after `step` ended with `outcome`: any failure before a link
/// is tried gives `Unsupported`; a made link gives `Supported`; on Windows a
/// failed junction leads to the symlink attempt; a failed symlink gives
/// `RequiresAdmin` where it [`needs_admin`], else `Unsupported`.
pub open spec fn spec_next_step(step: ProbeStep, outcome: StepOutcome, on_windows: bool) -> ProbeAction {
    match step {
        ProbeStep::CreateTempDir => if outcome is Done {
            ProbeAction::Run(ProbeStep::CreateTarget)
        } else {
            ProbeAction::Finish(SymlinkCapability::Unsupported)
        },
        ProbeStep::CreateTarget => if outcome is Done {
            ProbeAction::Run(
                if on_windows {
                    ProbeStep::CreateJunction
                } else {
                    ProbeStep::CreateSymlink
                },
            )
        } else {
            ProbeAction::Finish(SymlinkCapability::Unsupported)
        },
        ProbeStep::CreateJunction => if outcome is Done {
            ProbeAction::Finish(SymlinkCapability::Supported)
        } else {
            ProbeAction::Run(ProbeStep::CreateSymlink)
        },
        ProbeStep::CreateSymlink => if outcome is Done {
            ProbeAction::Finish(SymlinkCapability::Supported)
        } else if needs_admin(outcome, on_windows) {
            ProbeAction::Finish(SymlinkCapability::RequiresAdmin)
        } else {
            ProbeAction::Finish(SymlinkCapability::Unsupported)
        },
    }
}

/// The first step of the probe.
pub fn first_step() -> (r: ProbeStep)
    ensures
        r == ProbeStep::CreateTempDir,
{
    ProbeStep::CreateTempDir
}

/// The decision of `check_symlink_capability_internal` after a step.
pub fn next_step(step: ProbeStep, outcome: StepOutcome, on_windows: bool) -> (r: ProbeAction)
    ensures
        r == spec_next_step(step, outcome, on_windows),
{
    match step {
        ProbeStep::CreateTempDir => match outcome {
            StepOutcome::Done => ProbeAction::Run(ProbeStep::CreateTarget),
            _ => ProbeAction::Finish(SymlinkCapability::Unsupported),
        },
        ProbeStep::CreateTarget => match outcome {
            StepOutcome::Done => if on_windows {
                ProbeAction::Run(ProbeStep::CreateJunction)
            } else {
                ProbeAction::Run(ProbeStep::CreateSymlink)
            },
            _ => ProbeAction::Finish(SymlinkCapability::Unsupported),
        },
        ProbeStep::CreateJunction => match outcome {
            StepOutcome::Done => ProbeAction::Finish(SymlinkCapability::Supported),
            _ => ProbeAction::Run(ProbeStep::CreateSymlink),
        },
        ProbeStep::CreateSymlink => match outcome {
            StepOutcome::Done => ProbeAction::Finish(SymlinkCapability::Supported),
            StepOutcome::Failed { permission_denied, raw_os_error } => {
                let privilege = match raw_os_error {
                    Some(code) => code == ERROR_PRIVILEGE_NOT_HELD,
                    None => false,
                };
                if permission_denied || (on_windows && privilege) {
                    ProbeAction::Finish(SymlinkCapability::RequiresAdmin)
                } else {
                    ProbeAction::Finish(SymlinkCapability::Unsupported)
                }
            },
            StepOutcome::Aborted => ProbeAction::Finish(SymlinkCapability::Unsupported),
        },
    }
}

/// The order of the steps.
pub open spec fn step_rank(step: ProbeStep) -> int {
    match step {
        ProbeStep::CreateTempDir => 0,
        ProbeStep::CreateTarget => 1,
        ProbeStep::CreateJunction => 2,
        ProbeStep::CreateSymlink => 3,
    }
}

/// The probe moves forward: each decision finishes or runs a later step, so
/// it ends after at most four steps; the junction is tried only on Windows.
pub proof fn lemma_probe_progresses(step: ProbeStep, outcome: StepOutcome, on_windows: bool)
    ensures
        spec_next_step(step, outcome, on_windows) matches ProbeAction::Run(next) ==> step_rank(
            next,
        ) > step_rank(step),
        spec_next_step(step, outcome, false) != ProbeAction::Run(ProbeStep::CreateJunction),
{
}

/// `Supported` comes only from a link that was made; `RequiresAdmin` only
/// from a symlink attempt refused for want of rights.
pub proof fn lemma_verdicts(step: ProbeStep, outcome: StepOutcome, on_windows: bool)
    ensures
        spec_next_step(step, outcome, on_windows) == ProbeAction::Finish(
            SymlinkCapability::Supported,
        ) <==> ((step == ProbeStep::CreateJunction || step == ProbeStep::CreateSymlink)
            && outcome == StepOutcome::Done),
        spec_next_step(step, outcome, on_windows) == ProbeAction::Finish(
            SymlinkCapability::RequiresAdmin,
        ) <==> (step == ProbeStep::CreateSymlink && needs_admin(outcome, on_windows)),
{
}

} // verus!
