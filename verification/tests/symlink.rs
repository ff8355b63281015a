use theseus::symlink::{
    first_step, next_step, ProbeAction, ProbeStep, StepOutcome, SymlinkCapability,
    ERROR_PRIVILEGE_NOT_HELD,
};

fn failed(pd: bool, code: Option<i32>) -> StepOutcome {
    StepOutcome::Failed { permission_denied: pd, raw_os_error: code }
}

#[test]
fn probe_starts_with_temp_dir() {
    assert_eq!(first_step(), ProbeStep::CreateTempDir);
}

#[test]
fn early_failures_are_unsupported() {
    for os in [false, true] {
        assert_eq!(
            next_step(ProbeStep::CreateTempDir, failed(true, None), os),
            ProbeAction::Finish(SymlinkCapability::Unsupported)
        );
        assert_eq!(
            next_step(ProbeStep::CreateTarget, failed(false, Some(5)), os),
            ProbeAction::Finish(SymlinkCapability::Unsupported)
        );
    }
}

#[test]
fn unix_path_goes_straight_to_symlink() {
    assert_eq!(
        next_step(ProbeStep::CreateTempDir, StepOutcome::Done, false),
        ProbeAction::Run(ProbeStep::CreateTarget)
    );
    assert_eq!(
        next_step(ProbeStep::CreateTarget, StepOutcome::Done, false),
        ProbeAction::Run(ProbeStep::CreateSymlink)
    );
    assert_eq!(
        next_step(ProbeStep::CreateSymlink, StepOutcome::Done, false),
        ProbeAction::Finish(SymlinkCapability::Supported)
    );
    assert_eq!(
        next_step(ProbeStep::CreateSymlink, failed(true, Some(13)), false),
        ProbeAction::Finish(SymlinkCapability::RequiresAdmin)
    );
    assert_eq!(
        next_step(ProbeStep::CreateSymlink, failed(false, Some(ERROR_PRIVILEGE_NOT_HELD)), false),
        ProbeAction::Finish(SymlinkCapability::Unsupported)
    );
    assert_eq!(
        next_step(ProbeStep::CreateSymlink, StepOutcome::Aborted, false),
        ProbeAction::Finish(SymlinkCapability::Unsupported)
    );
}

#[test]
fn windows_tries_junction_first() {
    assert_eq!(
        next_step(ProbeStep::CreateTarget, StepOutcome::Done, true),
        ProbeAction::Run(ProbeStep::CreateJunction)
    );
    assert_eq!(
        next_step(ProbeStep::CreateJunction, StepOutcome::Done, true),
        ProbeAction::Finish(SymlinkCapability::Supported)
    );
    assert_eq!(
        next_step(ProbeStep::CreateJunction, failed(false, None), true),
        ProbeAction::Run(ProbeStep::CreateSymlink)
    );
    assert_eq!(
        next_step(ProbeStep::CreateJunction, StepOutcome::Aborted, true),
        ProbeAction::Run(ProbeStep::CreateSymlink)
    );
    assert_eq!(
        next_step(ProbeStep::CreateSymlink, failed(false, Some(1314)), true),
        ProbeAction::Finish(SymlinkCapability::RequiresAdmin)
    );
    assert_eq!(
        next_step(ProbeStep::CreateSymlink, failed(false, Some(5)), true),
        ProbeAction::Finish(SymlinkCapability::Unsupported)
    );
}

#[test]
fn probe_ends_within_four_steps() {
    // whatever the outcomes, a run of the probe finishes
    let outcomes = [StepOutcome::Done, failed(true, None), failed(false, Some(1314)), StepOutcome::Aborted];
    for os in [false, true] {
        for o in outcomes {
            let mut step = first_step();
            let mut n = 0;
            loop {
                n += 1;
                match next_step(step, o, os) {
                    ProbeAction::Run(s) => step = s,
                    ProbeAction::Finish(_) => break,
                }
            }
            assert!(n <= 4);
        }
    }
}
