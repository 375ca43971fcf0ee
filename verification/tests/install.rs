use vfs_shim::hook::install::{
    install, install_all_detours, install_late, install_plan, note_skipped_detour,
    skipped_detours, Detour, InstallAnswer, InstallError, InstallOp, InstallProgress, InstallRun,
    InstallStep, Need, SkippedDetours,
};

/// Runs an installation, answering each step by `answer`.
fn run(
    mut r: InstallRun,
    skipped: &mut SkippedDetours,
    answer: impl Fn(InstallStep) -> InstallAnswer,
) -> Result<Vec<Detour>, InstallError> {
    loop {
        let step = r.step();
        match r.advance(skipped, answer(step)) {
            InstallProgress::Next(_) => (),
            InstallProgress::Installed(guard) => return Ok(guard.live),
            InstallProgress::Failed(e) => return Err(e),
        }
    }
}

fn begin(patch_early_owned: bool, propagate: bool) -> InstallRun {
    install_all_detours(false, true, patch_early_owned, propagate)
        .unwrap_or_else(|_| unreachable!())
}

#[test]
fn a_full_installation_has_every_detour_live() {
    let mut skipped = SkippedDetours::new();
    let live = run(begin(true, true), &mut skipped, |_| InstallAnswer::Done).unwrap();
    assert_eq!(live.len(), 22);
    assert!(skipped_detours(&skipped).is_empty());
    assert_eq!(live[0], Detour::CreateFile);
    assert_eq!(live[21], Detour::CreateProcessInternal);
    let late = run(begin(false, false), &mut skipped, |_| InstallAnswer::Done).unwrap();
    assert_eq!(late.len(), 17);
    assert!(!late.contains(&Detour::OpenFile));
}

#[test]
fn every_detour_is_made_before_it_is_switched_on() {
    let plan = install_plan(true, true);
    assert_eq!(plan.len(), 44);
    for (i, s) in plan.iter().enumerate() {
        if s.op == InstallOp::Enable {
            let make = InstallStep { op: InstallOp::Make, detour: s.detour };
            assert!(plan[..i].contains(&make), "{s:?}");
        }
    }
}

#[test]
fn a_host_without_the_newer_functions_is_recorded() {
    let mut skipped = SkippedDetours::new();
    let missing = |s: InstallStep| {
        if s.detour.need() == Need::Optional && s.detour != Detour::QueryObject {
            InstallAnswer::Missing
        } else {
            InstallAnswer::Done
        }
    };
    let live = run(begin(true, true), &mut skipped, missing).unwrap();
    assert_eq!(live.len(), 20);
    assert_eq!(
        skipped_detours(&skipped),
        ["NtQueryDirectoryFileEx", "NtQueryInformationByName"]
    );
    // A detour that cannot be switched on is passed over just so.
    let refused = |s: InstallStep| {
        if s.detour == Detour::QueryObject && s.op == InstallOp::Enable {
            InstallAnswer::Refused
        } else {
            InstallAnswer::Done
        }
    };
    let live = run(begin(true, true), &mut skipped, refused).unwrap();
    assert!(!live.contains(&Detour::QueryObject));
    assert_eq!(skipped_detours(&skipped).len(), 3);
}

#[test]
fn child_processes_are_followed_at_best() {
    let mut skipped = SkippedDetours::new();
    let no_children = |s: InstallStep| {
        if s.detour == Detour::CreateProcessInternal {
            InstallAnswer::Missing
        } else {
            InstallAnswer::Done
        }
    };
    let live = run(begin(true, true), &mut skipped, no_children).unwrap();
    assert_eq!(live.len(), 21);
    assert!(skipped_detours(&skipped).is_empty());
}

#[test]
fn a_required_function_is_not_passed_over() {
    for (op, answer, want) in [
        (InstallOp::Make, InstallAnswer::Missing, InstallError::ProcMissing),
        (InstallOp::Make, InstallAnswer::Refused, InstallError::Detour),
        (InstallOp::Enable, InstallAnswer::Refused, InstallError::Detour),
    ] {
        let mut skipped = SkippedDetours::new();
        let at = InstallStep { op, detour: Detour::DeleteFile };
        let r = run(begin(true, true), &mut skipped, |s| {
            if s == at {
                answer
            } else {
                InstallAnswer::Done
            }
        });
        assert_eq!(r, Err(want));
    }
}

#[test]
fn an_installation_needs_a_loaded_ntdll_and_happens_once() {
    assert_eq!(install(true, true, true).err(), Some(InstallError::AlreadyInstalled));
    assert_eq!(install(false, false, true).err(), Some(InstallError::NtdllMissing));
    assert!(install(false, true, true).is_ok());
    assert_eq!(install_late(0, true, true, true).err(), Some(InstallError::Detour));
    assert_eq!(
        install_late(1, true, true, true).err(),
        Some(InstallError::AlreadyInstalled)
    );
    assert_eq!(install_late(1, false, false, true).err(), Some(InstallError::NtdllMissing));
    assert!(install_late(1, false, true, true).is_ok());
}

#[test]
fn skipped_names_are_sorted_and_distinct() {
    let mut s = SkippedDetours::new();
    for n in ["b", "a", "c", "b", "a"] {
        note_skipped_detour(&mut s, n);
    }
    assert_eq!(skipped_detours(&s), ["a", "b", "c"]);
}

#[test]
fn export_names_are_distinct() {
    let mut names: Vec<&str> = install_plan(true, true)
        .iter()
        .filter(|s| s.op == InstallOp::Make)
        .map(|s| s.detour.export_name())
        .collect();
    assert_eq!(names.len(), 22);
    names.sort_unstable();
    names.dedup();
    assert_eq!(names.len(), 22);
    assert!(names.contains(&"NtQueryInformationByName"));
    assert!(names.contains(&"CreateProcessInternalW"));
}
