use vfs_shim::engine::{
    copy_up, cow_seed, overlay_fs, seed_from_director, write_director_file, CopyUpStart,
    Decision, Engine, EngineError, OnDisk, OpenIntent, PathError, RenameOutcome, RootHit,
    SeedEvent, SeedStep,
};
use vfs_shim::fuse_client::{OpenReply, RingStatus};
use vfs_shim::guard::ShimIoGuard;
use vfs_shim::hookstats::{
    copy_up_count, overlay_fail_count, CopyUp, OverlayFail, Stats,
};
use vfs_shim::overlay::{overlay_layer_dir, DirItem, FsOp, KeyedItem, OverlayEntry, OverlayState};

const NOTHING: OnDisk = OnDisk { file: None, marked: false };
const WRITE: OpenIntent = OpenIntent { write: true, preserves: false };
const COPY_ON_WRITE: OpenIntent = OpenIntent { write: true, preserves: true };
const ROOT: &str = r"\??\C:\Games\Skyrim";
const OVERLAY: &str = r"C:\Overlay";

fn hit(root: u32, comps: &[&str]) -> RootHit {
    RootHit { root, comps: comps.iter().map(|c| c.to_string()).collect() }
}

fn snapshot_says() -> Option<Decision> {
    Some(Decision::Redirect { target_nt: r"\??\D:\Mods\Cool\foo.esp".to_string() })
}

fn target(d: &Decision) -> Option<&str> {
    match d {
        Decision::Redirect { target_nt } => Some(target_nt),
        _ => None,
    }
}

fn two_roots() -> Vec<(u32, String)> {
    vec![(0, r"C:\Games\Skyrim".to_string()), (1, r"C:\Docs\Skyrim".to_string())]
}

fn with_both() -> Engine {
    Engine::with_roots_and_overlay(two_roots(), OVERLAY, Ok(()), true).unwrap_or_else(|_| unreachable!())
}

#[test]
fn new_rejects_a_bad_snapshot() {
    assert!(matches!(
        Engine::new(r"C:\Games\Skyrim", Ok(()), false),
        Err(EngineError::Snapshot)
    ));
}

#[test]
fn with_roots_rejects_an_empty_root_list() {
    assert!(matches!(
        Engine::with_roots(vec![], Ok(()), true),
        Err(EngineError::Root(PathError::EmptyRoot))
    ));
    assert!(matches!(
        Engine::with_roots_and_overlay(vec![], OVERLAY, Ok(()), true),
        Err(EngineError::Root(PathError::EmptyRoot))
    ));
}

#[test]
fn a_malformed_root_is_refused() {
    assert!(matches!(
        Engine::new("x", Err(PathError::Malformed), true),
        Err(EngineError::Root(PathError::Malformed))
    ));
}

#[test]
fn decide_redirects_a_virtual_file() {
    let engine = Engine::new(ROOT, Ok(()), true).unwrap_or_else(|_| unreachable!());
    let d = engine.decide(Some(&hit(0, &["data", "foo.esp"])), NOTHING, snapshot_says());
    assert_eq!(target(&d), Some(r"\??\D:\Mods\Cool\foo.esp"));
}

#[test]
fn decide_passes_through_outside_root() {
    let engine = Engine::new(ROOT, Ok(()), true).unwrap_or_else(|_| unreachable!());
    assert!(matches!(engine.decide(None, NOTHING, None), Decision::PassThrough));
}

#[test]
fn is_under_root_predicate() {
    let engine = Engine::new(ROOT, Ok(()), true).unwrap_or_else(|_| unreachable!());
    assert!(engine.is_under_root(Some(true)));
    assert!(!engine.is_under_root(Some(false)));
}

#[test]
fn a_cross_root_rename_is_refused_rather_than_declined() {
    let from = hit(1, &["a.txt"]);
    let to = hit(0, &["b.txt"]);
    let with_overlay = with_both();
    assert_eq!(with_overlay.rename(Some(&from), Some(&to), false).0, RenameOutcome::CrossRoot);
    let no_overlay =
        Engine::with_roots(two_roots(), Ok(()), true).unwrap_or_else(|_| unreachable!());
    assert_eq!(
        no_overlay.rename(Some(&from), Some(&to), false).0,
        RenameOutcome::CrossRoot,
        "with no overlay the cross-root check was skipped"
    );
    let same_root = hit(1, &["c.txt"]);
    assert_eq!(
        with_overlay.rename(Some(&from), Some(&same_root), false).0,
        RenameOutcome::Handled
    );
    assert_eq!(
        no_overlay.rename(Some(&from), Some(&same_root), false).0,
        RenameOutcome::Declined
    );
    assert_eq!(with_overlay.rename(None, Some(&to), false).0, RenameOutcome::Declined);
}

#[test]
fn real_on_disk_file_under_root_not_in_snapshot_is_denied() {
    // The snapshot denies what it does not know; the file on disk is never asked.
    let engine = Engine::new(ROOT, Ok(()), true).unwrap_or_else(|_| unreachable!());
    let d = engine.decide(
        Some(&hit(0, &["data", "negative-canary.bin"])),
        NOTHING,
        Some(Decision::Deny),
    );
    assert!(matches!(d, Decision::Deny));
}

fn keyed(name: &str, size: u64) -> KeyedItem {
    KeyedItem {
        key: name.to_string(),
        base_key: name.to_string(),
        item: DirItem { name: name.to_string(), is_dir: false, size, mtime: 0 },
    }
}

#[test]
fn overlay_listing_adds_overlay_children() {
    let engine = Engine::with_overlay(ROOT, OVERLAY, Ok(()), true).unwrap_or_else(|_| unreachable!());
    let entries = [OverlayEntry {
        name: "overlaid.txt".to_string(),
        key: "overlaid.txt".to_string(),
        base_key: "overlaid.txt".to_string(),
        meta: Some((false, 1, 0)),
        wanted: true,
    }];
    let listed = engine.overlay_listing(
        Some(&hit(0, &["data"])),
        vec![keyed("real.txt", 1)],
        Some(&entries),
    );
    let names: Vec<&str> = listed.iter().map(|e| e.item.name.as_str()).collect();
    assert!(names.contains(&"real.txt"), "real entry dropped: {names:?}");
    assert!(names.contains(&"overlaid.txt"), "overlay entry missing: {names:?}");
    assert!(!names.contains(&"foo.esp"), "snapshot leaked into the listing: {names:?}");
}

#[test]
fn overlay_file_wins_over_snapshot() {
    let engine = Engine::with_overlay(ROOT, OVERLAY, Ok(()), true).unwrap_or_else(|_| unreachable!());
    let disk = OnDisk { file: Some((false, 8)), marked: true };
    let d = engine.decide(Some(&hit(0, &["data", "foo.esp"])), disk, snapshot_says());
    assert_eq!(target(&d), Some(r"\??\C:\Overlay\root-0\data\foo.esp"));
}

#[test]
fn overlay_whiteout_hides_snapshot_file() {
    let engine = Engine::with_overlay(ROOT, OVERLAY, Ok(()), true).unwrap_or_else(|_| unreachable!());
    let h = hit(0, &["data", "foo.esp"]);
    let disk = OnDisk { file: None, marked: true };
    assert!(matches!(engine.decide(Some(&h), disk, snapshot_says()), Decision::Deny));
    assert!(matches!(engine.overlay_state(Some(&h), disk), Some(OverlayState::Whiteout)));
}

#[test]
fn a_write_under_a_second_root_lands_in_that_root_s_overlay() {
    let engine = with_both();
    let expect_target =
        |root: u32| format!(r"\??\{}\data\w.ini", overlay_layer_dir(OVERLAY, root));
    for root in [0u32, 1] {
        for intent in [WRITE, COPY_ON_WRITE] {
            let a = engine.decide_open(Some(&hit(root, &["data", "w.ini"])), intent, NOTHING, false, None);
            assert_eq!(target(&a.decision), Some(expect_target(root).as_str()), "root {root}");
        }
    }
    assert_ne!(expect_target(0), expect_target(1));
    assert!(engine.is_under_root(Some(true)));
    let single = Engine::with_overlay(ROOT, OVERLAY, Ok(()), true).unwrap_or_else(|_| unreachable!());
    assert!(matches!(
        single.decide_open(None, WRITE, NOTHING, false, None).decision,
        Decision::PassThrough
    ));
}

#[test]
fn a_read_under_a_second_root_is_not_answered_from_root_zeros_snapshot() {
    let engine =
        Engine::with_roots(two_roots(), Ok(()), true).unwrap_or_else(|_| unreachable!());
    let via_root0 = engine.decide(Some(&hit(0, &["data", "foo.esp"])), NOTHING, snapshot_says());
    assert_eq!(target(&via_root0), Some(r"\??\D:\Mods\Cool\foo.esp"));
    let via_root1 = engine.decide(Some(&hit(1, &["data", "foo.esp"])), NOTHING, snapshot_says());
    assert!(matches!(via_root1, Decision::Deny));
}

#[test]
fn copy_on_write_never_seeds_from_a_real_file_under_the_root() {
    let engine = with_both();
    for root in [0u32, 1] {
        let h = hit(root, &["data", "foo.esp"]);
        let a = engine.decide_open(Some(&h), COPY_ON_WRITE, NOTHING, false, snapshot_says());
        let dest = format!(r"{}\data\foo.esp", overlay_layer_dir(OVERLAY, root));
        assert_eq!(target(&a.decision), Some(format!(r"\??\{dest}").as_str()));
        let prepare = a.prepare.unwrap_or_else(|| unreachable!());
        assert_eq!(prepare.copy_up_to.as_deref(), Some(dest.as_str()));
        // Without a director there is nothing to copy from.
        let mut stats = Stats::new(true);
        let mut io = ShimIoGuard::new();
        assert!(matches!(
            copy_up(&mut stats, &mut io, root, &h.comps, false, false),
            CopyUpStart::Declined
        ));
        assert_eq!(copy_up_count(&stats, CopyUp::DeclinedNoDirector), 1);
        assert_eq!(copy_up_count(&stats, CopyUp::Seeded), 0);
    }
}

#[test]
fn a_delete_under_a_second_root_does_not_hide_root_zeros_file() {
    let engine = with_both();
    let h1 = hit(1, &["data", "foo.esp"]);
    let steps = engine.whiteout(Some(&h1)).unwrap_or_else(|| unreachable!());
    let marker = r"C:\Overlay\root-1\data\foo.esp.__vfs_wh__";
    assert!(steps.iter().any(|s| matches!(&s.op, FsOp::WriteEmpty { path } if path == marker)));
    let marked = OnDisk { file: None, marked: true };
    assert!(matches!(engine.overlay_state(Some(&h1), marked), Some(OverlayState::Whiteout)));
    // No step touches root 0's layer, so its path is as it was.
    for s in &steps {
        let path = match &s.op {
            FsOp::MakeDirs { path } => path,
            FsOp::Remove { path } => path,
            FsOp::WriteEmpty { path } => path,
            FsOp::Move { to, .. } => to,
        };
        assert!(path.starts_with(r"C:\Overlay\root-1"), "{path}");
    }
    let h0 = hit(0, &["data", "foo.esp"]);
    assert!(matches!(engine.overlay_state(Some(&h0), NOTHING), Some(OverlayState::Absent)));
    let d = engine.decide(Some(&h0), NOTHING, snapshot_says());
    assert_eq!(target(&d), Some(r"\??\D:\Mods\Cool\foo.esp"));
}

#[test]
fn overlay_absent_falls_through_to_snapshot() {
    let engine = Engine::with_overlay(ROOT, OVERLAY, Ok(()), true).unwrap_or_else(|_| unreachable!());
    let d = engine.decide(Some(&hit(0, &["data", "foo.esp"])), NOTHING, snapshot_says());
    assert_eq!(target(&d), Some(r"\??\D:\Mods\Cool\foo.esp"));
}

#[test]
fn a_copy_up_asks_the_director_for_the_whole_file() {
    let mut stats = Stats::new(true);
    let mut io = ShimIoGuard::new();
    let comps = vec!["data".to_string(), "foo.esp".to_string()];
    match copy_up(&mut stats, &mut io, 0, &comps, false, true) {
        CopyUpStart::Seed { root, vpath } => {
            assert_eq!((root, vpath.as_str()), (0, "data/foo.esp"));
        }
        CopyUpStart::Declined => panic!("declined"),
    }
    assert_eq!(io.depth, 1);
    let size = 262144 + 5;
    let (run, first) = seed_from_director(Ok(OpenReply { fh: 7, size, is_dir: false }));
    let mut run = run.unwrap_or_else(|| unreachable!());
    assert_eq!(first, SeedStep::Create);
    assert_eq!(
        write_director_file(&mut run, SeedEvent::Created(true)),
        SeedStep::Read { offset: 0, len: 262144 }
    );
    assert_eq!(
        write_director_file(&mut run, SeedEvent::Read(Some(262144))),
        SeedStep::Write { len: 262144 }
    );
    assert_eq!(
        write_director_file(&mut run, SeedEvent::Written(262144, true)),
        SeedStep::Read { offset: 262144, len: 5 }
    );
    assert_eq!(write_director_file(&mut run, SeedEvent::Read(Some(5))), SeedStep::Write { len: 5 });
    assert_eq!(write_director_file(&mut run, SeedEvent::Written(5, true)), SeedStep::Flush);
    assert_eq!(
        write_director_file(&mut run, SeedEvent::Flushed(true)),
        SeedStep::Ended { outcome: CopyUp::Seeded, bytes: size, close: true }
    );
    assert!(cow_seed(&mut stats, &mut io, 0, "data/foo.esp", CopyUp::Seeded, size));
    assert_eq!(io.depth, 0);
    assert_eq!(copy_up_count(&stats, CopyUp::Seeded), 1);
    assert_eq!(stats.counts.copy_up_bytes, size);
}

#[test]
fn a_copy_up_that_breaks_off_says_where() {
    assert!(matches!(
        seed_from_director(Err(RingStatus::NotFound)),
        (None, SeedStep::Ended { outcome: CopyUp::DirectorRefused, bytes: 0, close: false })
    ));
    let open = Ok(OpenReply { fh: 7, size: 10, is_dir: false });
    let mut run = seed_from_director(open).0.unwrap_or_else(|| unreachable!());
    assert_eq!(
        write_director_file(&mut run, SeedEvent::Created(false)),
        SeedStep::Ended { outcome: CopyUp::DestWriteFailed, bytes: 0, close: true }
    );
    let mut run = seed_from_director(open).0.unwrap_or_else(|| unreachable!());
    write_director_file(&mut run, SeedEvent::Created(true));
    assert_eq!(
        write_director_file(&mut run, SeedEvent::Read(None)),
        SeedStep::Ended { outcome: CopyUp::ReadFailed, bytes: 0, close: true }
    );
    let mut stats = Stats::new(true);
    let mut io = ShimIoGuard { depth: 1 };
    assert!(!cow_seed(&mut stats, &mut io, 0, "x", CopyUp::ReadFailed, 4));
    assert_eq!(copy_up_count(&stats, CopyUp::ReadFailed), 1);
    assert_eq!(stats.counts.copy_up_bytes, 0);
}

#[test]
fn copy_ups_are_declined_for_streams_and_from_within() {
    let comps = vec!["a".to_string()];
    let mut stats = Stats::new(true);
    let mut io = ShimIoGuard::new();
    assert!(matches!(
        copy_up(&mut stats, &mut io, 0, &comps, true, true),
        CopyUpStart::Declined
    ));
    assert_eq!(copy_up_count(&stats, CopyUp::DeclinedStream), 1);
    let mut inside = ShimIoGuard { depth: 1 };
    assert!(matches!(
        copy_up(&mut stats, &mut inside, 0, &comps, false, true),
        CopyUpStart::Declined
    ));
    assert_eq!(copy_up_count(&stats, CopyUp::DeclinedReentrant), 1);
}

#[test]
fn overlay_operations_are_counted_by_what_they_came_to() {
    let comps = vec!["data".to_string(), "x.ini".to_string()];
    let mut stats = Stats::new(true);
    assert!(overlay_fs(&mut stats, OverlayFail::EnsureParent, 0, &comps, false, true));
    assert!(!overlay_fs(&mut stats, OverlayFail::EnsureParent, 0, &comps, false, false));
    assert!(!overlay_fs(&mut stats, OverlayFail::Rename, 0, &comps, true, true));
    assert_eq!(overlay_fail_count(&stats, OverlayFail::Succeeded), 1);
    assert_eq!(overlay_fail_count(&stats, OverlayFail::EnsureParent), 1);
    assert_eq!(overlay_fail_count(&stats, OverlayFail::DeclinedReentrant), 1);
    assert_eq!(overlay_fail_count(&stats, OverlayFail::Rename), 0);
}
