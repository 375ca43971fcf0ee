use vfs_shim::engine::Decision;
use vfs_shim::fuse_client::{Attr, OpenFlags, OpenReply, RingStatus};
use vfs_shim::fuse_synth::{abs_path, is_fuse_synth, lookup, FuseTable};
use vfs_shim::hook::open::{
    absolute_attributes, after_real, after_redirect, dir_open_downgrades,
    director_open_trace, disposition_information, disposition_needs_existence_probe,
    drm_exe_trace, gate, is_append_only, is_synchronous, is_write_open, mkdir_applies,
    note_attempt, note_decision_outcome, note_passthrough_outcome, note_routed,
    open_create_flags, open_synth, open_synth_dir, redirected_attributes, route_open,
    to_nt_path, try_fuse_create, try_fuse_mkdir, vpath_or_dot, Gate, MkdirEvent, MkdirStep,
    OpenEvent, OpenRun, OpenStep, RouteStep,
};
use vfs_shim::hook::tables::{identity_of, path_of_handle, tracked_path, HandleTables};
use vfs_shim::hookstats::{outcome_count, unrouted_director_opens, OpenOutcome, Stats};
use vfs_shim::ntdef::{
    ObjectAttributes, UnicodeString, FILE_CREATED, FILE_OPENED, FILE_OVERWRITTEN,
    FILE_SUPERSEDED, STATUS_ACCESS_DENIED, STATUS_FILE_IS_A_DIRECTORY,
    STATUS_OBJECT_NAME_COLLISION, STATUS_OBJECT_NAME_NOT_FOUND, STATUS_SUCCESS,
    STATUS_UNSUCCESSFUL,
};

const GENERIC_READ: u32 = 0x8000_0000;
const GENERIC_WRITE: u32 = 0x4000_0000;
const FILE_WRITE_DATA: u32 = 0x0002;
const FILE_APPEND_DATA: u32 = 0x0004;

#[test]
fn generic_write_with_append_data_is_not_append_only() {
    assert!(!is_append_only(GENERIC_WRITE | FILE_APPEND_DATA));
}

#[test]
fn append_data_alone_is_append_only() {
    assert!(is_append_only(FILE_APPEND_DATA));
}

#[test]
fn explicit_write_data_with_append_data_is_not_append_only() {
    assert!(!is_append_only(FILE_WRITE_DATA | FILE_APPEND_DATA));
}

#[test]
fn file_open_if_with_read_only_access_is_a_write_open() {
    const FILE_OPEN_IF: u32 = 3;
    assert!(is_write_open(GENERIC_READ, FILE_OPEN_IF));
}

#[test]
fn every_creating_disposition_is_a_write_open_even_with_read_only_access() {
    for disposition in [0u32, 2, 3, 4, 5] {
        assert!(
            is_write_open(GENERIC_READ, disposition),
            "disposition {disposition} must be a write open"
        );
    }
    const FILE_OPEN: u32 = 1;
    assert!(
        !is_write_open(GENERIC_READ, FILE_OPEN),
        "FILE_OPEN with only read access must not be a write open"
    );
}

#[test]
fn only_non_creating_dispositions_downgrade_a_directory_open() {
    assert!(dir_open_downgrades(1), "FILE_OPEN opens an existing directory");
    assert!(dir_open_downgrades(3), "FILE_OPEN_IF opens an existing directory");
    for disposition in [0u32, 2, 4, 5] {
        assert!(
            !dir_open_downgrades(disposition),
            "disposition {disposition} intends to create or replace a file"
        );
    }
}

#[test]
fn disposition_information_matches_nt_semantics() {
    assert_eq!(disposition_information(0, true), FILE_SUPERSEDED);
    assert_eq!(disposition_information(0, false), FILE_CREATED);
    assert_eq!(disposition_information(1, true), FILE_OPENED);
    assert_eq!(disposition_information(1, false), FILE_OPENED);
    assert_eq!(disposition_information(2, true), FILE_CREATED);
    assert_eq!(disposition_information(2, false), FILE_CREATED);
    assert_eq!(disposition_information(3, true), FILE_OPENED);
    assert_eq!(disposition_information(3, false), FILE_CREATED);
    assert_eq!(disposition_information(4, true), FILE_OVERWRITTEN);
    assert_eq!(disposition_information(4, false), FILE_OVERWRITTEN);
    assert_eq!(disposition_information(5, true), FILE_OVERWRITTEN);
    assert_eq!(disposition_information(5, false), FILE_CREATED);
}

#[test]
fn only_the_three_conditional_dispositions_need_an_existence_probe() {
    for d in [0u32, 3, 5] {
        assert!(disposition_needs_existence_probe(d), "disposition {d}");
    }
    for d in [1u32, 2, 4] {
        assert!(!disposition_needs_existence_probe(d), "disposition {d}");
    }
}

fn attr(found: bool, is_dir: bool) -> OpenEvent {
    OpenEvent::Attr(Ok(Attr { found, is_dir, size: 0, mtime: 0 }))
}

fn opened(is_dir: bool) -> OpenReply {
    OpenReply { fh: 77, size: 10, is_dir }
}

#[test]
fn create_flags_follow_the_disposition() {
    let flags = |create, excl, trunc| OpenFlags { write: false, create, excl, trunc };
    assert_eq!(open_create_flags(0), flags(true, false, true));
    assert_eq!(open_create_flags(1), flags(false, false, false));
    assert_eq!(open_create_flags(2), flags(true, true, false));
    assert_eq!(open_create_flags(3), flags(true, false, false));
    assert_eq!(open_create_flags(4), flags(false, false, true));
    assert_eq!(open_create_flags(5), flags(true, false, true));
}

#[test]
fn a_read_open_asks_once_and_is_served() {
    let mut s = Stats::new(true);
    let (mut run, first) = OpenRun::start(false, 1, open_create_flags(1), false);
    assert_eq!(first, OpenStep::OpenRead);
    assert_eq!(
        try_fuse_create(&mut s, &mut run, OpenEvent::Opened(Ok(opened(false))), "p"),
        OpenStep::Serve(opened(false), FILE_OPENED)
    );
}

#[test]
fn a_read_of_what_nobody_serves_is_not_found() {
    let mut s = Stats::new(true);
    let (mut run, _) = OpenRun::start(false, 1, open_create_flags(1), false);
    assert_eq!(
        try_fuse_create(&mut s, &mut run, OpenEvent::Opened(Err(RingStatus::NotFound)), "p"),
        OpenStep::Refuse(STATUS_OBJECT_NAME_NOT_FOUND)
    );
    let (mut run, _) = OpenRun::start(false, 1, open_create_flags(1), true);
    assert_eq!(
        try_fuse_create(&mut s, &mut run, OpenEvent::Opened(Err(RingStatus::NotFound)), "p"),
        OpenStep::FallThrough(false)
    );
    assert_eq!(outcome_count(&s, OpenOutcome::FellThroughWriteFallback), 0);
}

#[test]
fn a_conditional_write_is_probed_first() {
    let mut s = Stats::new(true);
    for (found, information) in [(true, FILE_OVERWRITTEN), (false, FILE_CREATED)] {
        let (mut run, first) = OpenRun::start(true, 5, open_create_flags(5), false);
        assert_eq!(first, OpenStep::Getattr);
        assert_eq!(
            try_fuse_create(&mut s, &mut run, attr(found, false), "p"),
            OpenStep::OpenWrite(open_create_flags(5))
        );
        assert_eq!(
            try_fuse_create(&mut s, &mut run, OpenEvent::Opened(Ok(opened(false))), "p"),
            OpenStep::Serve(opened(false), information)
        );
    }
}

#[test]
fn a_write_open_of_a_directory_is_served_as_the_directory() {
    let mut s = Stats::new(true);
    let (mut run, first) = OpenRun::start(true, 1, open_create_flags(1), false);
    assert_eq!(first, OpenStep::OpenWrite(open_create_flags(1)));
    assert_eq!(
        try_fuse_create(&mut s, &mut run, OpenEvent::Opened(Err(RingStatus::IsDir)), "p"),
        OpenStep::Getattr
    );
    assert_eq!(try_fuse_create(&mut s, &mut run, attr(true, true), "p"), OpenStep::OpenRead);
    assert_eq!(unrouted_director_opens(&s), 1);
    assert_eq!(
        try_fuse_create(&mut s, &mut run, OpenEvent::Opened(Ok(opened(true))), "p"),
        OpenStep::Serve(opened(true), FILE_OPENED)
    );
    // Where it is no directory after all, the first refusal stands.
    let (mut run, _) = OpenRun::start(true, 1, open_create_flags(1), false);
    try_fuse_create(&mut s, &mut run, OpenEvent::Opened(Err(RingStatus::ReadOnly)), "p");
    assert_eq!(
        try_fuse_create(&mut s, &mut run, attr(true, false), "p"),
        OpenStep::Refuse(STATUS_ACCESS_DENIED)
    );
}

#[test]
fn refusals_of_a_write_say_why() {
    let mut s = Stats::new(true);
    for (status, disposition, want) in [
        (RingStatus::Exists, 2, STATUS_OBJECT_NAME_COLLISION),
        (RingStatus::ReadOnly, 4, STATUS_ACCESS_DENIED),
        (RingStatus::IsDir, 4, STATUS_FILE_IS_A_DIRECTORY),
        (RingStatus::IoError, 4, STATUS_UNSUCCESSFUL),
        (RingStatus::NotFound, 4, STATUS_OBJECT_NAME_NOT_FOUND),
        (RingStatus::NotFound, 2, -1073741766),
    ] {
        let (mut run, _) = OpenRun::start(true, disposition, open_create_flags(disposition), false);
        assert_eq!(
            try_fuse_create(&mut s, &mut run, OpenEvent::Opened(Err(status)), "p"),
            OpenStep::Refuse(want),
            "{status:?}"
        );
    }
    let (mut run, _) = OpenRun::start(true, 4, open_create_flags(4), true);
    assert_eq!(
        try_fuse_create(&mut s, &mut run, OpenEvent::Opened(Err(RingStatus::NotFound)), "p"),
        OpenStep::FallThrough(true)
    );
    assert_eq!(outcome_count(&s, OpenOutcome::FellThroughWriteFallback), 1);
}

#[test]
fn a_served_open_is_a_tracked_synthetic_handle() {
    let mut fuse = FuseTable::new();
    let mut t = HandleTables::new();
    let h = open_synth(&mut fuse, &mut t, opened(false), r"\??\C:\r\a.esp", true, true, true);
    assert!(is_fuse_synth(h));
    assert_eq!(lookup(&fuse, h), Some((77, 10, false, 10, true)));
    assert_eq!(abs_path(&fuse, h).as_deref(), Some(r"\??\C:\r\a.esp"));
    assert_eq!(tracked_path(&t, h).as_deref(), Some(r"\??\C:\r\a.esp"));
    let d = open_synth_dir(&mut fuse, &mut t, r"\??\C:\r\d", true, true);
    assert_ne!(d, h);
    assert_eq!(lookup(&fuse, d), Some((0, 0, true, 0, false)));
    assert_eq!(path_of_handle(&t, d).as_deref(), Some(r"\??\C:\r\d"));
}

#[test]
fn directories_are_made_at_the_director() {
    const DIRECTORY: u32 = 1;
    for disp in [2u32, 3, 5] {
        assert!(mkdir_applies(DIRECTORY, disp));
        assert!(!mkdir_applies(0, disp));
    }
    assert!(!mkdir_applies(DIRECTORY, 1));
    assert_eq!(try_fuse_mkdir(2, MkdirEvent::Made(Ok(()))), MkdirStep::Serve(FILE_CREATED));
    assert_eq!(
        try_fuse_mkdir(2, MkdirEvent::Made(Err(RingStatus::NotFound))),
        MkdirStep::Refuse(STATUS_OBJECT_NAME_NOT_FOUND)
    );
    assert_eq!(
        try_fuse_mkdir(2, MkdirEvent::Made(Err(RingStatus::Exists))),
        MkdirStep::Getattr
    );
    let dir = MkdirEvent::Attr(Ok(Attr { found: true, is_dir: true, size: 0, mtime: 0 }));
    assert_eq!(try_fuse_mkdir(2, dir), MkdirStep::Refuse(STATUS_OBJECT_NAME_COLLISION));
    assert_eq!(try_fuse_mkdir(3, dir), MkdirStep::Serve(FILE_OPENED));
    assert_eq!(
        try_fuse_mkdir(3, MkdirEvent::Attr(Err(RingStatus::IoError))),
        MkdirStep::Refuse(STATUS_UNSUCCESSFUL)
    );
}

#[test]
fn a_call_from_within_goes_straight_to_the_system() {
    assert_eq!(gate(false, false), Gate::Fail(STATUS_UNSUCCESSFUL));
    assert_eq!(gate(true, true), Gate::Real);
    assert_eq!(gate(true, false), Gate::Decide);
    assert_eq!(vpath_or_dot(""), ".");
    assert_eq!(vpath_or_dot("data"), "data");
    assert!(is_synchronous(0x10));
    assert!(is_synchronous(0x20));
    assert!(!is_synchronous(0x40));
}

#[test]
fn routes_follow_the_decision() {
    let mut s = Stats::new(true);
    let p = Some(r"\??\C:\r\a");
    let redirect = Some(Decision::Redirect { target_nt: r"\??\D:\t".to_string() });
    assert!(matches!(
        route_open(&mut s, redirect, p, false, true, false),
        RouteStep::Redirect { target } if target == r"\??\D:\t"
    ));
    assert!(matches!(
        route_open(&mut s, Some(Decision::Deny), p, false, true, true),
        RouteStep::Refuse(STATUS_OBJECT_NAME_NOT_FOUND)
    ));
    assert!(matches!(
        route_open(&mut s, Some(Decision::PassThrough), p, false, true, false),
        RouteStep::Unchanged
    ));
    assert!(matches!(
        route_open(&mut s, None, Some(r"C:\r\a"), false, false, true),
        RouteStep::Absolute { path } if path == r"\??\C:\r\a"
    ));
    assert!(matches!(
        route_open(&mut s, None, None, false, false, true),
        RouteStep::Refuse(STATUS_OBJECT_NAME_NOT_FOUND)
    ));
    assert_eq!(outcome_count(&s, OpenOutcome::FellThroughRedirect), 1);
    assert_eq!(outcome_count(&s, OpenOutcome::Denied), 1);
    assert_eq!(outcome_count(&s, OpenOutcome::FellThroughPassthrough), 1);
    note_decision_outcome(&mut s, p, true, OpenOutcome::Denied);
    note_passthrough_outcome(&mut s, p, false, false);
    assert_eq!(outcome_count(&s, OpenOutcome::Denied), 1);
    assert_eq!(outcome_count(&s, OpenOutcome::FellThroughPassthrough), 1);
    note_routed(&mut s, r"\??\C:\r\a", STATUS_SUCCESS);
    assert_eq!(outcome_count(&s, OpenOutcome::Routed), 1);
    note_attempt(&mut s, Some(r"\??\C:\R\A"), None);
    assert_eq!(s.counts.passthrough.count(r"\??\c:\r\a"), 1);
}

#[test]
fn attributes_are_rewritten_without_a_root() {
    let oa = ObjectAttributes {
        root_directory: 5,
        object_name: Some(UnicodeString::of_text("a.esp")),
        attributes: 0x40,
    };
    let r = redirected_attributes(&oa, r"\??\D:\t").unwrap_or_else(|_| unreachable!());
    assert_eq!((r.root_directory, r.attributes), (0, 0x40));
    let name = r.object_name.unwrap_or_else(|| unreachable!());
    assert_eq!((name.length, name.maximum_length), (16, 16));
    assert_eq!(name.to_text().as_deref(), Some(r"\??\D:\t"));
    let r = absolute_attributes(&oa, r"\??\C:\x").unwrap_or_else(|_| unreachable!());
    assert_eq!(r.root_directory, 0);
    assert_eq!(
        r.object_name.unwrap_or_else(|| unreachable!()).to_text().as_deref(),
        Some(r"\??\C:\x")
    );
    assert_eq!(to_nt_path(r" \\?\C:\x "), r"\??\C:\x");
}

#[test]
fn a_name_too_long_for_its_counted_form_fails_the_call() {
    let oa = ObjectAttributes { root_directory: 5, object_name: None, attributes: 0 };
    let longest = "x".repeat(32767);
    assert!(redirected_attributes(&oa, &longest).is_ok());
    assert!(absolute_attributes(&oa, &longest[1..]).is_ok());
    assert_eq!(absolute_attributes(&oa, &longest).err(), Some(STATUS_UNSUCCESSFUL));
    let longer = "x".repeat(32768);
    assert_eq!(redirected_attributes(&oa, &longer).err(), Some(STATUS_UNSUCCESSFUL));
    // Two units each.
    let wide = "\u{1F600}".repeat(16384);
    assert_eq!(redirected_attributes(&oa, &wide).err(), Some(STATUS_UNSUCCESSFUL));
}

#[test]
fn a_made_directory_is_no_append_handle_and_has_no_path() {
    let mut fuse = FuseTable::new();
    let mut t = HandleTables::new();
    let a = open_synth_dir(&mut fuse, &mut t, r"\??\C:\r\a", true, true);
    let b = open_synth_dir(&mut fuse, &mut t, r"\??\C:\r\b", true, true);
    assert_ne!(a, b);
    for h in [a, b] {
        assert_eq!(lookup(&fuse, h), Some((0, 0, true, 0, false)));
        assert_eq!(abs_path(&fuse, h), None);
    }
}

#[test]
fn real_handles_are_remembered_by_path() {
    let mut t = HandleTables::new();
    after_redirect(&mut t, Some(8), Some(r"\??\C:\r\a"), Some(r"\r\a"), true, STATUS_SUCCESS);
    assert_eq!(identity_of(&t, 8).as_deref(), Some(r"\r\a"));
    assert_eq!(tracked_path(&t, 8).as_deref(), Some(r"\??\C:\r\a"));
    after_real(&mut t, Some(12), Some(r"\??\C:\r\d"), true, STATUS_SUCCESS);
    assert_eq!(path_of_handle(&t, 12).as_deref(), Some(r"\??\C:\r\d"));
    after_real(&mut t, Some(16), Some(r"\??\C:\r\e"), true, STATUS_UNSUCCESSFUL);
    assert_eq!(path_of_handle(&t, 16), None);
}

#[test]
fn traces_name_the_interesting_opens() {
    assert_eq!(
        director_open_trace(r"\??\C:\r/Data\A.ESM", 9, 100).as_deref(),
        Some("100\tdirector-open\tsize=9\tC:\\r\\Data\\A.ESM\n")
    );
    assert_eq!(director_open_trace(r"\??\C:\r\a.txt", 9, 100), None);
    assert_eq!(
        drm_exe_trace(r"\??\C:\r\skyrimse.EXE", true, false, 5).as_deref(),
        Some("5\tskyrimse-exe\toa=fuse-relative\taccess=read\tC:\\r\\skyrimse.EXE\n")
    );
    assert_eq!(drm_exe_trace(r"\??\C:\r\other.exe", true, false, 5), None);
}
