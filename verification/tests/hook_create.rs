use vfs_shim::engine::Decision;
use vfs_shim::fuse_client::{Attr, OpenFlags, OpenReply, RingStatus};
use vfs_shim::fuse_synth::{is_fuse_synth, lookup, FuseTable};
use vfs_shim::hook::create::{create_hook, CallEvent, CallRun, CallStep, OpenCall};
use vfs_shim::hook::open::DIR_MODE;
use vfs_shim::hook::tables::{identity_of, path_of_handle, tracked_path, HandleTables};
use vfs_shim::hookstats::{outcome_count, OpenOutcome, Stats};
use vfs_shim::ntdef::{
    FILE_CREATED, FILE_DIRECTORY_FILE, FILE_OPENED, STATUS_OBJECT_NAME_COLLISION,
    STATUS_OBJECT_NAME_NOT_FOUND, STATUS_OBJECT_PATH_NOT_FOUND, STATUS_SUCCESS,
    STATUS_UNSUCCESSFUL,
};

const GENERIC_READ: u32 = 0x8000_0000;
const GENERIC_WRITE: u32 = 0x4000_0000;
const PATH: &str = r"\??\C:\game\data\a.esm";
const VPATH: &str = "data/a.esm";

struct World {
    stats: Stats,
    fuse: FuseTable,
    tables: HandleTables,
}

impl World {
    fn new() -> World {
        World { stats: Stats::new(true), fuse: FuseTable::new(), tables: HandleTables::new() }
    }

    fn begin(&mut self, call: OpenCall) -> (CallRun, CallStep) {
        create_hook(&mut self.stats, call, true, false)
    }

    fn advance(&mut self, run: &mut CallRun, event: CallEvent) -> CallStep {
        run.advance(&mut self.stats, &mut self.fuse, &mut self.tables, event)
    }
}

fn managed(creates: bool, access: u32, disposition: u32) -> OpenCall {
    OpenCall {
        creates,
        access,
        disposition,
        options: 0,
        path: Some(PATH.to_string()),
        name: Some("a.esm".to_string()),
        hit: Some((4, VPATH.to_string())),
        ours: true,
        synthetic_root: false,
        stored: true,
        allow_disk_fallthrough: false,
    }
}

fn unmanaged() -> OpenCall {
    OpenCall {
        path: Some(r"\??\C:\other\b.txt".to_string()),
        hit: None,
        ours: false,
        ..managed(true, GENERIC_READ, 1)
    }
}

fn reply(fh: u64, size: u64) -> OpenReply {
    OpenReply { fh, size, is_dir: false }
}

fn finished(step: CallStep) -> (i32, Option<u64>, Option<u64>, bool) {
    match step {
        CallStep::Finish { status, information, handle, rooted } => {
            (status, information, handle, rooted)
        }
        _ => panic!("the call is not answered"),
    }
}

#[test]
fn a_read_is_served_by_the_director() {
    let mut w = World::new();
    let (mut run, step) = w.begin(managed(true, GENERIC_READ, 1));
    assert!(matches!(step, CallStep::OpenRead { root: 4, vpath } if vpath == VPATH));
    let step = w.advance(&mut run, CallEvent::Opened(Ok(reply(7, 100))));
    let (status, information, handle, rooted) = finished(step);
    assert_eq!(status, STATUS_SUCCESS);
    assert_eq!(information, Some(FILE_OPENED));
    assert!(rooted);
    let h = handle.unwrap();
    assert!(is_fuse_synth(h));
    assert_eq!(lookup(&w.fuse, h), Some((7, 100, false, 0, false)));
    assert_eq!(tracked_path(&w.tables, h).as_deref(), Some(PATH));
    assert_eq!(outcome_count(&w.stats, OpenOutcome::Routed), 1);
}

#[test]
fn a_conditional_create_asks_whether_the_file_was_there() {
    let mut w = World::new();
    let (mut run, step) = w.begin(managed(true, GENERIC_WRITE, 3));
    assert!(matches!(step, CallStep::Getattr { root: 4, vpath } if vpath == VPATH));
    let attr = Attr { found: false, is_dir: false, size: 0, mtime: 0 };
    let step = w.advance(&mut run, CallEvent::Attr(Ok(attr)));
    match step {
        CallStep::OpenWrite { root, vpath, flags } => {
            let OpenFlags { write: _, create, excl, trunc } = flags;
            assert!(create && !excl && !trunc);
            assert_eq!((root, vpath.as_str()), (4, VPATH));
        }
        _ => panic!("the director is not asked to open"),
    }
    let (status, information, _, rooted) =
        finished(w.advance(&mut run, CallEvent::Opened(Ok(reply(9, 0)))));
    assert_eq!(status, STATUS_SUCCESS);
    assert_eq!(information, Some(FILE_CREATED));
    assert!(rooted);
}

#[test]
fn an_open_that_cannot_create_ignores_the_disposition() {
    let mut w = World::new();
    let (_, step) = w.begin(managed(false, GENERIC_READ, 5));
    assert!(matches!(step, CallStep::OpenRead { root: 4, vpath } if vpath == VPATH));
}

#[test]
fn a_root_itself_is_asked_about_by_its_own_name() {
    let mut w = World::new();
    let root = || Some((7, String::new()));
    let (_, step) = w.begin(OpenCall { hit: root(), ..managed(true, GENERIC_READ, 1) });
    assert!(matches!(step, CallStep::OpenRead { root: 7, vpath } if vpath == "."));
    let (_, step) = w.begin(OpenCall {
        hit: root(),
        options: FILE_DIRECTORY_FILE,
        ..managed(true, GENERIC_READ, 3)
    });
    assert!(matches!(step, CallStep::Mkdir { root: 7, vpath, .. } if vpath == "."));
}

#[test]
fn a_missing_file_is_refused_and_never_looked_for_on_disk() {
    let mut w = World::new();
    let (mut run, _) = w.begin(managed(true, GENERIC_READ, 1));
    let end = w.advance(&mut run, CallEvent::Opened(Err(RingStatus::NotFound)));
    assert_eq!(finished(end), (STATUS_OBJECT_NAME_NOT_FOUND, None, None, true));

    let (mut run, _) = w.begin(managed(true, GENERIC_WRITE, 2));
    let end = w.advance(&mut run, CallEvent::Opened(Err(RingStatus::NotFound)));
    assert_eq!(finished(end), (STATUS_OBJECT_PATH_NOT_FOUND, None, None, true));
}

#[test]
fn other_refusals_of_the_director_are_answered_too() {
    let mut w = World::new();
    let (mut run, _) = w.begin(managed(true, GENERIC_WRITE, 2));
    let end = w.advance(&mut run, CallEvent::Opened(Err(RingStatus::Exists)));
    assert_eq!(finished(end).0, STATUS_OBJECT_NAME_COLLISION);

    let (mut run, _) = w.begin(managed(true, GENERIC_READ, 1));
    let end = w.advance(&mut run, CallEvent::Opened(Err(RingStatus::IoError)));
    assert_eq!(finished(end).0, STATUS_UNSUCCESSFUL);
}

#[test]
fn a_write_falls_through_only_where_that_is_switched_on() {
    let mut w = World::new();
    let call = OpenCall { allow_disk_fallthrough: true, ..managed(true, GENERIC_WRITE, 4) };
    let (mut run, _) = w.begin(call);
    let step = w.advance(&mut run, CallEvent::Opened(Err(RingStatus::NotFound)));
    assert!(matches!(step, CallStep::Decide));
    assert!(run.recorded);
    assert_eq!(outcome_count(&w.stats, OpenOutcome::FellThroughWriteFallback), 1);
    let step = w.advance(&mut run, CallEvent::Decided(Some(Decision::PassThrough)));
    assert!(matches!(step, CallStep::Real));
    assert_eq!(outcome_count(&w.stats, OpenOutcome::FellThroughPassthrough), 0);
}

#[test]
fn a_directory_is_made_by_the_director() {
    let mut w = World::new();
    let call = OpenCall { options: FILE_DIRECTORY_FILE, ..managed(true, GENERIC_READ, 2) };
    let (mut run, step) = w.begin(call);
    match step {
        CallStep::Mkdir { root, vpath, mode } => {
            assert_eq!((root, vpath.as_str(), mode), (4, VPATH, DIR_MODE));
        }
        _ => panic!("the director is not asked for the directory"),
    }
    let (status, information, handle, rooted) =
        finished(w.advance(&mut run, CallEvent::Made(Ok(()))));
    assert_eq!((status, information, rooted), (STATUS_SUCCESS, Some(FILE_CREATED), false));
    let h = handle.unwrap();
    assert_eq!(lookup(&w.fuse, h), Some((0, 0, true, 0, false)));
    assert_eq!(path_of_handle(&w.tables, h).as_deref(), Some(PATH));
}

#[test]
fn a_directory_that_is_there_is_opened_unless_it_had_to_be_new() {
    let there = Attr { found: true, is_dir: true, size: 0, mtime: 0 };
    for (disposition, expected) in [
        (2, (STATUS_OBJECT_NAME_COLLISION, None)),
        (3, (STATUS_SUCCESS, Some(FILE_OPENED))),
    ] {
        let mut w = World::new();
        let call =
            OpenCall { options: FILE_DIRECTORY_FILE, ..managed(true, GENERIC_READ, disposition) };
        let (mut run, _) = w.begin(call);
        let step = w.advance(&mut run, CallEvent::Made(Err(RingStatus::Exists)));
        assert!(matches!(step, CallStep::Getattr { root: 4, vpath } if vpath == VPATH));
        let end = finished(w.advance(&mut run, CallEvent::Attr(Ok(there))));
        assert_eq!((end.0, end.1), expected);
    }
}

#[test]
fn a_redirected_open_is_known_under_both_names() {
    let mut w = World::new();
    let call = OpenCall { hit: None, ..managed(true, GENERIC_READ, 1) };
    let (mut run, step) = w.begin(call);
    assert!(matches!(step, CallStep::Decide));
    let target = r"\??\D:\mods\a.esm".to_string();
    let decision = Decision::Redirect { target_nt: target.clone() };
    match w.advance(&mut run, CallEvent::Decided(Some(decision))) {
        CallStep::RealRedirected { target: t } => assert_eq!(t, target),
        _ => panic!("the open is not redirected"),
    }
    let event = CallEvent::Real {
        status: STATUS_SUCCESS,
        handle: Some(0x44),
        identity: Some(r"\game\data\a.esm".to_string()),
    };
    let end = finished(w.advance(&mut run, event));
    assert_eq!(end.0, STATUS_SUCCESS);
    assert!(!end.3);
    assert_eq!(identity_of(&w.tables, 0x44).as_deref(), Some(r"\game\data\a.esm"));
    assert_eq!(tracked_path(&w.tables, 0x44).as_deref(), Some(PATH));
    assert_eq!(outcome_count(&w.stats, OpenOutcome::FellThroughRedirect), 1);
}

#[test]
fn a_denied_open_is_not_found() {
    let mut w = World::new();
    let call = OpenCall { hit: None, ..managed(true, GENERIC_READ, 1) };
    let (mut run, _) = w.begin(call);
    let end = w.advance(&mut run, CallEvent::Decided(Some(Decision::Deny)));
    assert_eq!(finished(end), (STATUS_OBJECT_NAME_NOT_FOUND, None, None, false));
    assert_eq!(outcome_count(&w.stats, OpenOutcome::Denied), 1);
}

#[test]
fn an_unmanaged_open_goes_to_the_system_unchanged() {
    let mut w = World::new();
    let (mut run, step) = w.begin(unmanaged());
    assert!(matches!(step, CallStep::Decide));
    let step = w.advance(&mut run, CallEvent::Decided(None));
    assert!(matches!(step, CallStep::Real));
    let event = CallEvent::Real { status: STATUS_SUCCESS, handle: Some(0x10), identity: None };
    assert_eq!(finished(w.advance(&mut run, event)).0, STATUS_SUCCESS);
    assert_eq!(path_of_handle(&w.tables, 0x10).as_deref(), Some(r"\??\C:\other\b.txt"));
    assert_eq!(tracked_path(&w.tables, 0x10), None);
}

#[test]
fn a_name_under_a_synthetic_directory_is_made_absolute() {
    let mut w = World::new();
    let (mut run, _) = w.begin(OpenCall { synthetic_root: true, ..unmanaged() });
    match w.advance(&mut run, CallEvent::Decided(None)) {
        CallStep::RealAbsolute { path } => assert_eq!(path, r"\??\C:\other\b.txt"),
        _ => panic!("the name is not made absolute"),
    }
}

#[test]
fn a_failed_open_leaves_no_trace_in_the_tables() {
    let mut w = World::new();
    let (mut run, _) = w.begin(unmanaged());
    w.advance(&mut run, CallEvent::Decided(None));
    let event =
        CallEvent::Real { status: STATUS_UNSUCCESSFUL, handle: Some(0x10), identity: None };
    assert_eq!(finished(w.advance(&mut run, event)).0, STATUS_UNSUCCESSFUL);
    assert_eq!(path_of_handle(&w.tables, 0x10), None);
}

#[test]
fn the_shims_own_opens_go_straight_through() {
    let mut s = Stats::new(true);
    let (_, step) = create_hook(&mut s, managed(true, GENERIC_READ, 1), true, true);
    assert!(matches!(step, CallStep::Through));
}

#[test]
fn without_the_systems_function_an_open_fails() {
    let mut s = Stats::new(true);
    let (_, step) = create_hook(&mut s, managed(true, GENERIC_READ, 1), false, false);
    assert_eq!(finished(step), (STATUS_UNSUCCESSFUL, None, None, false));
}
