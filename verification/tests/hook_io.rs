use vfs_shim::fuse_synth::{
    close_fuse, lookup, open_fuse, open_fuse_at_ex, set_position, FuseTable,
};
use vfs_shim::hook::io::{
    explicit_offset, flush_hook, lock_hook, open_synth, read_answer, read_hook, unlock_hook,
    write_answer, write_hook, IoAnswer, IoStep,
};
use vfs_shim::hook::tables::{record_path, HandleTables};
use vfs_shim::hookstats::Stats;
use vfs_shim::ntdef::{
    STATUS_END_OF_FILE, STATUS_INVALID_HANDLE, STATUS_SUCCESS, STATUS_UNSUCCESSFUL,
};

const REAL: u64 = 0x44;

fn done(status: i32, information: Option<u64>) -> IoStep {
    IoStep::Done(IoAnswer { status, information, signal: false })
}

#[test]
fn reads_follow_each_other_to_the_end() {
    let mut s = Stats::new(true);
    let mut t = FuseTable::new();
    let h = open_fuse(&mut t, 5, 100, false);
    assert_eq!(
        read_hook(&mut s, &t, h, false, true, None, 60, true),
        IoStep::Transfer { fh: 5, offset: 0, len: 60 }
    );
    assert_eq!(
        read_answer(&mut t, h, 0, None, Some(60)),
        IoAnswer { status: STATUS_SUCCESS, information: Some(60), signal: true }
    );
    assert_eq!(
        read_hook(&mut s, &t, h, false, false, None, 60, true),
        IoStep::Transfer { fh: 5, offset: 60, len: 40 }
    );
    read_answer(&mut t, h, 60, None, Some(40));
    assert_eq!(
        read_hook(&mut s, &t, h, true, false, None, 60, true),
        done(STATUS_END_OF_FILE, Some(0))
    );
    assert_eq!(
        (s.counts.event_reads, s.counts.bare_reads, s.counts.apc_reads),
        (1, 1, 1)
    );
}

#[test]
fn an_explicit_offset_does_not_move_the_position() {
    let mut s = Stats::new(true);
    let mut t = FuseTable::new();
    let h = open_fuse(&mut t, 5, 100, false);
    set_position(&mut t, h, 10);
    assert_eq!(explicit_offset(Some(30)), Some(30));
    assert_eq!(explicit_offset(Some(-1)), None);
    assert_eq!(explicit_offset(None), None);
    assert_eq!(
        read_hook(&mut s, &t, h, false, false, Some(30), 5, true),
        IoStep::Transfer { fh: 5, offset: 30, len: 5 }
    );
    read_answer(&mut t, h, 30, Some(30), Some(5));
    assert_eq!(lookup(&t, h), Some((5, 100, false, 10, false)));
}

#[test]
fn a_write_behind_the_end_grows_the_file() {
    let mut s = Stats::new(true);
    let mut t = FuseTable::new();
    let h = open_fuse(&mut t, 5, 100, false);
    assert_eq!(
        write_hook(&mut s, &t, h, false, false, Some(90), 20, true),
        IoStep::Transfer { fh: 5, offset: 90, len: 20 }
    );
    assert_eq!(
        write_answer(&mut t, h, 90, Some(90), Some(20)).information,
        Some(20)
    );
    assert_eq!(lookup(&t, h), Some((5, 110, false, 0, false)));
    write_hook(&mut s, &t, h, false, false, None, 4, true);
    write_answer(&mut t, h, 0, None, Some(4));
    assert_eq!(lookup(&t, h), Some((5, 110, false, 4, false)));
}

#[test]
fn appends_go_to_the_end_wherever_they_are_asked_for() {
    let mut s = Stats::new(true);
    let mut t = FuseTable::new();
    let h = open_fuse_at_ex(&mut t, 5, 100, false, None, true);
    for (offset, at) in [(Some(0), 100), (None, 110)] {
        assert_eq!(
            write_hook(&mut s, &t, h, false, false, offset, 10, true),
            IoStep::Transfer { fh: 5, offset: at, len: 10 }
        );
        write_answer(&mut t, h, at, offset, Some(10));
    }
    assert_eq!(lookup(&t, h).map(|e| e.1), Some(120));
}

#[test]
fn transfers_that_fail_or_move_nothing() {
    let mut s = Stats::new(true);
    let mut t = FuseTable::new();
    let h = open_fuse(&mut t, 5, 100, false);
    assert_eq!(
        read_hook(&mut s, &t, h, false, false, None, 0, true),
        IoStep::Nothing { offset: 0 }
    );
    assert_eq!(
        write_hook(&mut s, &t, h, false, false, None, 4, false),
        IoStep::Nothing { offset: 0 }
    );
    assert!(read_answer(&mut t, h, 0, None, None).status < 0);
    assert!(write_answer(&mut t, h, 0, None, None).status < 0);
    assert_eq!(lookup(&t, h), Some((5, 100, false, 0, false)));
    assert_eq!(
        read_hook(&mut s, &t, h + 1, false, false, None, 4, true),
        done(STATUS_UNSUCCESSFUL, None)
    );
    assert_eq!(read_hook(&mut s, &t, REAL, false, false, None, 4, true), IoStep::Real);
    assert_eq!(write_hook(&mut s, &t, REAL, false, false, None, 4, true), IoStep::Real);
}

#[test]
fn a_transfer_through_a_handle_closed_meanwhile_is_answered() {
    let mut s = Stats::new(true);
    let mut t = FuseTable::new();
    let other = open_fuse(&mut t, 6, 10, false);
    let h = open_fuse(&mut t, 5, 100, false);
    assert_eq!(
        write_hook(&mut s, &t, h, false, false, None, 4, true),
        IoStep::Transfer { fh: 5, offset: 0, len: 4 }
    );
    close_fuse(&mut t, h);
    for n in [0, 4] {
        let done = IoAnswer { status: STATUS_SUCCESS, information: Some(n), signal: true };
        assert_eq!(write_answer(&mut t, h, 0, None, Some(n)), done);
        assert_eq!(read_answer(&mut t, h, 0, None, Some(n)), done);
    }
    let failed = IoAnswer { status: STATUS_UNSUCCESSFUL, information: Some(0), signal: false };
    assert_eq!(write_answer(&mut t, h, 0, None, None), failed);
    assert_eq!(read_answer(&mut t, h, 0, None, None), failed);
    assert_eq!(lookup(&t, h), None);
    assert_eq!(lookup(&t, other), Some((6, 10, false, 0, false)));
}

#[test]
fn locks_are_granted_on_open_synthetic_handles_only() {
    let mut s = Stats::new(true);
    let mut t = FuseTable::new();
    let mut tables = HandleTables::new();
    let h = open_fuse(&mut t, 5, 100, false);
    record_path(&mut tables, Some(h), Some(r"\??\C:\r\p.ini"), true, STATUS_SUCCESS);
    assert!(open_synth(&t, h));
    assert!(!open_synth(&t, h + 1));
    assert!(!open_synth(&t, REAL));
    let granted = |step: IoStep| matches!(step, IoStep::Done(a) if a.status == STATUS_SUCCESS);
    assert!(granted(lock_hook(&mut s, &t, &tables, h, false, true, true)));
    assert!(granted(unlock_hook(&mut s, &t, &tables, h)));
    assert!(granted(flush_hook(&mut s, &t, &tables, h)));
    assert_eq!(s.counts.synth_locks.rows.len(), 3);
    assert!(s.counts.synth_locks.rows[0].key.starts_with("lock-exclusive"));
    assert!(s.counts.synth_locks.rows[0].key.ends_with(r"\??\c:\r\p.ini"));
    assert_eq!(
        lock_hook(&mut s, &t, &tables, h + 1, false, false, false),
        done(STATUS_INVALID_HANDLE, None)
    );
    assert_eq!(unlock_hook(&mut s, &t, &tables, REAL), IoStep::Real);
    assert_eq!(flush_hook(&mut s, &t, &tables, REAL), IoStep::Real);
}
