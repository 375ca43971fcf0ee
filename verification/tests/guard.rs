use std::cell::Cell;
use vfs_shim::guard::{
    contain_panic, in_hook_reenter, map_access, panic_line, panic_log_path, MapAccess,
    MapInitGuard, PanicPlace, ShimIoGuard, STATUS_HOOK_PANICKED,
};
use vfs_shim::hookstats::{hook_panic_count, hook_panics_total, Stats};
use vfs_shim::ntdef::{STATUS_ACCESS_DENIED, STATUS_SUCCESS, STATUS_UNSUCCESSFUL};

/// Raises its flag when its frame is left.
struct DropFlag<'a>(&'a Cell<bool>);

impl Drop for DropFlag<'_> {
    fn drop(&mut self) {
        self.0.set(true);
    }
}

/// A body that breaks off before it has an answer: what its caller sees of a panic.
fn panicking_body(reached: &mut u32, frame: &Cell<bool>) -> Option<i32> {
    let _frame = DropFlag(frame);
    *reached = 1;
    None
}

#[test]
fn a_panicking_hook_returns_a_failure_status_instead_of_aborting() {
    let mut s = Stats::new(false);
    let mut reached = 0u32;
    let outcome = panicking_body(&mut reached, &Cell::new(false));
    let st = contain_panic(&mut s, "NtTestPanic", outcome, STATUS_HOOK_PANICKED);
    assert_eq!(reached, 1, "the body must have run far enough to panic");
    assert_eq!(st, STATUS_UNSUCCESSFUL);
    assert!(st < 0, "NTSTATUS {st:#x} has no severity bits — a caller reads it as success");
}

#[test]
fn a_panicking_hook_does_not_run_its_callers_destructors() {
    let mut s = Stats::new(false);
    let caller_frame_dropped = Cell::new(false);
    let hook_frame_dropped = Cell::new(false);
    {
        let _caller = DropFlag(&caller_frame_dropped);
        let mut reached = 0u32;
        let outcome = panicking_body(&mut reached, &hook_frame_dropped);
        let st = contain_panic(&mut s, "NtTestPanic", outcome, STATUS_HOOK_PANICKED);
        assert_eq!(st, STATUS_UNSUCCESSFUL);
        assert!(!caller_frame_dropped.get(), "the caller frame's Drop ran");
        assert!(hook_frame_dropped.get(), "the hook body's own frame was not unwound");
    }
    assert!(
        caller_frame_dropped.get(),
        "the caller frame must still drop normally once it goes out of scope"
    );
}

/// Leaves the guard when its frame is left, by a return or by an unwind.
struct Held<'a>(&'a Cell<ShimIoGuard>);

impl Drop for Held<'_> {
    fn drop(&mut self) {
        let mut g = self.0.get();
        g.leave();
        self.0.set(g);
    }
}

fn enter<'a>(guard: &'a Cell<ShimIoGuard>) -> Option<Held<'a>> {
    let mut g = guard.get();
    let entered = g.enter();
    guard.set(g);
    if entered {
        Some(Held(guard))
    } else {
        None
    }
}

fn guarded_panicking_body(guard: &Cell<ShimIoGuard>) -> Option<i32> {
    let Some(_io) = enter(guard) else {
        return Some(STATUS_ACCESS_DENIED);
    };
    None
}

fn reentrancy_probe(guard: &Cell<ShimIoGuard>) -> i32 {
    if in_hook_reenter(&guard.get()) {
        STATUS_ACCESS_DENIED
    } else {
        STATUS_SUCCESS
    }
}

#[test]
fn a_caught_panic_leaves_no_reentrancy_state_held() {
    let mut s = Stats::new(false);
    let guard = Cell::new(ShimIoGuard::new());
    assert!(!in_hook_reenter(&guard.get()), "test thread started inside the guard");
    assert_eq!(reentrancy_probe(&guard), STATUS_SUCCESS);

    let outcome = guarded_panicking_body(&guard);
    assert_eq!(
        contain_panic(&mut s, "NtTestPanicUnderShimIo", outcome, STATUS_HOOK_PANICKED),
        STATUS_UNSUCCESSFUL
    );

    assert!(!in_hook_reenter(&guard.get()), "the guard stayed raised after the panic");
    assert_eq!(
        reentrancy_probe(&guard),
        STATUS_SUCCESS,
        "the next call on this thread took the reentrant fast path"
    );
    assert!(enter(&guard).is_some(), "no further shim-initiated I/O could be started");
}

#[test]
fn every_caught_panic_is_counted_under_its_own_entry_point() {
    let mut s = Stats::new(false);
    let before_total = hook_panics_total(&s);
    assert_eq!(hook_panic_count(&s, "NtTestCounted"), 0);
    assert_eq!(
        contain_panic(&mut s, "NtTestCounted", None, STATUS_HOOK_PANICKED),
        STATUS_UNSUCCESSFUL
    );
    assert_eq!(
        hook_panic_count(&s, "NtTestCounted"),
        1,
        "the panic was not attributed to the entry point it happened in"
    );
    assert!(hook_panics_total(&s) > before_total);
}

#[test]
fn a_panicking_bool_hook_reports_false_rather_than_a_status() {
    assert_ne!(STATUS_HOOK_PANICKED, 0, "the trap this test exists for is gone");
    let mut s = Stats::new(false);
    let r = contain_panic(&mut s, "TestPanicBool", None, 0);
    assert_eq!(r, 0, "a BOOL-returning hook must fail with FALSE");
}

#[test]
fn a_body_that_returns_is_answered_with_what_it_returned() {
    let mut s = Stats::new(false);
    assert_eq!(contain_panic(&mut s, "NtTestFine", Some(7), STATUS_HOOK_PANICKED), 7);
    assert_eq!(hook_panics_total(&s), 0);
}

#[test]
fn a_guard_is_entered_once() {
    let mut g = ShimIoGuard::new();
    assert!(g.enter());
    assert!(!g.enter());
    assert!(in_hook_reenter(&g));
    g.leave();
    assert!(!in_hook_reenter(&g));
    g.leave();
    assert_eq!(g.depth, 0);
}

#[test]
fn the_map_of_roots_is_not_built_from_within_its_own_building() {
    let mut g = MapInitGuard::new();
    assert_eq!(map_access(false, &mut g), MapAccess::Build);
    assert_eq!(map_access(false, &mut g), MapAccess::NotReady);
    assert_eq!(map_access(true, &mut g), MapAccess::Ready);
    g.leave();
    assert_eq!(map_access(false, &mut g), MapAccess::Build);
}

#[test]
fn a_panic_always_has_a_file_to_be_recorded_in() {
    assert_eq!(panic_log_path(Some(r"D:\p.log"), Some(r"D:\state")), r"D:\p.log");
    assert_eq!(panic_log_path(None, Some(r"D:\state")), r"D:\state\shim-panic.log");
    assert_eq!(
        panic_log_path(None, None),
        r"C:\tmp\skyrim-data\vfs-state\shim-panic.log"
    );
}

#[test]
fn a_panic_record_names_process_thread_place_and_message() {
    let place = Some(PanicPlace { file: "src/hook.rs".to_string(), line: 12, column: 5 });
    assert_eq!(
        panic_line(42, "ThreadId(3)", &place, Some("boom")),
        "pid=42 tid=ThreadId(3) at src/hook.rs:12:5\n  boom\n"
    );
    assert_eq!(
        panic_line(42, "ThreadId(3)", &None, None),
        "pid=42 tid=ThreadId(3) at <unknown location>\n  <non-string payload>\n"
    );
}
