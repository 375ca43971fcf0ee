use vfs_shim::hookstats::{
    all_copy_ups, all_outcomes, all_overlay_fails, copy_up_count, enabled, hook_panic_count,
    hook_panics_total, note_copy_up, note_fill_end, note_fill_start, note_hook_panic,
    note_iocp_bind, note_open_outcome, note_open_sync, note_overlay_fail, note_overlay_ok,
    note_passthrough, note_read_completion, note_readdir, note_setinfo_noop, note_stat,
    note_synthetic_lock, note_trace, note_undecodable, note_unrouted_director_open,
    outcome_count, overlay_fail_count, snapshot, unrouted_director_opens, unrouted_open_label,
    CopyUp, Hook, OpenOutcome, OverlayFail, ReadDirSource, Snapshot, Stats, Timed, COPY_UPS,
    HOOKS, OUTCOME_PATHS_SHOWN, OVERLAY_FAILS, PATHS_MAX, TRACE_MAX,
};
use vfs_shim::report::{
    all_hooks, banner, format_outcome_paths, format_paths, hook_rows, interval_ms, render,
    render_async, render_copy_ups, render_fills, render_outcome, render_outcomes, render_overlay_fails,
    render_passthrough, render_readdirs, render_report, render_setinfo_noop, render_stats,
    render_synth_locks, render_trace, render_undecodable, RowFigures, TotalFigures,
};
use vfs_shim::tally::{sort_rows, Row, RowOrder, Tally};

fn tally(pairs: &[(&str, u64)]) -> Tally {
    Tally { rows: pairs.iter().map(|(k, n)| Row { key: k.to_string(), count: *n }).collect() }
}

fn total(seconds: &str, per_call: &str, share: &str) -> TotalFigures {
    TotalFigures {
        seconds: seconds.to_string(),
        per_call: per_call.to_string(),
        rooted_share: share.to_string(),
    }
}

#[test]
fn disabled_timer_records_nothing() {
    let mut s = Stats::new(false);
    let before = s.counts.calls[Hook::Create.index()];
    {
        let mut t = Timed::new(&s, Hook::Create, 100);
        t.mark_rooted();
        t.finish(&mut s, 900);
    }
    assert_eq!(s.counts.calls[Hook::Create.index()], before);
    assert!(!enabled(&s));
}

#[test]
fn a_timer_records_calls_time_and_the_slowest() {
    let mut s = Stats::new(true);
    Timed::new(&s, Hook::Read, 100).finish(&mut s, 150);
    let mut t = Timed::new(&s, Hook::Read, 1_000);
    t.mark_rooted();
    t.finish(&mut s, 2_001_000);
    let i = Hook::Read.index();
    assert_eq!(s.counts.calls[i], 2);
    assert_eq!(s.counts.nanos[i], 2_000_050);
    assert_eq!(s.counts.max_nanos[i], 2_000_000);
    assert_eq!(s.counts.slow[i], 1);
    assert_eq!(s.counts.rooted[i], 1);
}

#[test]
fn render_reports_nothing_when_no_calls() {
    let snap = Snapshot::empty();
    assert!(hook_rows(&snap).is_empty());
    let s = render(&snap, 42, &[], &total("0.000", "0.0", "0.0"));
    assert!(s.contains("hook stats"), "{s}");
    assert!(s.contains("TOTAL"), "{s}");
    assert!(!s.contains("NaN"), "{s}");
}

#[test]
fn the_table_of_entry_points_is_laid_out_in_columns() {
    let mut snap = Snapshot::empty();
    let i = Hook::Read.index();
    snap.calls[i] = 12;
    snap.rooted[i] = 3;
    snap.slow[i] = 2;
    let f = RowFigures {
        seconds: "1.500".to_string(),
        per_call: "125.0".to_string(),
        longest: "900.1".to_string(),
        slow_share: "0.1".to_string(),
    };
    let s = render(&snap, 42, &[f], &total("1.500", "125.0", "25.0"));
    assert_eq!(
        s,
        format!(
            "vfs-shim hook stats (pid 42)\n  {:<28} {:>7} calls {:>8.3}s {:>8.1} us/call  max {:>8.1}ms  >1ms {:>5} ({:>4.1}% min-share)\n  {:<28} {:>9} calls  {:>8.3}s  {:>7.1} us/call  rooted {:>7} ({:>4.1}%)\n",
            "NtReadFile", 12, 1.5, 125.0, 900.1, 2, 0.1, "TOTAL", 12, 1.5, 125.0, 3, 25.0
        )
    );
}

#[test]
fn busiest_path_is_reported_first() {
    let s = format_paths(&tally(&[
        ("\\??\\c:\\a.esm", 3),
        ("\\??\\c:\\loop.bsa", 9001),
        ("\\??\\c:\\b.esm", 3),
    ]));
    let lines: Vec<&str> = s.lines().filter(|l| l.starts_with("  ")).collect();
    assert!(lines[0].contains("loop.bsa"), "{s}");
    assert!(lines[0].contains("9001"), "{s}");
    assert!(lines[1].contains("a.esm"), "{s}");
    assert!(lines[2].contains("b.esm"), "{s}");
    assert!(s.contains("3 distinct"), "{s}");
    assert!(s.contains("9007 opens"), "{s}");
}

#[test]
fn no_paths_renders_nothing() {
    assert_eq!(format_paths(&Tally::new()), "");
}

#[test]
fn hook_names_cover_every_variant() {
    let hooks = all_hooks();
    assert_eq!(hooks.len(), HOOKS);
    assert_eq!(Hook::FlushBuffers.index(), HOOKS - 1);
    assert_eq!(hooks[Hook::SetInfo.index()].label(), "NtSetInformationFile");
    assert_eq!(hooks[Hook::Lock.index()].label(), "NtLockFile");
    assert!(hooks.iter().all(|h| !h.label().is_empty()));
    for (i, h) in hooks.iter().enumerate() {
        assert_eq!(h.index(), i);
    }
}

#[test]
fn synthetic_lock_section_names_the_path_and_says_the_lock_is_not_real() {
    let mut snap = Snapshot::empty();
    snap.synth_locks = tally(&[(
        &format!("{:<16} {}", "lock-exclusive", r"\??\c:\root\skyrimprefs.ini"),
        3,
    )]);
    let s = render_synth_locks(&snap);
    assert!(s.contains("skyrimprefs.ini"), "{s}");
    assert!(s.contains("3x"), "{s}");
    assert!(s.contains("lock-exclusive"), "{s}");
    assert!(s.contains("no lock is actually held"), "{s}");
    // The counter builds the same key.
    let mut stats = Stats::new(true);
    note_synthetic_lock(&mut stats, "lock-exclusive", Some(r"\??\c:\root\skyrimprefs.ini"));
    assert_eq!(stats.counts.synth_locks.rows[0].key, snap.synth_locks.rows[0].key);
}

#[test]
fn empty_synthetic_lock_section_renders_nothing() {
    assert_eq!(render_synth_locks(&Snapshot::empty()), "");
}

#[test]
fn banner_marks_the_report_as_a_snapshot_and_dates_it() {
    let b = banner("12.3");
    assert!(b.starts_with("SNAPSHOT at t+"), "{b}");
    assert!(b.contains("12.3"), "{b}");
    assert!(b.contains("no exit report exists"), "{b}");
    assert!(b.ends_with('\n'), "{b:?}");
}

#[test]
fn outcome_counters_are_free_when_disabled() {
    let mut s = Stats::new(false);
    let before = outcome_count(&s, OpenOutcome::Routed);
    note_open_outcome(&mut s, OpenOutcome::Routed, "a.esp");
    assert_eq!(outcome_count(&s, OpenOutcome::Routed), before);
}

#[test]
fn every_outcome_renders_with_a_distinct_label() {
    let mut labels: Vec<&str> = all_outcomes().iter().map(|o| o.label()).collect();
    let n = labels.len();
    labels.sort_unstable();
    labels.dedup();
    assert_eq!(labels.len(), n, "outcome labels must be distinct: {labels:?}");
}

#[test]
fn outcome_path_truncation_says_how_many_more() {
    let pairs: Vec<Row> = (0..OUTCOME_PATHS_SHOWN + 5)
        .map(|i| Row { key: format!("path{i}.esp"), count: 1 })
        .collect();
    let s = format_outcome_paths(&Tally { rows: pairs });
    assert!(s.contains("... and 5 more"), "{s}");
}

#[test]
fn no_outcome_paths_renders_nothing() {
    assert_eq!(format_outcome_paths(&Tally::new()), "");
}

#[test]
fn unrouted_director_opens_render_as_a_row_in_the_outcomes_section() {
    let mut snap = Snapshot::empty();
    snap.outcome_counts[OpenOutcome::Routed.index()] = 9;
    snap.unrouted_director_opens = 3;
    let s = render_outcomes(&snap);
    let label = unrouted_open_label();
    assert!(s.starts_with("\nunder-root open outcomes:\n"), "{s}");
    assert!(s.contains(&format!("  {label:<32} {:>8}\n", 3)), "{s}");
    assert!(
        !all_outcomes().iter().any(|o| o.label() == label),
        "the unrouted-open label collides with an outcome label"
    );
}

#[test]
fn no_unrouted_director_opens_renders_no_row() {
    let mut snap = Snapshot::empty();
    snap.outcome_counts[OpenOutcome::Routed.index()] = 1;
    assert!(!render_outcomes(&snap).contains(unrouted_open_label()));
}

#[test]
fn every_copy_up_outcome_renders_with_a_distinct_label() {
    let all = all_copy_ups();
    let mut labels: Vec<&str> = all.iter().map(|o| o.label()).collect();
    let n = labels.len();
    labels.sort_unstable();
    labels.dedup();
    assert_eq!(labels.len(), n, "copy-up labels must be distinct: {labels:?}");
    assert_eq!(all.len(), COPY_UPS);
    for (i, o) in all.iter().enumerate() {
        assert_eq!(o.index(), i, "{o:?} is listed at position {i}");
    }
    for o in all {
        let loud = o.label().starts_with("FAILED");
        assert_eq!(
            loud,
            matches!(
                o,
                CopyUp::DirectorRefused | CopyUp::ReadFailed | CopyUp::DestWriteFailed
            ),
            "{:?} is labelled {:?}",
            o,
            o.label()
        );
    }
}

#[test]
fn copy_up_counters_are_free_when_disabled() {
    let mut s = Stats::new(false);
    let before = copy_up_count(&s, CopyUp::ReadFailed);
    note_copy_up(&mut s, CopyUp::ReadFailed, 0, "data/foo.esp", 0);
    assert_eq!(copy_up_count(&s, CopyUp::ReadFailed), before);
}

#[test]
fn copy_up_rendering_groups_by_outcome_and_names_the_file() {
    let mut snap = Snapshot::empty();
    snap.copy_up_counts[CopyUp::Seeded.index()] = 2;
    snap.copy_up_counts[CopyUp::ReadFailed.index()] = 1;
    snap.copy_up_bytes = 3 * 1024 * 1024;
    snap.copy_ups = tally(&[
        (&format!("{:<26} root0/data/a.esp", CopyUp::Seeded.label()), 2),
        (&format!("{:<26} root1/saves/s.ess", CopyUp::ReadFailed.label()), 1),
    ]);
    let s = render_copy_ups(&snap);
    assert!(s.contains("copy-on-write copy-ups (3, 3.0 MiB seeded)"), "{s}");
    assert!(s.contains("FAILED: read"), "{s}");
    assert!(s.contains("root1/saves/s.ess"), "{s}");
    assert!(!s.contains("declined: reentrant"), "{s}");
}

#[test]
fn no_copy_ups_renders_nothing() {
    assert_eq!(render_copy_ups(&Snapshot::empty()), "");
}

#[test]
fn every_overlay_failure_renders_with_a_distinct_label() {
    let all = all_overlay_fails();
    let mut labels: Vec<&str> = all.iter().map(|o| o.label()).collect();
    let n = labels.len();
    labels.sort_unstable();
    labels.dedup();
    assert_eq!(labels.len(), n, "overlay-failure labels must be distinct: {labels:?}");
    assert_eq!(all.len(), OVERLAY_FAILS);
    for (i, o) in all.into_iter().enumerate() {
        assert_eq!(o.index(), i, "{o:?} is listed at position {i}");
    }
}

#[test]
fn overlay_successes_render_so_an_absent_section_means_nothing_happened() {
    let mut snap = Snapshot::empty();
    snap.overlay_fail_counts[OverlayFail::Succeeded.index()] = 4;
    let s = render_overlay_fails(&snap);
    assert!(s.contains("succeeded"), "{s}");
    assert!(s.contains("shim-local overlay failures (0)"), "{s}");
    assert_eq!(render_overlay_fails(&Snapshot::empty()), "");
}

#[test]
fn overlay_failure_rendering_names_the_operation_and_the_path() {
    let mut snap = Snapshot::empty();
    snap.overlay_fail_counts[OverlayFail::EnsureParent.index()] = 2;
    snap.overlay_fails =
        tally(&[(&format!("{:<26} root0/data/x.ini", OverlayFail::EnsureParent.label()), 2)]);
    let s = render_overlay_fails(&snap);
    assert!(s.contains("shim-local overlay failures (2)"), "{s}");
    assert!(s.contains("FAILED: overlay mkdir"), "{s}");
    assert!(s.contains("root0/data/x.ini"), "{s}");
    assert!(!s.contains("write whiteout"), "{s}");
}

#[test]
fn no_overlay_failures_renders_nothing() {
    assert_eq!(render_overlay_fails(&Snapshot::empty()), "");
}

#[test]
fn the_seeded_size_is_written_as_floating_point_would() {
    // One decimal, rounded as the nearest double is.
    let mut sizes: Vec<u64> = vec![
        0,
        1,
        52428,
        52429,
        157286,
        157287,
        1 << 20,
        (1 << 20) + 52428,
        3 * (1 << 20) / 4,
        1 << 53,
        (1 << 53) + 1,
        (1 << 53) + (1 << 18),
        u64::MAX,
        u64::MAX - 1024,
        9007199254740993,
        1311768467463790320,
    ];
    // Ties of the first decimal: odd multiples of a twentieth that binary can hold.
    for k in 0..64u64 {
        sizes.push(k * (1 << 18) + (1 << 17));
        sizes.push(k * 52429 + 7);
        sizes.push((1 << 60) + k * 104857);
    }
    for bytes in sizes {
        let mut snap = Snapshot::empty();
        snap.copy_up_counts[0] = 1;
        snap.copy_up_bytes = bytes;
        let want = format!("(1, {:.1} MiB seeded)", bytes as f64 / (1024.0 * 1024.0));
        let s = render_copy_ups(&snap);
        assert!(s.contains(&want), "{bytes}: {want} not in {s}");
    }
}

#[test]
fn switched_off_counters_stay_as_they_are() {
    let mut s = Stats::new(false);
    note_open_sync(&mut s, true);
    note_read_completion(&mut s, true, true);
    note_fill_start(&mut s);
    note_fill_end(&mut s, 1, 1, true);
    note_setinfo_noop(&mut s, 4);
    note_synthetic_lock(&mut s, "lock", None);
    note_iocp_bind(&mut s);
    note_passthrough(&mut s, "p");
    note_undecodable(&mut s, Some("n"));
    note_trace(&mut s, "open", "p", "r");
    note_stat(&mut s, "p", "found");
    note_readdir(&mut s, "d", None, 1, ReadDirSource::Os);
    note_unrouted_director_open(&mut s);
    note_overlay_ok(&mut s);
    note_overlay_fail(&mut s, OverlayFail::Rename, 0, "v");
    let snap = snapshot(&s);
    let t = render_report(&snap, "0.0", "", "0.0", "0.0");
    assert_eq!(t, banner("0.0"));
    assert_eq!(unrouted_director_opens(&s), 0);
}

#[test]
fn switched_on_counters_reach_the_report() {
    let mut s = Stats::new(true);
    note_open_sync(&mut s, true);
    note_open_sync(&mut s, false);
    note_read_completion(&mut s, true, false);
    note_read_completion(&mut s, false, true);
    note_read_completion(&mut s, false, false);
    note_fill_start(&mut s);
    note_fill_end(&mut s, 4096, 10, true);
    note_fill_start(&mut s);
    note_fill_end(&mut s, 0, 20, false);
    note_setinfo_noop(&mut s, 4);
    note_setinfo_noop(&mut s, 4);
    note_iocp_bind(&mut s);
    note_passthrough(&mut s, "pass.dll");
    note_undecodable(&mut s, Some("odd-name"));
    note_undecodable(&mut s, None);
    note_trace(&mut s, "open", "traced.esm", "ok");
    note_stat(&mut s, "stat.esm", "found");
    note_readdir(&mut s, r"\??\C:\dir", Some("*.esp"), 7, ReadDirSource::Director);
    note_unrouted_director_open(&mut s);
    note_open_outcome(&mut s, OpenOutcome::Routed, "routed.esp");
    note_open_outcome(&mut s, OpenOutcome::Denied, "denied.esp");
    note_copy_up(&mut s, CopyUp::Seeded, 1, "data/a.esp", 2 << 20);
    note_overlay_ok(&mut s);
    note_overlay_fail(&mut s, OverlayFail::Whiteout, 0, "data/b.esp");
    let snap = snapshot(&s);
    assert_eq!((snap.sync_opens, snap.async_opens), (1, 1));
    assert_eq!((snap.apc_reads, snap.event_reads, snap.bare_reads), (1, 1, 1));
    assert_eq!((snap.fills_started, snap.fills_completed, snap.fills_failed), (2, 2, 1));
    assert_eq!((snap.fill_bytes, snap.fill_nanos, snap.fill_max_nanos), (4096, 30, 20));
    assert_eq!(snap.setinfo_noop[0].count, 2);
    assert!(render_async(&snap).contains('1'));
    assert!(render_fills(&snap, "0.0", "0.0").contains("0.0"));
    assert!(render_setinfo_noop(&snap).contains("2"));
    assert!(render_passthrough(&snap).contains("pass.dll"));
    assert!(render_undecodable(&snap).contains("odd-name"));
    assert!(render_trace(&snap).contains("traced.esm"));
    assert!(render_stats(&snap).contains("stat.esm"));
    assert!(render_readdirs(&snap).contains(r"\??\c:\dir"));
    assert!(render_outcome(OpenOutcome::Denied, &snap).contains("denied.esp"));
    assert!(render_copy_ups(&snap).contains("2.0 MiB"));
    assert_eq!(overlay_fail_count(&s, OverlayFail::Whiteout), 1);
    let t = render_report(&snap, "1.0", "TABLE\n", "0.0", "0.0");
    assert!(t.starts_with(&(banner("1.0") + "TABLE\n")), "{t}");
    for part in ["routed.esp", "pass.dll", "traced.esm", "stat.esm", "root1/data/a.esp", "root0/data/b.esp"] {
        assert!(t.contains(part), "{part} missing in {t}");
    }
}

#[test]
fn caught_panics_are_counted_even_when_switched_off() {
    let mut s = Stats::new(false);
    note_hook_panic(&mut s, "NtReadFile");
    note_hook_panic(&mut s, "NtReadFile");
    note_hook_panic(&mut s, "NtClose");
    assert_eq!(hook_panic_count(&s, "NtReadFile"), 2);
    assert_eq!(hook_panic_count(&s, "NtClose"), 1);
    assert_eq!(hook_panic_count(&s, "NtOpenFile"), 0);
    assert_eq!(hook_panics_total(&s), 3);
}

#[test]
fn tables_of_paths_are_bounded_but_keep_counting_what_they_know() {
    let mut s = Stats::new(true);
    for i in 0..PATHS_MAX + 3 {
        note_passthrough(&mut s, &format!("p{i}"));
    }
    note_passthrough(&mut s, "p0");
    assert_eq!(s.counts.passthrough.rows.len(), PATHS_MAX);
    assert_eq!(s.counts.passthrough.count("p0"), 2);
    assert_eq!(s.counts.passthrough.count(&format!("p{}", PATHS_MAX + 1)), 0);
    for i in 0..TRACE_MAX + 2 {
        note_trace(&mut s, "open", &format!("t{i}"), "ok");
    }
    assert_eq!(s.counts.trace.len(), TRACE_MAX);
}

#[test]
fn rows_are_sorted_by_key_or_by_count() {
    let t = tally(&[("b", 1), ("a", 1), ("c", 5)]);
    let keys = |rows: Vec<Row>| rows.into_iter().map(|r| r.key).collect::<Vec<_>>();
    assert_eq!(keys(sort_rows(RowOrder::ByKey, &t.rows)), ["a", "b", "c"]);
    assert_eq!(keys(sort_rows(RowOrder::BusiestFirst, &t.rows)), ["c", "a", "b"]);
}

#[test]
fn reports_come_at_the_set_interval() {
    assert_eq!(interval_ms(None), 250);
    assert_eq!(interval_ms(Some(10)), 10);
}
