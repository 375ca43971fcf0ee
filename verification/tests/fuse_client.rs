use vfs_shim::fuse_client::{
    bulk_take, heartbeat_result, merge_extra_roots, normalize_path_for_root, settle, stage_root,
    strip_nt_device, try_init_from_env, AttachEnv, FuseClient, FuseInitError,
    HeartbeatReply, OpenFlags, ReadPiece, ReadReply, RingReply, RingRequest, RingStatus, RunStep,
    WritePiece, BULK_THRESHOLD,
};

fn client(payload_cap: u32, slot_count: u32, arena_len: u64) -> FuseClient {
    FuseClient { payload_cap, arena_len, slot_count, roots: vec![(0, r"C:\g".to_string())] }
}

fn resolve(root: u32, comps: &[&str], stream: Option<&str>) -> Option<(u32, String)> {
    let comps = comps.iter().map(|c| c.to_string()).collect();
    FuseClient::vpath_under_root(Some((root, comps)), stream)
}

#[test]
fn an_alternate_data_stream_keeps_its_suffix_in_the_vpath() {
    assert_eq!(
        resolve(0, &["data", "a.esp"], Some(":probe")),
        Some((0, "data/a.esp:probe".to_string()))
    );
    assert_eq!(resolve(0, &["data", "a.esp"], None), Some((0, "data/a.esp".to_string())));
}

#[test]
fn a_second_root_routes_to_its_own_id() {
    assert_eq!(resolve(0, &["data", "a.esm"], None), Some((0, "data/a.esm".to_string())));
    assert_eq!(resolve(1, &["saves", "a.ess"], None), Some((1, "saves/a.ess".to_string())));
    assert_eq!(FuseClient::vpath_under_root(None, None), None);
}

#[test]
fn the_root_itself_resolves_to_an_empty_remainder() {
    assert_eq!(resolve(0, &[], None), Some((0, String::new())));
    assert_eq!(resolve(1, &[], None), Some((1, String::new())));
}

#[test]
fn extra_roots_parse_additively_over_root_zero() {
    let game = r"C:\Games\Skyrim";
    assert_eq!(merge_extra_roots(game, None), vec![(0, game.to_string())]);
    assert_eq!(
        merge_extra_roots(game, Some(r" 1 = C:\Docs\Skyrim ; ")),
        vec![(0, game.to_string()), (1, r"C:\Docs\Skyrim".to_string())]
    );
    assert_eq!(
        merge_extra_roots(game, Some(r"0=C:\Other")),
        vec![(0, r"C:\Other".to_string())]
    );
    assert_eq!(
        merge_extra_roots(game, Some(r"nope;2=;=C:\x;3=C:\Three")),
        vec![(0, game.to_string()), (3, r"C:\Three".to_string())]
    );
}

#[test]
fn the_staged_directory_is_an_alias_of_root_zero() {
    let c = FuseClient::connect(
        vec![(0, r"C:\g".to_string()), (1, r"C:\d".to_string())],
        Some(r"c:\stage".to_string()),
        1 << 20,
        8,
        0,
    )
    .unwrap_or_else(|_| unreachable!());
    assert_eq!(
        c.roots,
        vec![
            (0, r"C:\g".to_string()),
            (1, r"C:\d".to_string()),
            (0, r"c:\stage".to_string())
        ]
    );
    assert_eq!(
        FuseClient::connect(vec![], None, 1, 1, 0).err().as_deref(),
        Some("no managed root declared for the FUSE client")
    );
    assert_eq!(stage_root(Some(r"\??\C:\Stage/Dir")).as_deref(), Some(r"c:\stage\dir"));
    assert_eq!(stage_root(None), None);
    assert_eq!(stage_root(Some("")), None);
}

fn env() -> AttachEnv {
    AttachEnv {
        attached: false,
        forced_failure: None,
        section: Some("ring".to_string()),
        ring_bytes: None,
        payload_cap: None,
        arena_len: None,
        virtual_dir: Some(r"C:\g".to_string()),
        virtual_roots: None,
    }
}

#[test]
fn attaching_takes_its_settings_from_the_environment() {
    let plan = try_init_from_env(&env()).unwrap_or_else(|_| unreachable!());
    let plan = plan.unwrap_or_else(|| unreachable!());
    assert_eq!(plan.section, "ring");
    assert_eq!((plan.ring_bytes, plan.payload_cap, plan.arena_len), (2 << 20, 1 << 20, 0));
    assert_eq!(plan.roots, vec![(0, r"C:\g".to_string())]);
    let set = AttachEnv {
        ring_bytes: Some("4096".to_string()),
        payload_cap: Some("nonsense".to_string()),
        arena_len: Some("65536".to_string()),
        virtual_roots: Some(r"1=C:\d".to_string()),
        ..env()
    };
    let plan = try_init_from_env(&set).unwrap_or_else(|_| unreachable!());
    let plan = plan.unwrap_or_else(|| unreachable!());
    assert_eq!((plan.ring_bytes, plan.payload_cap, plan.arena_len), (4096, 1 << 20, 65536));
    assert_eq!(plan.roots.len(), 2);
    assert!(matches!(try_init_from_env(&AttachEnv { attached: true, ..env() }), Ok(None)));
}

#[test]
fn attaching_fails_where_nothing_is_named() {
    assert!(matches!(
        try_init_from_env(&AttachEnv { section: None, ..env() }),
        Err(FuseInitError::NotConfigured)
    ));
    match try_init_from_env(&AttachEnv { virtual_dir: None, ..env() }) {
        Err(FuseInitError::ConnectFailed(why)) => {
            assert_eq!(why, "VFS_VIRTUAL_DIR unset: the managed root has no default")
        }
        _ => panic!("there is no default root"),
    }
    match try_init_from_env(&AttachEnv { forced_failure: Some("X".to_string()), ..env() }) {
        Err(FuseInitError::ConnectFailed(why)) => assert_eq!(why, "forced failure via X"),
        _ => panic!("the failure was not forced"),
    }
}

#[test]
fn a_heartbeat_says_why_it_failed() {
    let ok = HeartbeatReply::Answered { success: true, status: 0 };
    assert_eq!(heartbeat_result(&ok), Ok(()));
    let bad = HeartbeatReply::Answered { success: false, status: -5 };
    assert_eq!(heartbeat_result(&bad), Err("HEARTBEAT status -5".to_string()));
    assert_eq!(
        heartbeat_result(&HeartbeatReply::SubmitFailed("full".to_string())),
        Err("HEARTBEAT: full".to_string())
    );
    assert_eq!(
        heartbeat_result(&HeartbeatReply::LockPoisoned),
        Err("ring lock poisoned".to_string())
    );
}

#[test]
fn replies_are_settled_once_for_all_requests() {
    assert_eq!(settle(RingReply::Answered(RingStatus::Success, Some(7))), Ok(7));
    assert_eq!(
        settle::<u32>(RingReply::Answered(RingStatus::Success, None)),
        Err(RingStatus::BadRequest)
    );
    assert_eq!(
        settle(RingReply::Answered(RingStatus::NotFound, Some(7))),
        Err(RingStatus::NotFound)
    );
    assert_eq!(settle::<u32>(RingReply::LockPoisoned), Err(RingStatus::IoError));
    assert_eq!(settle::<u32>(RingReply::SubmitFailed), Err(RingStatus::IoError));
}

#[test]
fn a_read_is_split_into_batches_and_put_together_again() {
    let file: Vec<u8> = (0..1000u32).map(|i| i as u8).collect();
    let c = client(8 + 100, 3, 0);
    let mut run = c.read_fragmented(50, 500);
    let mut batches = 0;
    let total = loop {
        let pieces = c.next_reads(&run);
        assert!(pieces.len() <= 3 && !pieces.is_empty());
        let replies: Vec<ReadReply> = pieces
            .iter()
            .map(|p| {
                assert!(!p.bulk);
                let from = p.offset as usize;
                ReadReply::Bytes(file[from..from + p.len as usize].to_vec())
            })
            .collect();
        batches += 1;
        match c.accept_reads(&mut run, &replies) {
            RunStep::More => (),
            RunStep::Done(n) => break n,
            RunStep::Failed(s) => panic!("{s:?}"),
        }
    };
    assert_eq!((batches, total), (2, 500));
    assert_eq!(run.data, file[50..550]);
}

#[test]
fn a_short_read_ends_where_the_file_does() {
    let c = client(8 + 100, 4, 0);
    let mut run = c.read_fragmented(0, 300);
    let replies = [
        ReadReply::Bytes(vec![1; 100]),
        ReadReply::Bytes(vec![2; 40]),
        ReadReply::Bytes(vec![3; 100]),
    ];
    assert_eq!(c.accept_reads(&mut run, &replies), RunStep::Done(140));
    assert_eq!(run.data.len(), 140);
}

#[test]
fn a_read_behind_the_end_gives_nothing() {
    let c = client(8 + 100, 4, 0);
    let mut run = c.read_fragmented(5000, 300);
    let replies: Vec<ReadReply> =
        c.next_reads(&run).iter().map(|_| ReadReply::Bytes(Vec::new())).collect();
    assert_eq!(replies.len(), 3);
    assert_eq!(c.accept_reads(&mut run, &replies), RunStep::Done(0));
    assert!(run.data.is_empty());
}

#[test]
fn a_refused_read_fails_the_run() {
    let c = client(8 + 100, 4, 0);
    for (reply, want) in [
        (ReadReply::Refused(RingStatus::NotFound), RingStatus::NotFound),
        (ReadReply::Undecodable, RingStatus::BadRequest),
        (ReadReply::ArenaFault, RingStatus::IoError),
    ] {
        let mut run = c.read_fragmented(0, 50);
        assert_eq!(c.accept_reads(&mut run, &[reply]), RunStep::Failed(want));
    }
}

#[test]
fn large_fragments_go_through_the_arena() {
    let c = client(1 << 20, 4, 4 << 20);
    assert_eq!(c.bulk_bank_bytes(), 1 << 20);
    let run = c.read_fragmented(0, 2 << 20);
    assert_eq!(
        c.next_reads(&run),
        vec![
            ReadPiece { offset: 0, len: 1 << 20, bulk: true },
            ReadPiece { offset: 1 << 20, len: 1 << 20, bulk: true },
        ]
    );
    let small = c.read_fragmented(0, (BULK_THRESHOLD - 1) as u64);
    assert!(!c.next_reads(&small)[0].bulk);
    assert_eq!(client(1 << 20, 1, 100).bulk_bank_bytes(), 262144);
    assert_eq!(bulk_take(10, 20), 10);
    assert_eq!(bulk_take(30, 20), 20);
}

#[test]
fn a_write_is_sent_piece_by_piece() {
    let c = client(24 + 10, 4, 0);
    let mut run = c.write(100, 25);
    assert_eq!(c.next_write(&run), Some(WritePiece { offset: 100, from: 0, len: 10 }));
    let ok = |n| RingReply::Answered(RingStatus::Success, Some(n));
    assert_eq!(c.accept_write(&mut run, ok(10)), RunStep::More);
    assert_eq!(c.accept_write(&mut run, ok(10)), RunStep::More);
    assert_eq!(c.next_write(&run), Some(WritePiece { offset: 120, from: 20, len: 5 }));
    assert_eq!(c.accept_write(&mut run, ok(5)), RunStep::Done(25));
    assert_eq!(c.next_write(&run), None);
    let mut run = c.write(0, 25);
    assert_eq!(c.accept_write(&mut run, ok(3)), RunStep::Done(3));
    let mut run = c.write(0, 25);
    assert_eq!(
        c.accept_write(&mut run, RingReply::Answered(RingStatus::ReadOnly, None)),
        RunStep::Failed(RingStatus::ReadOnly)
    );
}

#[test]
fn requests_carry_what_was_asked() {
    let c = client(1 << 20, 4, 0);
    assert!(matches!(c.heartbeat(), RingRequest::Heartbeat));
    assert!(matches!(c.getattr(1, "."), RingRequest::Getattr { root: 1, vpath } if vpath == "."));
    assert!(matches!(c.readdir(0, "a"), RingRequest::Readdir { root: 0, vpath } if vpath == "a"));
    assert!(matches!(
        c.open(0, "a"),
        RingRequest::Open { root: 0, flags, vpath }
            if vpath == "a" && !flags.write && !flags.create && !flags.excl && !flags.trunc
    ));
    let create = OpenFlags { write: false, create: true, excl: true, trunc: false };
    assert!(matches!(
        c.open_write(2, "a", create),
        RingRequest::Open { root: 2, flags, .. } if flags.write && flags.create && flags.excl
    ));
    assert!(matches!(c.delete(0, "a"), RingRequest::Delete { root: 0, vpath } if vpath == "a"));
    assert!(matches!(
        c.rename(0, "a", "b"),
        RingRequest::Rename { root: 0, from, to } if from == "a" && to == "b"
    ));
    assert!(matches!(
        c.mkdir(0, "a", 493),
        RingRequest::Mkdir { root: 0, mode: 493, vpath } if vpath == "a"
    ));
    assert!(matches!(c.truncate(7, 9), RingRequest::Setattr { fh: 7, size: 9 }));
    assert!(matches!(c.close(7), RingRequest::Close { fh: 7 }));
}

#[test]
fn device_prefixes_are_taken_off() {
    for p in [r"\??\C:\x", r"\\?\C:\x", r"C:\x"] {
        assert_eq!(strip_nt_device(p), r"C:\x");
    }
    assert_eq!(normalize_path_for_root(r"\??\C:\Games/Sky"), r"c:\games\sky");
}
