use vfs_shim::inject::{
    child_launch, child_preinit_redirects, cpiw_hook, inject_child, inject_child_dual_layer,
    inject_dll, moved_whole, payload_cfg_path_for_pid, read_u32, ready_event_name, release_spin,
    self_dll_path, sentinel_address, wait_ready, wide, ChildPrep, ChildStep, DualEvent, DualStep,
    LoadStep, CREATE_SUSPENDED,
};
use vfs_shim::payload_abi::{EarlyOwned, PayloadConfig, RedirectEntry};

fn terminated(s: &str) -> Vec<u16> {
    s.encode_utf16().chain([0]).collect()
}

#[test]
fn parent_and_child_agree_on_names() {
    assert_eq!(wide("aé\u{1F600}"), terminated("aé\u{1F600}"));
    assert_eq!(ready_event_name(4096), terminated(r"Local\vfs_shim_ready_4096"));
    assert_eq!(
        payload_cfg_path_for_pid(r"C:\Temp\", 17),
        r"C:\Temp\vfs_payload_cfg_17.txt"
    );
    assert_eq!(payload_cfg_path_for_pid(r"C:\Temp", 17), r"C:\Temp\vfs_payload_cfg_17.txt");
}

#[test]
fn at_most_four_redirects_are_handed_on() {
    let rows: Vec<(String, String, u64)> =
        (0..6).map(|i| (format!("d{i}.dll"), format!("b{i}"), i)).collect();
    assert_eq!(child_preinit_redirects(&rows), rows[..4]);
    assert_eq!(child_preinit_redirects(&rows[..2]), rows[..2]);
}

#[test]
fn the_own_module_path_is_read_whole_or_not_at_all() {
    let mut buf: Vec<u16> = r"C:\s.dll".encode_utf16().collect();
    let n = buf.len() as u32;
    buf.push(0);
    assert_eq!(self_dll_path(true, &buf, n).as_deref(), Some(r"C:\s.dll"));
    assert_eq!(self_dll_path(true, &buf, n + 1), None);
    assert_eq!(self_dll_path(true, &buf, 0), None);
    assert_eq!(self_dll_path(false, &buf, n), None);
}

#[test]
fn words_of_another_process_are_read_whole() {
    assert_eq!(read_u32(true, 4, &[0xde, 0xc0, 0, 0]), Some(0xc0de));
    assert_eq!(read_u32(true, 3, &[0xde, 0xc0, 0, 0]), None);
    assert_eq!(read_u32(false, 4, &[0xde, 0xc0, 0, 0]), None);
    assert!(moved_whole(true, 9, 9));
    assert!(!moved_whole(true, 8, 9));
    assert_eq!(release_spin(0), None);
    assert_eq!(release_spin(0x1000), Some(vec![1, 0, 0, 0]));
    assert_eq!(sentinel_address(0x1000), 0x101c);
}

#[test]
fn loading_a_library_stops_at_the_first_failure() {
    let steps = [
        LoadStep::Allocate,
        LoadStep::Write,
        LoadStep::FindModule,
        LoadStep::FindLoader,
        LoadStep::Start,
    ];
    for (i, s) in steps.iter().enumerate() {
        let next = if i + 1 < steps.len() { steps[i + 1] } else { LoadStep::Wait };
        assert_eq!(inject_dll(*s, true), next);
        assert_eq!(inject_dll(*s, false), LoadStep::Over(false));
    }
    assert_eq!(inject_dll(LoadStep::Wait, false), LoadStep::Over(true));
}

/// Runs the preparation with both layers; `fails` names the step that fails.
fn dual(fails: Option<DualStep>) -> (Vec<DualStep>, bool) {
    let mut step = DualStep::Payload;
    let mut taken = Vec::new();
    loop {
        if let DualStep::Over(r) = step {
            return (taken, r);
        }
        taken.push(step);
        let failed = Some(step) == fails;
        let event = match step {
            DualStep::Sentinel => DualEvent::Polled {
                word: if failed { Some(1) } else { Some(0xc0de) },
                expired: failed,
            },
            _ if failed => DualEvent::Failed,
            _ => DualEvent::Done,
        };
        step = inject_child_dual_layer(step, event);
    }
}

#[test]
fn both_layers_are_put_in_place_in_order() {
    assert_eq!(
        dual(None),
        (
            vec![
                DualStep::Payload,
                DualStep::Arm,
                DualStep::WriteCfg,
                DualStep::Resume,
                DualStep::Sentinel,
                DualStep::Load,
                DualStep::Ready,
                DualStep::Open,
                DualStep::Clean(true),
            ],
            true
        )
    );
    let waiting = DualEvent::Polled { word: None, expired: false };
    assert_eq!(inject_child_dual_layer(DualStep::Sentinel, waiting), DualStep::Sentinel);
}

#[test]
fn a_child_is_never_left_waiting() {
    for s in [DualStep::Payload, DualStep::Arm] {
        let (taken, r) = dual(Some(s));
        assert!(!r);
        assert_eq!(taken.last(), Some(&s));
    }
    for s in [DualStep::WriteCfg, DualStep::Resume] {
        let (taken, r) = dual(Some(s));
        assert!(!r);
        assert_eq!(taken.last(), Some(&DualStep::OpenOnly));
    }
    for s in [DualStep::Sentinel, DualStep::Load, DualStep::Ready] {
        let (taken, r) = dual(Some(s));
        assert!(!r);
        assert_eq!(taken[taken.len() - 2..], [DualStep::OpenAndClean, DualStep::Clean(false)]);
    }
    let (taken, r) = dual(Some(DualStep::Open));
    assert!(!r);
    assert_eq!(taken.last(), Some(&DualStep::Clean(false)));
}

#[test]
fn the_plain_way_comes_after_both_layers() {
    assert_eq!(inject_child(ChildPrep::Dual, true), ChildPrep::Over(true));
    assert_eq!(inject_child(ChildPrep::Dual, false), ChildPrep::Load);
    assert_eq!(inject_child(ChildPrep::Load, true), ChildPrep::Ready);
    assert_eq!(inject_child(ChildPrep::Load, false), ChildPrep::Over(false));
    assert_eq!(inject_child(ChildPrep::Ready, true), ChildPrep::Over(true));
    assert_eq!(inject_child(ChildPrep::Ready, false), ChildPrep::Over(false));
    assert!(wait_ready(true, 0));
    assert!(!wait_ready(true, 258));
    assert!(!wait_ready(false, 0));
}

#[test]
fn a_child_is_created_suspended_in_the_virtual_root() {
    let l = child_launch(0x10, true, Some(r"C:\g"));
    assert_eq!(l.flags, 0x10 | CREATE_SUSPENDED);
    assert_eq!(l.current_dir, Some(terminated(r"C:\g")));
    assert_eq!(child_launch(0, false, Some(r"C:\g")).current_dir, None);
    assert_eq!(child_launch(0, true, Some("")).current_dir, None);
    assert_eq!(child_launch(0, true, None).current_dir, None);
}

#[test]
fn a_child_ends_as_its_creator_asked() {
    assert_eq!(cpiw_hook(true, true, true, 0), [ChildStep::Inject, ChildStep::Resume]);
    assert_eq!(
        cpiw_hook(true, true, true, CREATE_SUSPENDED),
        [ChildStep::Inject, ChildStep::ReSuspend]
    );
    assert_eq!(cpiw_hook(true, true, false, 0), [ChildStep::Resume]);
    assert!(cpiw_hook(true, true, false, CREATE_SUSPENDED).is_empty());
    assert!(cpiw_hook(false, true, true, 0).is_empty());
    assert!(cpiw_hook(true, false, true, 0).is_empty());
}

#[test]
fn publishing_touches_the_secondary_addresses_only() {
    let entry = RedirectEntry {
        suffix_ptr: 1,
        suffix_wlen: 2,
        backing_ptr: 3,
        backing_wlen: 4,
        backing_size: 5,
    };
    let mut cfg = PayloadConfig {
        nt_protect: 1,
        open_target: 2,
        open_tramp: 3,
        qattr_target: 4,
        qattr_tramp: 5,
        qfull_target: 6,
        qfull_tramp: 7,
        create_target: 8,
        create_tramp: 9,
        install_mask: 10,
        redirect_count: 1,
        redirects: [entry; 4],
        counters: 11,
        secondary_open: 0,
        secondary_create: 0,
        secondary_qattr: 0,
        secondary_qfull: 0,
    };
    assert_eq!(
        cfg.trampolines(),
        EarlyOwned { create: 9, open: 3, qattr: 5, qfull: 7 }
    );
    cfg.publish(EarlyOwned { create: 21, open: 22, qattr: 23, qfull: 24 });
    assert_eq!(
        (cfg.secondary_create, cfg.secondary_open, cfg.secondary_qattr, cfg.secondary_qfull),
        (21, 22, 23, 24)
    );
    assert_eq!((cfg.nt_protect, cfg.create_tramp, cfg.counters), (1, 9, 11));
}
