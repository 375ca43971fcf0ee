use vfs_shim::bootstrap::{
    bootstrap_from_config_path_with_payload, choose_payload_cfg, decode_config,
    decode_config_full, encode_config, encode_config_full, encode_config_with_overlay,
    load_static_imports_from_config_path, payload_candidate, payload_cfg_usable,
    preinit_probe_path, static_imports_to_preinit, sync_bootstrap, BootEvent, BootStep,
    BootstrapError, PayloadProbe, StaticImport,
};
use vfs_shim::engine::{EngineError, PathError};
use vfs_shim::fuse_client::FuseInitError;
use vfs_shim::hook::install::InstallError;

#[test]
fn config_round_trips() {
    let snapshot = vec![1u8, 2, 3, 4, 5];
    let bytes = encode_config(r"\??\C:\Games\Skyrim", &snapshot);
    let (root, overlay, snap) = decode_config(&bytes).unwrap();
    assert_eq!(root, r"\??\C:\Games\Skyrim");
    assert_eq!(overlay, "");
    assert_eq!(snap, snapshot);
    let (_r, _o, statics, _s) = decode_config_full(&bytes).unwrap();
    assert!(statics.is_empty());
}

#[test]
fn config_with_overlay_round_trips() {
    let snapshot = vec![9u8, 8, 7];
    let bytes = encode_config_with_overlay(r"C:\Game", r"C:\Overlay", &snapshot);
    let (root, overlay, snap) = decode_config(&bytes).unwrap();
    assert_eq!(root, r"C:\Game");
    assert_eq!(overlay, r"C:\Overlay");
    assert_eq!(snap, snapshot);
}

#[test]
fn config_with_static_imports_round_trips() {
    let snapshot = vec![1u8, 2, 3];
    let statics = vec![
        StaticImport {
            dll_name: "d3d11.dll".into(),
            backing_path: r"C:\Mods\d3d11_proxy.dll".into(),
        },
        StaticImport {
            dll_name: "dxgi.dll".into(),
            backing_path: r"\??\C:\Mods\dxgi_proxy.dll".into(),
        },
    ];
    let bytes = encode_config_full(r"C:\Game", r"C:\Overlay", &statics, &snapshot);
    let (root, overlay, got, snap) = decode_config_full(&bytes).unwrap();
    assert_eq!(root, r"C:\Game");
    assert_eq!(overlay, r"C:\Overlay");
    assert_eq!(got, statics);
    assert_eq!(snap, snapshot);
    let (_r, _o, snap2) = decode_config(&bytes).unwrap();
    assert_eq!(snap2, snapshot);
    assert_eq!(load_static_imports_from_config_path(Some(&bytes)), Some(statics));
    assert_eq!(load_static_imports_from_config_path(None), None);
    assert_eq!(load_static_imports_from_config_path(Some(&[0u8, 1])), None);
}

#[test]
fn legacy_config_without_magic_still_decodes() {
    let mut bytes = Vec::new();
    let root = b"C:\\G";
    let overlay = b"";
    let snap = b"SNAP";
    bytes.extend_from_slice(&(root.len() as u32).to_le_bytes());
    bytes.extend_from_slice(root);
    bytes.extend_from_slice(&(overlay.len() as u32).to_le_bytes());
    bytes.extend_from_slice(overlay);
    bytes.extend_from_slice(snap);
    let (r, o, statics, s) = decode_config_full(&bytes).unwrap();
    assert_eq!(r, "C:\\G");
    assert_eq!(o, "");
    assert!(statics.is_empty());
    assert_eq!(s, snap);
}

#[test]
fn decode_rejects_truncated() {
    let mut bytes = 100u32.to_le_bytes().to_vec();
    bytes.extend_from_slice(b"short");
    assert!(decode_config(&bytes).is_none());
}

#[test]
fn decode_rejects_too_short_for_header() {
    assert!(decode_config(&[0u8, 1]).is_none());
}

#[test]
fn decode_rejects_bytes_that_are_no_text() {
    let mut bytes = 2u32.to_le_bytes().to_vec();
    bytes.extend_from_slice(&[0xff, 0xfe]);
    bytes.extend_from_slice(&0u32.to_le_bytes());
    assert!(decode_config(&bytes).is_none());
}

#[test]
fn every_cut_before_the_snapshot_is_refused() {
    let statics = vec![StaticImport { dll_name: "a.dll".into(), backing_path: "b".into() }];
    let bytes = encode_config_full("R", "O", &statics, &[]);
    for n in 0..bytes.len() {
        // A cut inside the mark leaves a legacy file whose snapshot is the mark's beginning.
        let legacy = n >= 10 && n < 14;
        assert_eq!(decode_config_full(&bytes[..n]).is_none(), !legacy, "cut at {n}");
    }
}

#[test]
fn a_config_is_laid_out_field_by_field() {
    let bytes = encode_config("ab", &[7]);
    assert_eq!(bytes, [&[2, 0, 0, 0][..], b"ab", &[0, 0, 0, 0], b"VFS1", &[0, 0, 0, 0], &[7]].concat());
}

#[test]
fn bootstrap_missing_file_is_io_error() {
    assert!(matches!(
        bootstrap_from_config_path_with_payload(BootEvent::Config(None)),
        BootStep::Failed(BootstrapError::Io)
    ));
}

#[test]
fn bootstrap_garbage_config_is_bad_config() {
    assert!(matches!(
        bootstrap_from_config_path_with_payload(BootEvent::Config(Some(vec![0u8, 1]))),
        BootStep::Failed(BootstrapError::BadConfig)
    ));
}

fn own(address: u64) -> PayloadProbe {
    PayloadProbe { address, answered: true, committed: true, expected: Some(9), recorded: 9 }
}

#[test]
fn a_start_up_runs_through_its_steps() {
    let file = encode_config_with_overlay(r"C:\Game", r"C:\Ov", &[1, 2]);
    match bootstrap_from_config_path_with_payload(BootEvent::Config(Some(file))) {
        BootStep::AttachDirector { root, overlay, snapshot } => {
            assert_eq!(root, r"C:\Game");
            assert_eq!(overlay.as_deref(), Some(r"C:\Ov"));
            assert_eq!(snapshot, vec![1, 2]);
        }
        _ => panic!("the director comes first"),
    }
    let plain = encode_config(r"C:\Game", &[]);
    assert!(matches!(
        bootstrap_from_config_path_with_payload(BootEvent::Config(Some(plain))),
        BootStep::AttachDirector { overlay: None, .. }
    ));
    assert!(matches!(
        bootstrap_from_config_path_with_payload(BootEvent::Director(Ok(()))),
        BootStep::BuildEngine
    ));
    assert!(matches!(
        bootstrap_from_config_path_with_payload(BootEvent::Engine(Ok(()))),
        BootStep::FindPayload
    ));
    assert!(matches!(
        bootstrap_from_config_path_with_payload(BootEvent::Payload(vec![own(0x10), own(0x20)])),
        BootStep::Install { payload_cfg: 0x10 }
    ));
    assert!(matches!(
        bootstrap_from_config_path_with_payload(BootEvent::Payload(vec![])),
        BootStep::Install { payload_cfg: 0 }
    ));
    assert!(matches!(
        bootstrap_from_config_path_with_payload(BootEvent::Installed(Ok(()))),
        BootStep::SignalReady
    ));
    assert!(matches!(
        bootstrap_from_config_path_with_payload(BootEvent::Signalled),
        BootStep::Done
    ));
}

#[test]
fn a_start_up_without_a_director_fails() {
    assert!(matches!(
        bootstrap_from_config_path_with_payload(BootEvent::Director(Err(
            FuseInitError::NotConfigured
        ))),
        BootStep::Failed(BootstrapError::Director(FuseInitError::NotConfigured))
    ));
    match bootstrap_from_config_path_with_payload(BootEvent::Director(Err(
        FuseInitError::ConnectFailed("no ring".to_string()),
    ))) {
        BootStep::Failed(BootstrapError::Director(FuseInitError::ConnectFailed(why))) => {
            assert_eq!(why, "no ring")
        }
        _ => panic!("the reason was lost"),
    }
}

#[test]
fn engine_and_install_failures_keep_their_reason() {
    assert!(matches!(
        bootstrap_from_config_path_with_payload(BootEvent::Engine(Err(EngineError::Root(
            PathError::EmptyRoot
        )))),
        BootStep::Failed(BootstrapError::Engine(EngineError::Root(PathError::EmptyRoot)))
    ));
    assert!(matches!(
        bootstrap_from_config_path_with_payload(BootEvent::Installed(Err(
            InstallError::ProcMissing
        ))),
        BootStep::Failed(BootstrapError::Install(InstallError::ProcMissing))
    ));
}

#[test]
fn the_synchronous_start_up_has_three_answers() {
    assert_eq!(sync_bootstrap(true, true), 0);
    assert_eq!(sync_bootstrap(false, false), 1);
    assert_eq!(sync_bootstrap(true, false), 2);
}

#[test]
fn a_payload_of_another_process_is_not_used() {
    let good = own(0x1000);
    assert!(payload_cfg_usable(&good));
    assert!(!payload_cfg_usable(&PayloadProbe { address: 0, ..good }));
    assert!(!payload_cfg_usable(&PayloadProbe { answered: false, ..good }));
    assert!(!payload_cfg_usable(&PayloadProbe { committed: false, ..good }));
    assert!(!payload_cfg_usable(&PayloadProbe { expected: None, ..good }));
    assert!(!payload_cfg_usable(&PayloadProbe { recorded: 8, ..good }));
    let foreign = PayloadProbe { address: 0x500, recorded: 8, ..good };
    assert_eq!(choose_payload_cfg(&[foreign, good]), 0x1000);
    assert_eq!(choose_payload_cfg(&[foreign]), 0);
}

#[test]
fn a_candidate_file_holds_a_hexadecimal_address() {
    assert_eq!(payload_candidate(" 7ff612340000\r\n"), Some(0x7ff6_1234_0000));
    assert_eq!(payload_candidate("ffffffffffffffff"), Some(u64::MAX));
    assert_eq!(payload_candidate("10000000000000000"), None);
    assert_eq!(payload_candidate("0x10"), None);
    assert_eq!(payload_candidate(""), None);
}

#[test]
fn static_imports_become_early_redirects() {
    let entry = |n: &str, b: &str| StaticImport { dll_name: n.into(), backing_path: b.into() };
    let statics = vec![
        entry(r"x/y\d3d11.dll", r" C:\Mods\p.dll "),
        entry("dxgi.dll", r"\??\C:\Mods\q.dll"),
        entry("  ", r"C:\Mods\r.dll"),
        entry("gone.dll", r"C:\Mods\gone.dll"),
        entry("late.dll", r"C:\Mods\late.dll"),
    ];
    assert_eq!(preinit_probe_path(&statics[0]).as_deref(), Some(r"C:\Mods\p.dll"));
    assert_eq!(preinit_probe_path(&statics[1]).as_deref(), Some(r"C:\Mods\q.dll"));
    assert_eq!(preinit_probe_path(&statics[2]), None);
    let sizes = [Some(10), Some(20), Some(30), None, Some(50)];
    assert_eq!(
        static_imports_to_preinit(&statics, 4, &sizes),
        vec![
            ("d3d11.dll".to_string(), r"\??\C:\Mods\p.dll".to_string(), 10),
            ("dxgi.dll".to_string(), r"\??\C:\Mods\q.dll".to_string(), 20),
        ]
    );
    assert_eq!(static_imports_to_preinit(&statics, 5, &sizes).len(), 3);
}
