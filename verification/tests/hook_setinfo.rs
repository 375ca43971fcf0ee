use vfs_shim::engine::RenameOutcome;
use vfs_shim::fuse_client::RingStatus;
use vfs_shim::fuse_synth::{lookup, open_fuse, FuseTable};
use vfs_shim::hook::setinfo::{
    delete_answer, delete_hook, delete_status_for, director_set_answer, is_delete_request,
    is_rename_request, parse_rename_target, rename_root, setinfo_real, setinfo_source_path,
    setinfo_synth, truncate_answer, DeleteStep, RealSet, RealStep, SynthSet,
};
use vfs_shim::hook::tables::{
    parent_dir_of_handle, record_path, tag_under_root, HandleTables, ParentDir,
};
use vfs_shim::hookstats::Stats;
use vfs_shim::ntdef::{
    FILE_DISPOSITION_INFORMATION, FILE_DISPOSITION_INFORMATION_EX, FILE_END_OF_FILE_INFORMATION,
    FILE_POSITION_INFORMATION, FILE_RENAME_INFORMATION, FILE_RENAME_INFORMATION_EX,
    STATUS_ACCESS_DENIED, STATUS_FILE_IS_A_DIRECTORY, STATUS_OBJECT_NAME_NOT_FOUND,
    STATUS_SUCCESS, STATUS_UNSUCCESSFUL,
};

fn rename_info(root_dir: u64, name: &str) -> Vec<u8> {
    let units: Vec<u16> = name.encode_utf16().collect();
    let namelen = units.len() * 2;
    let mut buf = vec![0u8; 20 + namelen];
    buf[8..16].copy_from_slice(&root_dir.to_le_bytes());
    buf[16..20].copy_from_slice(&(namelen as u32).to_le_bytes());
    for (i, u) in units.iter().enumerate() {
        buf[20 + i * 2..22 + i * 2].copy_from_slice(&u.to_le_bytes());
    }
    buf
}

/// Resolves the parent as a caller does, where one is named.
fn parse_rename(t: &HandleTables, buf: &[u8]) -> Option<String> {
    let fuse = FuseTable::new();
    let parent = match rename_root(buf) {
        Some(h) => match parent_dir_of_handle(t, &fuse, h, None) {
            ParentDir::Known(p) => Some(p),
            _ => None,
        },
        None => None,
    };
    parse_rename_target(buf, parent.as_deref())
}

#[test]
fn an_absolute_rename_target_is_returned_as_is() {
    let buf = rename_info(0, r"\??\C:\root\new.esp");
    assert_eq!(
        parse_rename(&HandleTables::new(), &buf).as_deref(),
        Some(r"\??\C:\root\new.esp")
    );
}

#[test]
fn a_rename_target_relative_to_a_known_handle_becomes_a_full_path() {
    let handle = 0x4321u64;
    let mut t = HandleTables::new();
    tag_under_root(&mut t, Some(handle), Some(r"\??\C:\root\Data"), false, STATUS_SUCCESS);
    let buf = rename_info(handle, "new.esp");
    assert_eq!(
        parse_rename(&t, &buf).as_deref(),
        Some(r"\??\C:\root\Data\new.esp"),
        "a handle-relative target must be joined to its parent"
    );
}

#[test]
fn a_rename_target_with_an_unknown_parent_is_declined() {
    let buf = rename_info(0xDEAD_BEEF, "new.esp");
    assert_eq!(parse_rename(&HandleTables::new(), &buf), None);
}

#[test]
fn a_rename_that_does_not_fit_its_buffer_is_declined() {
    let mut buf = rename_info(0, "new.esp");
    assert_eq!(parse_rename_target(&buf[..19], None), None);
    buf.pop();
    assert_eq!(parse_rename_target(&buf, None), None);
    assert_eq!(rename_root(&buf[..10]), None);
}

#[test]
fn requests_are_told_apart_by_class() {
    assert!(is_delete_request(&[1], FILE_DISPOSITION_INFORMATION));
    assert!(!is_delete_request(&[0], FILE_DISPOSITION_INFORMATION));
    assert!(!is_delete_request(&[], FILE_DISPOSITION_INFORMATION));
    assert!(is_delete_request(&[1, 0, 0, 0], FILE_DISPOSITION_INFORMATION_EX));
    assert!(!is_delete_request(&[2, 0, 0, 0], FILE_DISPOSITION_INFORMATION_EX));
    assert!(!is_delete_request(&[1], FILE_DISPOSITION_INFORMATION_EX));
    assert!(!is_delete_request(&[1, 1, 1, 1], FILE_POSITION_INFORMATION));
    assert!(is_rename_request(FILE_RENAME_INFORMATION));
    assert!(is_rename_request(FILE_RENAME_INFORMATION_EX));
    assert!(!is_rename_request(FILE_POSITION_INFORMATION));
}

#[test]
fn a_delete_by_path_goes_where_the_file_is() {
    let path = r"\??\C:\game\data\a.esp";
    let hit = Some((3, "data/a.esp".to_string()));
    assert_eq!(
        delete_hook(path, &hit, true, true, true),
        DeleteStep::AskDirector { root: 3, vpath: "data/a.esp".to_string() }
    );
    // The root itself has a name of its own at the director.
    assert_eq!(
        delete_hook(path, &Some((2, String::new())), false, true, false),
        DeleteStep::AskDirector { root: 2, vpath: ".".to_string() }
    );
    assert_eq!(delete_hook(path, &None, true, true, true), DeleteStep::Whiteout);
    assert_eq!(
        delete_hook(path, &None, false, true, true),
        DeleteStep::Refuse(STATUS_ACCESS_DENIED)
    );
    assert_eq!(
        delete_hook(r"\\?\C:\other\b", &None, false, false, true),
        DeleteStep::RealAbsolute { path: r"\??\C:\other\b".to_string() }
    );
    assert_eq!(delete_hook(path, &None, false, false, false), DeleteStep::Real);
    assert_eq!(delete_answer(Ok(())), STATUS_SUCCESS);
    assert_eq!(delete_answer(Err(RingStatus::NotFound)), STATUS_OBJECT_NAME_NOT_FOUND);
    assert_eq!(delete_status_for(RingStatus::ReadOnly), STATUS_ACCESS_DENIED);
    assert_eq!(delete_status_for(RingStatus::IsDir), STATUS_FILE_IS_A_DIRECTORY);
    assert_eq!(delete_status_for(RingStatus::IoError), STATUS_UNSUCCESSFUL);
}

#[test]
fn a_synthetic_handle_is_positioned_truncated_deleted_and_renamed() {
    let mut s = Stats::new(true);
    let mut fuse = FuseTable::new();
    let h = open_fuse(&mut fuse, 5, 100, false);
    let src = Some((0, "data/a.esp"));
    let at = 40i64.to_le_bytes();
    assert!(matches!(
        setinfo_synth(&mut s, &mut fuse, h, FILE_POSITION_INFORMATION, &at, true, src, None),
        SynthSet::Done(STATUS_SUCCESS, false)
    ));
    assert_eq!(lookup(&fuse, h), Some((5, 100, false, 40, false)));
    assert!(matches!(
        setinfo_synth(&mut s, &mut fuse, h, FILE_END_OF_FILE_INFORMATION, &at, true, src, None),
        SynthSet::Truncate { fh: 5, size: 40 }
    ));
    assert_eq!(truncate_answer(&mut fuse, h, 30, true), (STATUS_SUCCESS, true));
    assert_eq!(lookup(&fuse, h), Some((5, 30, false, 30, false)));
    assert!(truncate_answer(&mut fuse, h, 10, false).0 < 0);
    assert!(matches!(
        setinfo_synth(&mut s, &mut fuse, h, FILE_DISPOSITION_INFORMATION, &[1], true, src, None),
        SynthSet::Delete { root: 0, vpath } if vpath == "data/a.esp"
    ));
    let dst = Some((0, "data/b.esp"));
    assert!(matches!(
        setinfo_synth(&mut s, &mut fuse, h, FILE_RENAME_INFORMATION, &[], true, src, dst),
        SynthSet::Rename { root: 0, from, to } if from == "data/a.esp" && to == "data/b.esp"
    ));
    let other = Some((1, "data/b.esp"));
    assert!(matches!(
        setinfo_synth(&mut s, &mut fuse, h, FILE_RENAME_INFORMATION, &[], true, src, other),
        SynthSet::Done(STATUS_UNSUCCESSFUL, false)
    ));
    assert_eq!(s.counts.setinfo_noop.len(), 0);
    assert!(matches!(
        setinfo_synth(&mut s, &mut fuse, h, 4, &[0; 40], true, src, None),
        SynthSet::Done(STATUS_SUCCESS, false)
    ));
    assert_eq!((s.counts.setinfo_noop[0].class, s.counts.setinfo_noop[0].count), (4, 1));
    assert_eq!(director_set_answer(true).0, STATUS_SUCCESS);
    assert_eq!(director_set_answer(false).0, STATUS_UNSUCCESSFUL);
}

#[test]
fn changes_under_a_root_never_reach_the_system() {
    let base = RealSet {
        is_delete: true,
        source_ours: Some(true),
        overlay_takes: false,
        rename: None,
        target_ours: false,
    };
    assert_eq!(setinfo_real(base), RealStep::Refuse(STATUS_ACCESS_DENIED));
    assert_eq!(setinfo_real(RealSet { overlay_takes: true, ..base }), RealStep::Overlay);
    assert_eq!(setinfo_real(RealSet { source_ours: Some(false), ..base }), RealStep::Real);
    let rename = RealSet { is_delete: false, ..base };
    assert_eq!(
        setinfo_real(RealSet { rename: Some(RenameOutcome::Handled), ..rename }),
        RealStep::Overlay
    );
    assert_eq!(
        setinfo_real(RealSet { rename: Some(RenameOutcome::CrossRoot), ..rename }),
        RealStep::Refuse(STATUS_UNSUCCESSFUL)
    );
    assert_eq!(
        setinfo_real(RealSet { rename: Some(RenameOutcome::Declined), ..rename }),
        RealStep::Refuse(STATUS_ACCESS_DENIED)
    );
    let outside = RealSet { source_ours: None, ..rename };
    assert_eq!(setinfo_real(outside), RealStep::Real);
    assert_eq!(
        setinfo_real(RealSet { target_ours: true, ..outside }),
        RealStep::Refuse(STATUS_ACCESS_DENIED)
    );
}

#[test]
fn the_source_of_a_change_is_the_path_it_was_opened_as() {
    let mut t = HandleTables::new();
    record_path(&mut t, Some(8), Some(r"\??\C:\r\a"), true, STATUS_SUCCESS);
    assert_eq!(setinfo_source_path(&t, 8).as_deref(), Some(r"\??\C:\r\a"));
    assert_eq!(setinfo_source_path(&t, 12), None);
}
