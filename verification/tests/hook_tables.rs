use vfs_shim::fuse_synth::{open_fuse_at, FuseTable};
use vfs_shim::hook::tables::{
    fuse_root_directory, identity_of, parent_dir_of_handle, path_is_ours, path_of,
    path_of_handle, path_of_tracked, reclaim, record_identity, record_path, relative_root,
    tag_under_root, tracked_path, HandleTables, ParentDir,
};
use vfs_shim::ntdef::{ObjectAttributes, UnicodeString, STATUS_SUCCESS, STATUS_UNSUCCESSFUL};

fn oa(root_directory: u64, name: &str) -> ObjectAttributes {
    ObjectAttributes {
        root_directory,
        object_name: Some(UnicodeString::of_text(name)),
        attributes: 0,
    }
}

#[test]
fn closing_a_handle_forgets_it_and_no_other() {
    let mut t = HandleTables::new();
    for h in [8u64, 12] {
        tag_under_root(&mut t, Some(h), Some(r"\??\C:\r"), true, STATUS_SUCCESS);
        record_identity(&mut t, Some(h), Some(r"\r"), STATUS_SUCCESS);
        record_path(&mut t, Some(h), Some(r"\??\C:\r"), true, STATUS_SUCCESS);
    }
    reclaim(&mut t, 8);
    assert_eq!((path_of_handle(&t, 8), identity_of(&t, 8), tracked_path(&t, 8)), (None, None, None));
    assert!(path_of_handle(&t, 12).is_some());
    assert!(identity_of(&t, 12).is_some());
    assert!(tracked_path(&t, 12).is_some());
}

#[test]
fn failed_opens_and_foreign_paths_are_not_tracked() {
    let mut t = HandleTables::new();
    tag_under_root(&mut t, Some(8), Some("p"), true, STATUS_UNSUCCESSFUL);
    record_path(&mut t, Some(8), Some("p"), false, STATUS_SUCCESS);
    record_identity(&mut t, None, Some("p"), STATUS_SUCCESS);
    assert_eq!((path_of_handle(&t, 8), tracked_path(&t, 8)), (None, None));
    assert!(path_is_ours(true, false));
    assert!(path_is_ours(false, true));
    assert!(!path_is_ours(false, false));
}

#[test]
fn every_kind_of_parent_is_found() {
    let mut t = HandleTables::new();
    let mut fuse = FuseTable::new();
    let synth = open_fuse_at(&mut fuse, 1, 0, true, Some(r"\??\C:\r".to_string()));
    let known = |p: ParentDir| match p {
        ParentDir::Known(s) => s,
        _ => panic!("unknown parent"),
    };
    assert_eq!(known(parent_dir_of_handle(&t, &fuse, synth, None)), r"\??\C:\r");
    record_path(&mut t, Some(synth), Some(r"\??\C:\s"), true, STATUS_SUCCESS);
    assert_eq!(known(parent_dir_of_handle(&t, &fuse, synth, None)), r"\??\C:\s");
    assert!(matches!(parent_dir_of_handle(&t, &fuse, synth + 1, None), ParentDir::Unknown));
    tag_under_root(&mut t, Some(8), Some(r"\??\C:\d"), false, STATUS_SUCCESS);
    assert_eq!(known(parent_dir_of_handle(&t, &fuse, 8, None)), r"\??\C:\d");
    assert_eq!(
        known(parent_dir_of_handle(&t, &fuse, 12, Some((12, r"C:\Games\")))),
        r"\??\C:\Games"
    );
    assert!(matches!(
        parent_dir_of_handle(&t, &fuse, 16, Some((12, r"C:\Games\"))),
        ParentDir::AskOs
    ));
}

#[test]
fn names_are_decoded_against_their_parent() {
    let absolute = oa(0, r"\??\C:\r\a");
    assert_eq!(relative_root(Some(&absolute)), None);
    assert_eq!(path_of(Some(&absolute), None).as_deref(), Some(r"\??\C:\r\a"));
    let relative = oa(8, "a");
    assert_eq!(relative_root(Some(&relative)), Some(8));
    assert_eq!(
        path_of(Some(&relative), Some((r"\??\C:\r", false))).as_deref(),
        Some(r"\??\C:\r\a")
    );
    assert_eq!(path_of(Some(&relative), None), None);
    let d = path_of_tracked(Some(&relative), Some((r"\??\C:\r", true)));
    assert!(d.unwrap_or_else(|| unreachable!()).os_consulted);
    assert_eq!(path_of(None, None), None);
    let unnamed = ObjectAttributes { root_directory: 0, object_name: None, attributes: 0 };
    assert_eq!(path_of(Some(&unnamed), None), None);
    let mut fuse = FuseTable::new();
    let synth = open_fuse_at(&mut fuse, 1, 0, true, None);
    assert!(fuse_root_directory(Some(&oa(synth, "a"))));
    assert!(!fuse_root_directory(Some(&relative)));
}
