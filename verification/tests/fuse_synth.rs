use vfs_shim::fuse_synth::{
    abs_path, close_fuse, is_fuse_synth, lookup, open_fuse, open_fuse_at, open_fuse_at_ex,
    set_position, set_size, FuseTable,
};

#[test]
fn handles_are_tagged_distinct_and_closed_once() {
    let mut t = FuseTable::new();
    let a = open_fuse(&mut t, 5, 100, false);
    let b = open_fuse_at(&mut t, 6, 0, true, Some(r"\??\C:\d".to_string()));
    assert_ne!(a, b);
    assert!(is_fuse_synth(a) && is_fuse_synth(b));
    assert!(!is_fuse_synth(0x44));
    assert_eq!(lookup(&t, a), Some((5, 100, false, 0, false)));
    assert_eq!(abs_path(&t, a), None);
    assert_eq!(abs_path(&t, b).as_deref(), Some(r"\??\C:\d"));
    assert_eq!(close_fuse(&mut t, a), Some(5));
    assert_eq!(close_fuse(&mut t, a), None);
    assert_eq!(lookup(&t, a), None);
    assert_eq!(lookup(&t, b), Some((6, 0, true, 0, false)));
}

#[test]
fn positions_follow_the_size() {
    let mut t = FuseTable::new();
    let h = open_fuse_at_ex(&mut t, 5, 100, false, None, true);
    assert_eq!(lookup(&t, h), Some((5, 100, false, 100, true)));
    set_size(&mut t, h, 40);
    assert_eq!(lookup(&t, h), Some((5, 40, false, 40, true)));
    set_position(&mut t, h, 7);
    set_size(&mut t, h, 90);
    assert_eq!(lookup(&t, h), Some((5, 90, false, 7, true)));
}
