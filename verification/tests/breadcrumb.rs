use vfs_shim::breadcrumb::mark_close::{FUSE_RING, TABLES, TRAMP_DONE};
use vfs_shim::breadcrumb::{
    enter, exit, init, is_active, mark, pid_path, snapshot, MAGIC, MAP_BYTES, NONE, TRAIL,
};

fn u32_at(page: &[u8], off: usize) -> u32 {
    u32::from_le_bytes(page[off..off + 4].try_into().unwrap())
}

fn u64_at(page: &[u8], off: usize) -> u64 {
    u64::from_le_bytes(page[off..off + 8].try_into().unwrap())
}

#[test]
fn a_page_that_was_not_made_ready_is_not_read() {
    let page = vec![0u8; MAP_BYTES];
    assert_eq!(snapshot(Some(&page)), None);
    assert_eq!(snapshot(None), None);
    assert!(is_active(Some(&page)));
    assert!(!is_active(None));
}

#[test]
fn the_running_entry_point_is_shown_while_it_runs() {
    let mut page = vec![0xAAu8; MAP_BYTES];
    init(&mut page);
    assert_eq!(snapshot(Some(&page)), Some((NONE, 0, 0, NONE)));
    enter(&mut page, 0);
    assert_eq!(snapshot(Some(&page)), Some((0, 1, 0, NONE)));
    enter(&mut page, 6);
    assert_eq!(snapshot(Some(&page)), Some((6, 2, 0, NONE)));
    exit(&mut page, 6);
    assert_eq!(snapshot(Some(&page)), Some((NONE, 2, 1, 6)));
    mark(&mut page, TABLES);
    for gap in [28..32, 36..40, 72..76] {
        assert_eq!(page[gap], [0xAA; 4]);
    }
    assert_eq!(page[80..], [0xAA; MAP_BYTES - 80]);
}

#[test]
fn fields_lie_where_an_outside_reader_looks() {
    let mut page = vec![0u8; MAP_BYTES];
    init(&mut page);
    for hook in 0..10u32 {
        enter(&mut page, 100 + hook);
    }
    exit(&mut page, 109);
    mark(&mut page, TABLES);
    assert_eq!(u32_at(&page, 0), MAGIC);
    assert_eq!(&page[0..4], b"BCRB");
    assert_eq!(u32_at(&page, 4), NONE);
    assert_eq!(u64_at(&page, 8), 10);
    assert_eq!(u64_at(&page, 16), 1);
    assert_eq!(u32_at(&page, 24), 109);
    assert_eq!(u32_at(&page, 32), 10);
    let trail: Vec<u32> = (0..TRAIL).map(|i| u32_at(&page, 40 + 4 * i)).collect();
    assert_eq!(trail, [108, 109, 102, 103, 104, 105, 106, 107]);
    assert_eq!(u32_at(&page, 76), 1020);
    assert_eq!((FUSE_RING, TRAMP_DONE), (1003, 1022));
}

#[test]
fn each_process_has_its_own_page() {
    assert_eq!(
        pid_path(Some(r"C:\dir"), Some("name"), Some("dat"), 42),
        r"C:\dir\name.42.dat"
    );
    assert_eq!(pid_path(Some(""), Some("name"), None, 42), "name.42.bin");
    assert_eq!(pid_path(None, None, None, 7), "breadcrumb.7.bin");
}
