use vfs_shim::fuse_client::RingStatus;
use vfs_shim::hook::listing::{
    dir_query_begin, dir_query_end, dir_query_store, director_listing, pending_entries,
    wanted_items, wildcard_of, DirStatus, DirStep,
};
use vfs_shim::hook::tables::{tag_under_root, HandleTables};
use vfs_shim::hookstats::{ReadDirSource, Stats};
use vfs_shim::ntdef::{
    UnicodeString, STATUS_BUFFER_OVERFLOW, STATUS_NO_MORE_FILES, STATUS_SUCCESS,
};
use vfs_shim::overlay::{DirItem, KeyedItem};

fn item(name: &str) -> DirItem {
    DirItem { name: name.to_string(), is_dir: false, size: 1, mtime: 0 }
}

fn keyed(name: &str) -> KeyedItem {
    KeyedItem { key: name.to_string(), base_key: name.to_string(), item: item(name) }
}

fn names(items: Vec<DirItem>) -> Vec<String> {
    items.into_iter().map(|i| i.name).collect()
}

#[test]
fn a_search_for_everything_has_no_filter() {
    for all in ["", "*", "*.*"] {
        assert_eq!(wildcard_of(Some(&UnicodeString::of_text(all))), None);
    }
    assert_eq!(wildcard_of(None), None);
    assert_eq!(wildcard_of(Some(&UnicodeString::of_text("*.esp"))).as_deref(), Some("*.esp"));
}

#[test]
fn a_tracked_directory_is_listed_once_and_handed_out_in_pieces() {
    let mut s = Stats::new(true);
    let mut t = HandleTables::new();
    tag_under_root(&mut t, Some(8), Some(r"\??\C:\r\d"), true, STATUS_SUCCESS);
    assert!(matches!(
        dir_query_begin(&mut s, &t, 8, true, false, None),
        DirStep::Build { dir } if dir == r"\??\C:\r\d"
    ));
    assert!(dir_query_store(
        &mut s,
        &mut t,
        8,
        None,
        vec![item("a"), item("b"), item("c")],
        ReadDirSource::Director
    ));
    assert!(matches!(dir_query_begin(&mut s, &t, 8, true, false, None), DirStep::Serve));
    assert_eq!(pending_entries(&t, 8).map(names), Some(vec!["a".into(), "b".into(), "c".into()]));
    assert_eq!(dir_query_end(&mut t, 8, 2, DirStatus::Success), STATUS_SUCCESS);
    assert_eq!(pending_entries(&t, 8).map(names), Some(vec!["c".into()]));
    assert_eq!(dir_query_end(&mut t, 8, 0, DirStatus::BufferOverflow), STATUS_BUFFER_OVERFLOW);
    assert_eq!(dir_query_end(&mut t, 8, 1, DirStatus::Success), STATUS_SUCCESS);
    assert_eq!(pending_entries(&t, 8).map(names), Some(vec![]));
    assert_eq!(dir_query_end(&mut t, 8, 0, DirStatus::NoMoreFiles), STATUS_NO_MORE_FILES);
    // A restart builds the listing anew.
    assert!(matches!(dir_query_begin(&mut s, &t, 8, true, true, None), DirStep::Build { .. }));
    assert_eq!(s.counts.readdirs.len(), 1);
}

#[test]
fn other_directories_are_listed_by_the_system() {
    let mut s = Stats::new(true);
    let mut t = HandleTables::new();
    tag_under_root(&mut t, Some(8), Some(r"\??\C:\r\d"), true, STATUS_SUCCESS);
    assert!(matches!(dir_query_begin(&mut s, &t, 12, true, false, None), DirStep::Real));
    assert!(matches!(dir_query_begin(&mut s, &t, 8, false, false, None), DirStep::Real));
    assert_eq!(pending_entries(&t, 12).map(names), None);
}

#[test]
fn a_filter_keeps_matches_and_the_name_itself() {
    let items = [keyed("A.esp"), keyed("b.esm"), keyed("c.txt")];
    assert_eq!(names(wanted_items(&items, None, &[false, false, false])).len(), 3);
    assert_eq!(
        names(wanted_items(&items, Some("*.esm"), &[false, true, false])),
        ["b.esm"]
    );
    assert_eq!(names(wanted_items(&items, Some("a.ESP"), &[false, false, false])), ["A.esp"]);
}

#[test]
fn a_directory_the_director_cannot_list_is_empty() {
    assert!(director_listing(Err(RingStatus::NotFound)).is_empty());
    let listed = director_listing(Ok(vec![keyed("a"), keyed("b")]));
    assert_eq!(listed.len(), 2);
}
