use std::collections::BTreeMap;
use vfs_shim::overlay::{
    are_plain, overlay_layer_dir, step_succeeded, strip_whiteout_markers, whiteout_base, whiteout_marker,
    DirItem, FsOp, FsResult, FsStep, KeyedItem, Overlay, OverlayEntry, OverlayState, Tolerance,
};

const ROOT: &str = r"C:\Overlay";

/// The files of an overlay directory.
struct Disk {
    files: BTreeMap<String, Vec<u8>>,
}

impl Disk {
    fn new() -> Disk {
        Disk { files: BTreeMap::new() }
    }

    fn run(&mut self, steps: &[FsStep]) {
        for s in steps {
            let result = match &s.op {
                FsOp::MakeDirs { .. } => FsResult::Done,
                FsOp::Remove { path } => match self.files.remove(path) {
                    Some(_) => FsResult::Done,
                    None => FsResult::Missing,
                },
                FsOp::WriteEmpty { path } => {
                    self.files.insert(path.clone(), Vec::new());
                    FsResult::Done
                }
                FsOp::Move { from, to } => match self.files.remove(from) {
                    Some(b) => {
                        self.files.insert(to.clone(), b);
                        FsResult::Done
                    }
                    None => FsResult::Missing,
                },
            };
            assert!(step_succeeded(s, result));
        }
    }

    fn lookup(&self, ov: &Overlay, root: u32, comps: &[String]) -> OverlayState {
        let on_disk = self.files.get(&ov.file_path(root, comps)).map(|b| (false, b.len() as u64));
        let marked = self.files.contains_key(&ov.whiteout_path(root, comps));
        ov.lookup(root, comps, on_disk, marked)
    }

    fn read(&self, state: OverlayState) -> Vec<u8> {
        match state {
            OverlayState::Present { path, .. } => self.files[&path].clone(),
            OverlayState::Whiteout => panic!("whited out"),
            OverlayState::Absent => panic!("the overlay file went missing"),
        }
    }
}

fn comps(v: &[&str]) -> Vec<String> {
    v.iter().map(|s| s.to_string()).collect()
}

#[test]
fn two_roots_same_path_do_not_collide() {
    let mut disk = Disk::new();
    let ov = Overlay::new(ROOT);
    let c = comps(&["data", "foo.esp"]);

    disk.run(&ov.ensure_parent(0, &c));
    disk.files.insert(ov.file_path(0, &c), b"AAAA".to_vec());
    disk.run(&ov.ensure_parent(1, &c));
    disk.files.insert(ov.file_path(1, &c), b"BBBB".to_vec());

    assert_eq!(disk.read(disk.lookup(&ov, 0, &c)), b"AAAA", "root 0 should read its own bytes");
    assert_eq!(
        disk.read(disk.lookup(&ov, 1, &c)),
        b"BBBB",
        "root 1 got root 0's overlay bytes back -- comps collided across roots"
    );

    disk.run(&ov.whiteout(0, &c));
    assert!(
        matches!(disk.lookup(&ov, 0, &c), OverlayState::Whiteout),
        "root 0 should read as whited-out"
    );
    assert_eq!(
        disk.read(disk.lookup(&ov, 1, &c)),
        b"BBBB",
        "root 1's file must survive root 0's whiteout"
    );
}

fn item(name: &str, size: u64) -> KeyedItem {
    KeyedItem {
        key: name.to_string(),
        base_key: whiteout_base(name).unwrap_or(name).to_string(),
        item: DirItem { name: name.to_string(), is_dir: false, size, mtime: 0 },
    }
}

fn entry(name: &str, wanted: bool) -> OverlayEntry {
    OverlayEntry {
        name: name.to_string(),
        key: name.to_string(),
        base_key: whiteout_base(name).unwrap_or(name).to_string(),
        meta: Some((false, 3, 4)),
        wanted,
    }
}

fn names(items: &[KeyedItem]) -> Vec<&str> {
    items.iter().map(|i| i.item.name.as_str()).collect()
}

#[test]
fn a_whiteout_marker_is_dropped_from_a_merged_listing_that_carries_it() {
    let mut disk = Disk::new();
    let ov = Overlay::new(ROOT);
    disk.run(&ov.whiteout(0, &comps(&["data", "gone.esp"])));
    let marker = whiteout_marker("gone.esp");
    assert!(disk.files.contains_key(&format!(r"C:\Overlay\root-0\data\{marker}")));
    let merged = vec![item("gone.esp", 10), item(&marker, 0), item("kept.esp", 20)];
    let out = ov.apply_to_listing(merged, Some(&[entry(&marker, true)]));
    let names = names(&out);
    assert!(
        !names.contains(&marker.as_str()),
        "the tombstone surfaced to the caller as a real file: {names:?}"
    );
    assert!(
        !names.contains(&"gone.esp"),
        "the whiteout must still hide the file it names: {names:?}"
    );
    assert!(names.contains(&"kept.esp"), "unrelated entries must survive: {names:?}");
}

#[test]
fn whiteout_under_one_root_is_absent_not_whiteout_under_another() {
    let mut disk = Disk::new();
    let ov = Overlay::new(ROOT);
    let c = comps(&["data", "solo.esp"]);
    disk.run(&ov.ensure_parent(0, &c));
    disk.files.insert(ov.file_path(0, &c), b"ROOT0-ONLY".to_vec());
    disk.run(&ov.whiteout(0, &c));
    assert!(
        matches!(disk.lookup(&ov, 0, &c), OverlayState::Whiteout),
        "root 0 should read as whited-out"
    );
    assert!(
        matches!(disk.lookup(&ov, 1, &c), OverlayState::Absent),
        "root 0's whiteout marker leaked into root 1's lookup for a path root 1 never wrote"
    );
}

#[test]
fn clearing_a_whiteout_brings_the_path_back() {
    let mut disk = Disk::new();
    let ov = Overlay::new(ROOT);
    let c = comps(&["data", "a.ini"]);
    disk.run(&ov.whiteout(2, &c));
    assert!(matches!(disk.lookup(&ov, 2, &c), OverlayState::Whiteout));
    disk.run(&ov.clear_whiteout(2, &c));
    assert!(matches!(disk.lookup(&ov, 2, &c), OverlayState::Absent));
    disk.run(&ov.clear_whiteout(2, &c));
}

#[test]
fn a_rename_moves_the_file_and_hides_its_old_name() {
    let mut disk = Disk::new();
    let ov = Overlay::new(ROOT);
    let from = comps(&["data", "a.ini"]);
    let to = comps(&["data", "b.ini"]);
    disk.files.insert(ov.file_path(0, &from), b"text".to_vec());
    disk.run(&ov.whiteout(0, &to));
    disk.run(&ov.rename(0, &from, &to));
    assert_eq!(disk.read(disk.lookup(&ov, 0, &to)), b"text");
    assert!(matches!(disk.lookup(&ov, 0, &from), OverlayState::Whiteout));
}

#[test]
fn paths_are_spelled_by_root_and_component() {
    let ov = Overlay::new(ROOT);
    assert_eq!(overlay_layer_dir(ROOT, 12), r"C:\Overlay\root-12");
    assert_eq!(overlay_layer_dir(r"C:\", 0), r"C:\root-0");
    assert_eq!(ov.file_path(0, &comps(&["a", "b"])), r"C:\Overlay\root-0\a\b");
    assert_eq!(ov.whiteout_path(0, &comps(&["a", "b"])), r"C:\Overlay\root-0\a\b.__vfs_wh__");
    assert_eq!(whiteout_marker("x"), "x.__vfs_wh__");
    assert_eq!(whiteout_base("x.__vfs_wh__"), Some("x"));
    assert_eq!(whiteout_base("x"), None);
}

#[test]
fn a_step_tolerates_what_it_says() {
    let step = |tolerates| FsStep { op: FsOp::Remove { path: "p".to_string() }, tolerates };
    for (t, missing, failed) in [
        (Tolerance::Nothing, false, false),
        (Tolerance::Missing, true, false),
        (Tolerance::Anything, true, true),
    ] {
        assert!(step_succeeded(&step(t), FsResult::Done));
        assert_eq!(step_succeeded(&step(t), FsResult::Missing), missing);
        assert_eq!(step_succeeded(&step(t), FsResult::Failed), failed);
    }
}

#[test]
fn overlay_entries_add_and_override_in_order() {
    let ov = Overlay::new(ROOT);
    let merged = vec![item("b.esp", 1), item("d.esp", 1)];
    let entries = [entry("c.esp", true), entry("b.esp", true), entry("a.txt", false)];
    let out = ov.apply_to_listing(merged, Some(&entries));
    assert_eq!(names(&out), ["b.esp", "c.esp", "d.esp"]);
    assert_eq!(out[0].item.size, 3);
    let out = ov.apply_to_listing(vec![item("b.esp", 1)], None);
    assert_eq!(names(&out), ["b.esp"]);
}

#[test]
fn markers_are_stripped_with_the_names_they_hide() {
    let out = strip_whiteout_markers(vec![
        item("a.esp", 1),
        item("b.esp", 1),
        item("a.esp.__vfs_wh__", 0),
    ]);
    assert_eq!(names(&out), ["b.esp"]);
}

#[test]
fn names_that_stand_for_one_step_are_plain() {
    let names = |c: &[&str]| c.iter().map(|s| s.to_string()).collect::<Vec<_>>();
    assert!(are_plain(&[]));
    assert!(are_plain(&names(&["data", "a.esp"])));
    for bad in ["", r"a\b", "a/b", "c:"] {
        assert!(!are_plain(&names(&["data", bad])), "{bad}");
    }
}
