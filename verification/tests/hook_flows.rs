use vfs_shim::fuse_client::RingStatus;
use vfs_shim::fuse_synth::{open_fuse, FuseTable, FUSE_TAG};
use vfs_shim::hook::enumerate::{serve_dir_query, DirAsk, DirEvent};
use vfs_shim::hook::listing::DirStatus;
use vfs_shim::hook::make_section::{
    advance_section, create_section_hook, SectionEvent, SectionPhase, SectionStep,
};
use vfs_shim::hook::object_name::{qobj_begin, NameEvent, NameStep, FIRST_ROOM};
use vfs_shim::hook::section::{SectionRequest, EAGER_MAX};
use vfs_shim::hook::setinfo::{setinfo_hook, SetKind};
use vfs_shim::hook::tables::{reclaim, record_path, tag_under_root, HandleTables};
use vfs_shim::hookstats::{snapshot, Stats};
use vfs_shim::lazy_fill::{fill_advance, fill_begin, FillEvent, FillPhase, FillStep};
use vfs_shim::lazy_section::{
    create_lazy_data_section, is_lazy_base, region_key, RegionTable, CHUNK, WARM_BYTES,
};
use vfs_shim::ntdef::{
    FILE_BASIC_INFORMATION, FILE_DISPOSITION_INFORMATION, FILE_RENAME_INFORMATION,
    OBJECT_NAME_INFORMATION, SEC_IMAGE, STATUS_BUFFER_OVERFLOW, STATUS_INFO_LENGTH_MISMATCH,
    STATUS_INVALID_FILE_FOR_SECTION, STATUS_SECTION_TOO_BIG, STATUS_SUCCESS,
    STATUS_UNSUCCESSFUL,
};
use vfs_shim::overlay::{whiteout_marker, DirItem, KeyedItem};
use vfs_shim::zipserve::{is_synth_section, SectionTable};

const DIR: &str = r"\??\C:\game\data";

// Object names.

/// The system's answer for `name`.
fn name_block(name: &str) -> Vec<u8> {
    let units: Vec<u16> = name.encode_utf16().collect();
    let mut b = Vec::new();
    b.extend(((units.len() * 2) as u16).to_le_bytes());
    b.extend(((units.len() * 2 + 2) as u16).to_le_bytes());
    b.extend([0u8; 12]);
    for u in units {
        b.extend(u.to_le_bytes());
    }
    b.extend([0u8; 2]);
    b
}

fn known_as(path: &str) -> HandleTables {
    let mut t = HandleTables::new();
    record_path(&mut t, Some(8), Some(path), true, STATUS_SUCCESS);
    t
}

#[test]
fn the_name_follows_the_form_of_the_systems_answer() {
    let t = known_as(r"\??\C:\game\a.esm");
    let (mut run, step) = qobj_begin(&t, 8, OBJECT_NAME_INFORMATION).unwrap();
    assert!(matches!(step, NameStep::Ask { room: FIRST_ROOM }));
    let block = name_block(r"\??\D:\mods\a.esm");
    match run.advance(NameEvent::Asked { status: 0, needed: 0, block }) {
        NameStep::Answer { name } => assert_eq!(name, r"\??\C:\game\a.esm"),
        _ => panic!("no name"),
    }

    let (mut run, _) = qobj_begin(&t, 8, OBJECT_NAME_INFORMATION).unwrap();
    let block = name_block(r"\Device\HarddiskVolume5\mods\a.esm");
    match run.advance(NameEvent::Asked { status: 0, needed: 0, block }) {
        NameStep::Device { drive } => assert_eq!(drive, "C:"),
        _ => panic!("the device is not asked for"),
    }
    match run.advance(NameEvent::Device(Some(r"\Device\HarddiskVolume3".to_string()))) {
        NameStep::Answer { name } => assert_eq!(name, r"\Device\HarddiskVolume3\game\a.esm"),
        _ => panic!("no name"),
    }
}

#[test]
fn the_system_is_asked_again_with_the_room_that_it_wants() {
    let t = known_as(r"\??\C:\game\a.esm");
    for status in [STATUS_BUFFER_OVERFLOW, STATUS_INFO_LENGTH_MISMATCH] {
        let (mut run, _) = qobj_begin(&t, 8, OBJECT_NAME_INFORMATION).unwrap();
        let asked = NameEvent::Asked { status, needed: 5000, block: vec![0; 2048] };
        assert!(matches!(run.advance(asked), NameStep::Ask { room: 5000 }));
        // It is not asked a third time.
        let asked = NameEvent::Asked { status, needed: 9000, block: vec![0; 5000] };
        assert!(matches!(run.advance(asked), NameStep::Real));
    }
}

#[test]
fn what_cannot_be_told_in_that_form_is_left_to_the_system() {
    let t = known_as(r"\??\C:\game\a.esm");
    assert!(qobj_begin(&t, 8, 2).is_none());
    assert!(qobj_begin(&t, 9, OBJECT_NAME_INFORMATION).is_none());
    for (status, block) in [
        (STATUS_UNSUCCESSFUL, name_block(r"\??\D:\a")),
        (0, name_block(r"C:\plain")),
        (0, vec![0; 64]),
        (0, vec![]),
    ] {
        let (mut run, _) = qobj_begin(&t, 8, OBJECT_NAME_INFORMATION).unwrap();
        let step = run.advance(NameEvent::Asked { status, needed: 0, block });
        assert!(matches!(step, NameStep::Real));
    }
    let (mut run, _) = qobj_begin(&t, 8, OBJECT_NAME_INFORMATION).unwrap();
    let block = name_block(r"\Device\HarddiskVolume5\a");
    run.advance(NameEvent::Asked { status: 0, needed: 0, block });
    assert!(matches!(run.advance(NameEvent::Device(None)), NameStep::Real));
}

// Enumerations.

fn item(name: &str) -> DirItem {
    DirItem { name: name.to_string(), is_dir: false, size: 1, mtime: 0 }
}

fn keyed(name: &str, base: &str) -> KeyedItem {
    KeyedItem { key: name.to_string(), base_key: base.to_string(), item: item(name) }
}

fn listed_dir() -> HandleTables {
    let mut t = HandleTables::new();
    tag_under_root(&mut t, Some(8), Some(DIR), true, STATUS_SUCCESS);
    t
}

fn names(items: &[DirItem]) -> Vec<&str> {
    items.iter().map(|i| i.name.as_str()).collect()
}

#[test]
fn the_director_lists_what_it_knows() {
    let mut s = Stats::new(true);
    let mut t = listed_dir();
    let (mut run, ask) =
        serve_dir_query(&mut s, &t, 8, true, false, Some("*.esp".to_string()));
    assert!(matches!(ask, DirAsk::Route { dir } if dir == DIR));
    let ask = run.advance(&mut s, &mut t, DirEvent::Routed(Some((3, String::new()))));
    assert!(matches!(ask, DirAsk::Readdir { root: 3, vpath } if vpath == "."));
    let entries = vec![
        keyed("a.esp", "a.esp"),
        keyed("b.txt", "b.txt"),
        keyed("gone.esp", "gone.esp"),
        keyed(&whiteout_marker("gone.esp"), "gone.esp"),
    ];
    let names_asked = match run.advance(&mut s, &mut t, DirEvent::Listed(Ok(entries))) {
        DirAsk::Match { names } => names,
        _ => panic!("the names are not matched"),
    };
    assert_eq!(names_asked, ["a.esp", "b.txt"]);
    let ask = run.advance(&mut s, &mut t, DirEvent::Matched(vec![true, false]));
    match ask {
        DirAsk::Write { entries } => assert_eq!(names(&entries), ["a.esp"]),
        _ => panic!("nothing is handed out"),
    }
    let written = DirEvent::Written { count: 1, bytes: 96, status: DirStatus::Success };
    let ask = run.advance(&mut s, &mut t, written);
    assert!(matches!(ask, DirAsk::Finish { status: STATUS_SUCCESS, bytes: 96 }));

    // The next call goes on where this one ended.
    let (_, ask) = serve_dir_query(&mut s, &t, 8, true, false, None);
    assert!(matches!(ask, DirAsk::Write { entries } if entries.is_empty()));
    assert_eq!(snapshot(&s).readdirs.len(), 1);
}

#[test]
fn without_the_director_the_overlay_lists() {
    let mut s = Stats::new(true);
    let mut t = listed_dir();
    let (mut run, _) = serve_dir_query(&mut s, &t, 8, true, false, None);
    let ask = run.advance(&mut s, &mut t, DirEvent::Routed(None));
    assert!(matches!(ask, DirAsk::Overlay { dir } if dir == DIR));
    let ask = run.advance(&mut s, &mut t, DirEvent::OverlayListed(vec![item("x")]));
    assert!(matches!(ask, DirAsk::Write { entries } if names(&entries) == ["x"]));
}

#[test]
fn a_director_that_fails_lists_nothing() {
    let mut s = Stats::new(false);
    let mut t = listed_dir();
    let (mut run, _) = serve_dir_query(&mut s, &t, 8, true, false, None);
    run.advance(&mut s, &mut t, DirEvent::Routed(Some((0, "data".to_string()))));
    let ask = run.advance(&mut s, &mut t, DirEvent::Listed(Err(RingStatus::IoError)));
    assert!(matches!(ask, DirAsk::Match { names } if names.is_empty()));
    let ask = run.advance(&mut s, &mut t, DirEvent::Matched(vec![]));
    assert!(matches!(ask, DirAsk::Write { entries } if entries.is_empty()));
}

#[test]
fn an_enumeration_whose_handle_is_closed_goes_to_the_system() {
    let mut s = Stats::new(false);
    let mut t = listed_dir();
    let (mut run, _) = serve_dir_query(&mut s, &t, 8, true, false, None);
    run.advance(&mut s, &mut t, DirEvent::Routed(None));
    reclaim(&mut t, 8);
    let ask = run.advance(&mut s, &mut t, DirEvent::OverlayListed(vec![item("x")]));
    assert!(matches!(ask, DirAsk::Real));
    let (_, ask) = serve_dir_query(&mut s, &t, 8, true, false, None);
    assert!(matches!(ask, DirAsk::Real));
    let (_, ask) = serve_dir_query(&mut s, &listed_dir(), 8, false, false, None);
    assert!(matches!(ask, DirAsk::Real));
}

// Sections.

struct Memory {
    fuse: FuseTable,
    regions: RegionTable,
    sections: SectionTable,
}

impl Memory {
    fn new() -> Memory {
        Memory {
            fuse: FuseTable::new(),
            regions: RegionTable::new(),
            sections: SectionTable::new(),
        }
    }

    fn begin(&mut self, size: u64, alloc_attrs: u32) -> (SectionPhase, SectionStep) {
        let file = open_fuse(&mut self.fuse, 5, size, false);
        let q = SectionRequest {
            file,
            alloc_attrs,
            max_size: None,
            reject_all: false,
            reject_data: false,
            has_client: true,
        };
        create_section_hook(&self.fuse, q)
    }

    fn advance(&mut self, phase: SectionPhase, e: SectionEvent) -> (SectionPhase, SectionStep) {
        advance_section(phase, &mut self.regions, &mut self.sections, e)
    }
}

fn finish(step: SectionStep) -> (i32, Option<u64>, Option<u64>) {
    match step {
        SectionStep::Finish { status, handle, release } => (status, handle, release),
        _ => panic!("the section is not answered"),
    }
}

#[test]
fn a_small_file_is_read_in_whole() {
    let mut m = Memory::new();
    let (phase, step) = m.begin(0x3000, 0);
    assert!(matches!(step, SectionStep::Allocate { size: 0x3000 }));
    let (phase, step) = m.advance(phase, SectionEvent::Allocated(Some(0x10000)));
    assert!(matches!(step, SectionStep::Fill { fh: 5, base: 0x10000, size: 0x3000 }));
    let (_, step) = m.advance(phase, SectionEvent::Filled(Some(0x3000)));
    let (status, handle, release) = finish(step);
    assert_eq!((status, release), (STATUS_SUCCESS, None));
    assert!(is_synth_section(handle.unwrap()));
    assert_eq!(region_key(&m.regions, 0x12fff), Some(0x10000));
}

#[test]
fn a_file_that_cannot_be_read_gives_its_memory_back() {
    let mut m = Memory::new();
    for read in [None, Some(0)] {
        let (phase, _) = m.begin(0x3000, 0);
        let (phase, _) = m.advance(phase, SectionEvent::Allocated(Some(0x10000)));
        let (_, step) = m.advance(phase, SectionEvent::Filled(read));
        assert_eq!(finish(step), (STATUS_UNSUCCESSFUL, None, Some(0x10000)));
        assert_eq!(region_key(&m.regions, 0x10000), None);
    }
    let (phase, _) = m.begin(0x3000, 0);
    let (_, step) = m.advance(phase, SectionEvent::Allocated(None));
    assert_eq!(finish(step), (STATUS_UNSUCCESSFUL, None, None));
}

#[test]
fn a_large_file_is_brought_in_by_faults() {
    let mut m = Memory::new();
    let size = EAGER_MAX + 1;
    let (phase, step) = m.begin(size, 0);
    assert!(matches!(step, SectionStep::Reserve { size: n } if n == EAGER_MAX + 4096));
    let (phase, step) = m.advance(phase, SectionEvent::Reserved(Some(0x1_0000_0000)));
    match step {
        SectionStep::Warm { chunks } => {
            assert_eq!(chunks.len() as u64, WARM_BYTES / CHUNK);
            assert_eq!(chunks[0], 0x1_0000_0000);
        }
        _ => panic!("nothing is brought in"),
    }
    assert!(is_lazy_base(&m.regions, 0x1_0000_0000));
    let (_, step) = m.advance(phase, SectionEvent::Warmed);
    let (status, handle, _) = finish(step);
    assert_eq!(status, STATUS_SUCCESS);
    assert!(is_synth_section(handle.unwrap()));

    let (phase, _) = m.begin(size, 0);
    let (_, step) = m.advance(phase, SectionEvent::Reserved(None));
    assert_eq!(finish(step), (STATUS_SECTION_TOO_BIG, None, None));
}

#[test]
fn an_image_is_the_systems_where_the_system_takes_it() {
    let mut m = Memory::new();
    let read = SectionEvent::ImageRead { read: Some(0x800), is_image: true };
    let (phase, step) = m.begin(0x1000, SEC_IMAGE);
    assert!(matches!(step, SectionStep::ReadImage { fh: 5, size: 0x1000 }));
    let (phase, step) = m.advance(phase, read);
    assert!(matches!(step, SectionStep::Copy { len: 0x800 }));
    let (_, step) = m.advance(phase, SectionEvent::Copied(Some(STATUS_SUCCESS)));
    assert_eq!(finish(step), (STATUS_SUCCESS, None, None));

    // What the system does not take is mapped by hand.
    let (phase, _) = m.begin(0x1000, SEC_IMAGE);
    let (phase, _) = m.advance(phase, read);
    let (phase, step) = m.advance(phase, SectionEvent::Copied(None));
    assert!(matches!(step, SectionStep::MapImage));
    let (_, step) = m.advance(phase, SectionEvent::Mapped(Some((0x1000, 0x2000))));
    assert!(finish(step).1.is_some());

    let (phase, _) = m.begin(0x1000, SEC_IMAGE);
    let (phase, _) = m.advance(phase, read);
    let (phase, _) = m.advance(phase, SectionEvent::Copied(Some(STATUS_UNSUCCESSFUL)));
    let (_, step) = m.advance(phase, SectionEvent::Mapped(None));
    assert_eq!(finish(step), (STATUS_INVALID_FILE_FOR_SECTION, None, None));
}

#[test]
fn bytes_that_are_no_image_get_no_image_section() {
    let mut m = Memory::new();
    for e in [
        SectionEvent::ImageRead { read: Some(0x1000), is_image: false },
        SectionEvent::ImageRead { read: None, is_image: false },
        SectionEvent::ImageRead { read: Some(0), is_image: true },
    ] {
        let (phase, _) = m.begin(0x1000, SEC_IMAGE);
        let (_, step) = m.advance(phase, e);
        assert_eq!(finish(step), (STATUS_INVALID_FILE_FOR_SECTION, None, None));
    }
}

#[test]
fn a_section_over_a_real_file_is_the_systems() {
    let q = SectionRequest {
        file: 0x44,
        alloc_attrs: 0,
        max_size: None,
        reject_all: true,
        reject_data: true,
        has_client: true,
    };
    let (_, step) = create_section_hook(&FuseTable::new(), q);
    assert!(matches!(step, SectionStep::Real));
}

// Faults.

#[test]
fn a_fault_commits_reads_settles_and_then_the_chunk_is_there() {
    let mut s = Stats::new(true);
    let mut regions = RegionTable::new();
    let mut sections = SectionTable::new();
    let base = 0x1_0000_0000;
    create_lazy_data_section(&mut regions, &mut sections, Some(base), 9, CHUNK + 10).unwrap();
    let addr = base + CHUNK + 3;
    let (phase, step) = fill_begin(&regions, addr);
    let FillStep::Commit(c) = step else { panic!("nothing is committed") };
    assert_eq!((c.offset, c.commit, c.readable), (CHUNK, 4096, 10));
    let (phase, step) =
        fill_advance(phase, &mut s, &mut regions, FillEvent::Committed(true));
    assert_eq!(step, FillStep::Read(c));
    let read = FillEvent::Read { read: Some(7), nanos: 50 };
    let (phase, step) = fill_advance(phase, &mut s, &mut regions, read);
    assert_eq!(step, FillStep::Settle { chunk: c, read: Some(7) });
    let (phase, step) = fill_advance(phase, &mut s, &mut regions, FillEvent::Settled);
    assert_eq!((phase, step), (FillPhase::Ended, FillStep::Over(true)));
    assert_eq!(fill_begin(&regions, addr).1, FillStep::Over(true));
    assert!(matches!(fill_begin(&regions, base).1, FillStep::Commit(_)));
    assert_eq!(fill_begin(&regions, base - 1).1, FillStep::Over(false));
    let snap = snapshot(&s);
    assert_eq!((snap.fills_started, snap.fills_completed, snap.fills_failed), (1, 1, 0));
    assert_eq!((snap.fill_bytes, snap.fill_nanos, snap.fill_max_nanos), (7, 50, 50));
}

#[test]
fn memory_that_cannot_be_committed_passes_the_fault_on() {
    let mut s = Stats::new(true);
    let mut regions = RegionTable::new();
    let mut sections = SectionTable::new();
    create_lazy_data_section(&mut regions, &mut sections, Some(0x10000), 9, 100).unwrap();
    let (phase, _) = fill_begin(&regions, 0x10000);
    let (_, step) = fill_advance(phase, &mut s, &mut regions, FillEvent::Committed(false));
    assert_eq!(step, FillStep::Over(false));

    // Another thread brought the chunk in meanwhile.
    let (phase, _) = fill_begin(&regions, 0x10000);
    vfs_shim::lazy_section::note_chunk(&mut regions, 0x10000, 0);
    let (_, step) = fill_advance(phase, &mut s, &mut regions, FillEvent::Committed(false));
    assert_eq!(step, FillStep::Over(true));
}

// Changes through a handle.

#[test]
fn a_change_is_taken_up_by_its_handle_and_class() {
    assert_eq!(setinfo_hook(FUSE_TAG | 8, FILE_BASIC_INFORMATION, &[]), SetKind::Synthetic);
    assert_eq!(
        setinfo_hook(8, FILE_DISPOSITION_INFORMATION, &[1]),
        SetKind::Change { is_delete: true }
    );
    assert_eq!(setinfo_hook(8, FILE_DISPOSITION_INFORMATION, &[0]), SetKind::Real);
    assert_eq!(
        setinfo_hook(8, FILE_RENAME_INFORMATION, &[]),
        SetKind::Change { is_delete: false }
    );
    assert_eq!(setinfo_hook(8, FILE_BASIC_INFORMATION, &[1]), SetKind::Real);
}
