use vfs_shim::lazy_section::{
    align_up, chunk_is_there, create_lazy_data_section, ensure_range, fill_chunk_at, forget,
    is_lazy_base, note_chunk, on_section_closed, on_view_unmapped, region_key, reserve_for,
    settle_page, track_eager_section, veh_handler, warm_bytes, ChunkFill, Fault, FillPlan,
    RegionTable, CHUNK, MAX_LAZY, STATUS_ACCESS_VIOLATION, WARM_BYTES,
};
use vfs_shim::zipserve::{
    close_section, is_synth_section, is_synth_view, map_view, register_mapped_image, unmap_view,
    SectionTable, ViewTable,
};

const SIZE: u64 = 8 * 1024 * 1024;
const BASE: u64 = 0x1_0000_0000;

/// The three tables, and the bases whose address space was given back.
struct Process {
    regions: RegionTable,
    sections: SectionTable,
    views: ViewTable,
    freed: Vec<u64>,
}

impl Process {
    fn new() -> Process {
        Process {
            regions: RegionTable::new(),
            sections: SectionTable::new(),
            views: ViewTable::new(),
            freed: Vec::new(),
        }
    }

    fn create(&mut self, base: u64) -> u64 {
        create_lazy_data_section(&mut self.regions, &mut self.sections, Some(base), 9, SIZE)
            .expect("create section")
    }

    fn map(&mut self, h: u64, off: u64, want: u64) -> u64 {
        map_view(&self.sections, &mut self.views, h, off, want).expect("map_view").0
    }

    fn unmap(&mut self, base: u64) {
        unmap_view(&mut self.views, base);
        self.freed.extend(on_view_unmapped(&mut self.regions, &self.views, base));
    }

    fn close(&mut self, h: u64) {
        if let Some(window) = close_section(&mut self.sections, h) {
            self.freed.extend(on_section_closed(&mut self.regions, &self.views, window));
        }
    }

    fn is_free(&self, base: u64) -> bool {
        self.freed.contains(&base)
    }
}

#[test]
fn unmapping_a_view_leaves_the_open_section_usable() {
    let mut p = Process::new();
    let h = p.create(BASE);
    let base = p.map(h, 0, 0);
    p.unmap(base);
    assert!(!p.is_free(base), "unmapping one view released the whole section's VA");
    let again = p.map(h, 0, 0);
    assert!(
        is_lazy_base(&p.regions, again),
        "remapped view is no longer demand-pageable — next touch faults to a crash"
    );
    p.unmap(again);
    p.close(h);
}

#[test]
fn unmapping_an_offset_view_keeps_sibling_views_alive() {
    let mut p = Process::new();
    let h = p.create(BASE);
    let head = p.map(h, 0, 64 * 1024);
    let off = 4 * 1024 * 1024u64;
    let tail = p.map(h, off, 64 * 1024);
    assert_eq!(tail, head + off);
    p.unmap(tail);
    assert!(!p.is_free(head), "unmapping an offset view freed the base view still in use");
    assert!(is_lazy_base(&p.regions, head), "head view lost its demand-paging");
    p.unmap(head);
    p.close(h);
}

#[test]
fn closing_the_section_releases_the_reservation() {
    let mut p = Process::new();
    let h = p.create(BASE);
    let base = p.map(h, 0, 0);
    p.unmap(base);
    p.close(h);
    assert!(p.is_free(base), "closing the section leaked its reservation");
    assert_eq!(region_key(&p.regions, base), None);
}

#[test]
fn a_closed_section_with_a_live_view_keeps_its_pages() {
    let mut p = Process::new();
    let h = p.create(BASE);
    let base = p.map(h, 0, 0);
    p.close(h);
    assert!(!p.is_free(base), "closing the handle freed pages still mapped into the process");
    p.unmap(base);
    assert!(p.is_free(base), "last unmap should reap the region");
}

#[test]
fn two_views_at_one_base_are_refcounted() {
    let mut p = Process::new();
    let h = p.create(BASE);
    let a = p.map(h, 0, 0);
    let b = p.map(h, 0, 0);
    assert_eq!(a, b);
    p.unmap(a);
    assert!(
        is_synth_view(&p.views, b),
        "first unmap forgot a base the process still has mapped"
    );
    assert!(!p.is_free(b));
    p.unmap(b);
    p.close(h);
    assert!(p.is_free(a));
}

#[test]
fn eager_sections_are_freed_on_close() {
    let mut p = Process::new();
    let size = 1024 * 1024u64;
    let base = BASE;
    assert!(track_eager_section(&mut p.regions, base, size));
    let h = register_mapped_image(&mut p.sections, base, size);
    assert!(is_synth_section(h));
    let mapped = p.map(h, 0, 0);
    assert!(!is_lazy_base(&p.regions, mapped), "eager region must not be demand-paged");
    p.unmap(mapped);
    p.close(h);
    assert!(p.is_free(base), "eager section allocation leaked on close");
}

#[test]
fn oversized_files_are_still_mappable() {
    assert!(MAX_LAZY > 8 * 1024 * 1024 * 1024);
    assert_eq!(reserve_for(8 * 1024 * 1024 * 1024 + 1), Some(8 * 1024 * 1024 * 1024 + 4096));
}

#[test]
fn reservations_are_whole_pages_and_bounded() {
    assert_eq!(align_up(1, 4096), 4096);
    assert_eq!(align_up(4096, 4096), 4096);
    assert_eq!(reserve_for(0), None);
    assert_eq!(reserve_for(MAX_LAZY), Some(MAX_LAZY));
    assert_eq!(reserve_for(MAX_LAZY + 1), None);
    assert_eq!(warm_bytes(100), 100);
    assert_eq!(warm_bytes(u64::MAX), WARM_BYTES);
}

#[test]
fn a_section_without_address_space_is_refused() {
    let mut p = Process::new();
    assert_eq!(
        create_lazy_data_section(&mut p.regions, &mut p.sections, None, 9, SIZE),
        None
    );
}

#[test]
fn a_chunk_is_filled_once_and_where_it_lies() {
    let mut p = Process::new();
    p.create(BASE);
    let addr = BASE + CHUNK + 5;
    let fill = ChunkFill {
        base: BASE,
        fh: 9,
        chunk: 1,
        offset: CHUNK,
        commit: CHUNK,
        readable: CHUNK,
    };
    assert_eq!(fill_chunk_at(&p.regions, addr), FillPlan::Fill(fill));
    assert!(!chunk_is_there(&p.regions, BASE, 1));
    note_chunk(&mut p.regions, BASE, 1);
    assert!(chunk_is_there(&p.regions, BASE, 1));
    assert_eq!(fill_chunk_at(&p.regions, addr), FillPlan::Ready);
    assert_eq!(fill_chunk_at(&p.regions, BASE - 1), FillPlan::NotOurs);
    assert_eq!(fill_chunk_at(&p.regions, BASE + SIZE), FillPlan::NotOurs);
    assert_eq!(ensure_range(BASE, 0, CHUNK + 1), vec![BASE, BASE + CHUNK]);
    assert_eq!(ensure_range(BASE, 0, 0), Vec::<u64>::new());
    forget(&mut p.regions, BASE);
    assert_eq!(fill_chunk_at(&p.regions, addr), FillPlan::NotOurs);
}

#[test]
fn the_last_chunk_reads_no_further_than_the_file() {
    let mut p = Process::new();
    let size = CHUNK + 10;
    create_lazy_data_section(&mut p.regions, &mut p.sections, Some(BASE), 9, size);
    match fill_chunk_at(&p.regions, BASE + CHUNK) {
        FillPlan::Fill(f) => {
            assert_eq!((f.commit, f.readable), (4096, 10));
        }
        other => panic!("{other:?}"),
    }
}

#[test]
fn what_a_read_did_not_fill_is_zero() {
    let mut page = vec![7u8; 8];
    settle_page(&mut page, 6, Some(4));
    assert_eq!(page, [7, 7, 7, 7, 0, 0, 0, 0]);
    let mut page = vec![7u8; 8];
    settle_page(&mut page, 6, Some(100));
    assert_eq!(page, [7, 7, 7, 7, 7, 7, 0, 0]);
    let mut page = vec![7u8; 8];
    settle_page(&mut page, 6, None);
    assert_eq!(page, [0; 8]);
}

#[test]
fn only_own_faults_are_served() {
    let mut p = Process::new();
    p.create(BASE);
    let own = Fault {
        record: true,
        in_handler: false,
        on_worker: false,
        code: STATUS_ACCESS_VIOLATION,
        params: 2,
        address: BASE + 1,
    };
    assert!(veh_handler(&p.regions, &own));
    assert!(!veh_handler(&p.regions, &Fault { record: false, ..own }));
    assert!(!veh_handler(&p.regions, &Fault { in_handler: true, ..own }));
    assert!(!veh_handler(&p.regions, &Fault { on_worker: true, ..own }));
    assert!(!veh_handler(&p.regions, &Fault { code: 0x8000_0003, ..own }));
    assert!(!veh_handler(&p.regions, &Fault { params: 1, ..own }));
    assert!(!veh_handler(&p.regions, &Fault { address: BASE - 1, ..own }));
}
