use vfs_shim::fuse_synth::{lookup, open_fuse, FuseTable};
use vfs_shim::hook::section::{
    close_hook, eager_section, filled, fuse_create_section, image_cache_name,
    image_temp_name, map_view_hook, unfilled_status, unmap_view_hook, CloseStep,
    MapRequest, MapStep, SectionPlan, SectionRequest, EAGER_MAX,
};
use vfs_shim::hook::tables::{record_path, tracked_path, HandleTables};
use vfs_shim::lazy_section::{RegionTable, MAX_LAZY};
use vfs_shim::ntdef::{
    SEC_IMAGE, STATUS_INVALID_FILE_FOR_SECTION, STATUS_INVALID_HANDLE, STATUS_SECTION_TOO_BIG,
    STATUS_SUCCESS, STATUS_UNSUCCESSFUL,
};
use vfs_shim::zipserve::{is_synth_section, SectionTable, ViewTable};

fn request(file: u64) -> SectionRequest {
    SectionRequest {
        file,
        alloc_attrs: 0,
        max_size: None,
        reject_all: false,
        reject_data: false,
        has_client: true,
    }
}

#[test]
fn files_are_mapped_whole_or_on_demand_by_their_size() {
    let mut t = FuseTable::new();
    let small = open_fuse(&mut t, 1, EAGER_MAX, false);
    let large = open_fuse(&mut t, 2, EAGER_MAX + 1, false);
    let huge = open_fuse(&mut t, 3, MAX_LAZY + 1, false);
    let dir = open_fuse(&mut t, 4, 10, true);
    let empty = open_fuse(&mut t, 5, 0, false);
    assert_eq!(
        fuse_create_section(&t, request(small)),
        SectionPlan::Eager { fh: 1, size: EAGER_MAX }
    );
    assert_eq!(
        fuse_create_section(&t, request(large)),
        SectionPlan::Lazy { fh: 2, size: EAGER_MAX + 1 }
    );
    assert_eq!(
        fuse_create_section(&t, request(huge)),
        SectionPlan::Refuse(STATUS_SECTION_TOO_BIG)
    );
    for h in [dir, empty] {
        assert_eq!(
            fuse_create_section(&t, request(h)),
            SectionPlan::Refuse(STATUS_INVALID_FILE_FOR_SECTION)
        );
    }
    let image = SectionRequest { alloc_attrs: SEC_IMAGE, ..request(small) };
    assert_eq!(
        fuse_create_section(&t, image),
        SectionPlan::Image { fh: 1, size: EAGER_MAX }
    );
    assert_eq!(fuse_create_section(&t, request(0x44)), SectionPlan::Real);
    assert_eq!(
        fuse_create_section(&t, request(huge + 100)),
        SectionPlan::Refuse(STATUS_INVALID_HANDLE)
    );
    let too_big = SectionRequest { max_size: Some(EAGER_MAX as i64 + 1), ..request(small) };
    assert_eq!(
        fuse_create_section(&t, too_big),
        SectionPlan::Refuse(STATUS_SECTION_TOO_BIG)
    );
    let alone = SectionRequest { has_client: false, ..request(small) };
    assert_eq!(fuse_create_section(&t, alone), SectionPlan::Refuse(STATUS_UNSUCCESSFUL));
    for switched in [
        SectionRequest { reject_all: true, ..request(small) },
        SectionRequest { reject_data: true, ..request(small) },
    ] {
        assert_eq!(
            fuse_create_section(&t, switched),
            SectionPlan::Refuse(STATUS_INVALID_FILE_FOR_SECTION)
        );
    }
}

#[test]
fn a_section_is_as_long_as_what_was_read() {
    assert_eq!(filled(10, Some(10)), Some(10));
    assert_eq!(filled(10, Some(4)), Some(4));
    assert_eq!(filled(10, Some(0)), None);
    assert_eq!(filled(10, None), None);
    assert!(unfilled_status(true) < 0);
    assert!(unfilled_status(false) < 0);
}

#[test]
fn images_are_cached_under_the_hash_of_path_and_length() {
    // FNV-1a over the lower-cased path and the length.
    let mut h: u64 = 0xcbf2_9ce4_8422_2325;
    for b in b"data/a.dll".iter().copied().chain(77u64.to_le_bytes()) {
        h = (h ^ b as u64).wrapping_mul(0x1000_0000_01b3);
    }
    let name = image_cache_name("Data/A.dll", 77);
    assert!(name.contains(&format!("{h:016x}")), "{name}");
    assert_eq!(name, image_cache_name("data/a.DLL", 77));
    assert_ne!(name, image_cache_name("data/a.dll", 78));
    let temp = image_temp_name("Data/A.dll", 77, 42);
    assert_ne!(temp, name);
    assert!(temp.contains("42"), "{temp}");
}

#[test]
fn views_are_mapped_within_their_section_and_given_back() {
    let mut regions = RegionTable::new();
    let mut sections = SectionTable::new();
    let mut views = ViewTable::new();
    let base = 0x1_0000_0000u64;
    let h = eager_section(&mut regions, &mut sections, base, 0x10000);
    assert!(is_synth_section(h));
    let q = MapRequest { section: h, offset: Some(0x1000), size: None, preferred: 0 };
    assert_eq!(
        map_view_hook(&sections, &mut views, q),
        MapStep::Mapped { base: base + 0x1000, size: 0xf000, offset: 0x1000 }
    );
    let behind = MapRequest { offset: Some(0x10000), ..q };
    assert_eq!(map_view_hook(&sections, &mut views, behind), MapStep::Fail(STATUS_UNSUCCESSFUL));
    let negative = MapRequest { offset: Some(-1), ..q };
    assert_eq!(
        map_view_hook(&sections, &mut views, negative),
        MapStep::Fail(STATUS_UNSUCCESSFUL)
    );
    let elsewhere = MapRequest { preferred: base, ..q };
    assert_eq!(
        map_view_hook(&sections, &mut views, elsewhere),
        MapStep::Fail(STATUS_UNSUCCESSFUL)
    );
    let foreign = MapRequest { section: 0x44, ..q };
    assert_eq!(map_view_hook(&sections, &mut views, foreign), MapStep::Real);

    let mut tables = HandleTables::new();
    let mut fuse = FuseTable::new();
    assert_eq!(
        close_hook(&mut tables, &mut fuse, &mut sections, &mut regions, &views, h),
        CloseStep::Section(None)
    );
    assert_eq!(unmap_view_hook(&mut regions, &mut views, 0x44), None);
    assert_eq!(
        unmap_view_hook(&mut regions, &mut views, base + 0x1000),
        Some(Some(base))
    );
}

#[test]
fn pseudo_handles_are_no_sections() {
    let mut sections = SectionTable::new();
    let mut regions = RegionTable::new();
    let mut views = ViewTable::new();
    let h = eager_section(&mut regions, &mut sections, 0x1_0000_0000, 0x10000);
    assert!(is_synth_section(h) && h < 1 << 63);
    for pseudo in -6i64..=-1 {
        let handle = pseudo as u64;
        assert!(!is_synth_section(handle), "{pseudo}");
        let q = MapRequest { section: handle, offset: None, size: None, preferred: 0 };
        assert_eq!(map_view_hook(&sections, &mut views, q), MapStep::Real);
    }
}

#[test]
fn closing_a_synthetic_file_tells_the_director() {
    let mut regions = RegionTable::new();
    let mut sections = SectionTable::new();
    let views = ViewTable::new();
    let mut tables = HandleTables::new();
    let mut fuse = FuseTable::new();
    let h = open_fuse(&mut fuse, 9, 10, false);
    record_path(&mut tables, Some(h), Some("p"), true, STATUS_SUCCESS);
    assert_eq!(
        close_hook(&mut tables, &mut fuse, &mut sections, &mut regions, &views, h),
        CloseStep::File(Some(9))
    );
    assert_eq!(lookup(&fuse, h), None);
    assert_eq!(tracked_path(&tables, h), None);
    record_path(&mut tables, Some(8), Some("p"), true, STATUS_SUCCESS);
    assert_eq!(
        close_hook(&mut tables, &mut fuse, &mut sections, &mut regions, &views, 8),
        CloseStep::Real
    );
    assert_eq!(tracked_path(&tables, 8), None);
}
