use vfs_shim::fuse_client::{Attr, RingStatus};
use vfs_shim::fuse_synth::{open_fuse, set_position, FuseTable};
use vfs_shim::hook::query::{
    answer_object_name, attributes_block, can_fill, device_for_drive, fill_by_name,
    full_attributes_block, fuse_path_attr, fuse_query_information, name_needs_room, name_status, object_name_in, qattr_hook,
    qibn_hook, qif_hook, qobj_hook, qvol_hook, spoofed_object_name, AttrStep, NameAnswer,
    QifStep, SYNTH_FILETIME,
};
use vfs_shim::hook::tables::{record_identity, record_path, HandleTables};
use vfs_shim::hookstats::Stats;
use vfs_shim::ntdef::{
    FILE_ATTRIBUTE_DIRECTORY, STATUS_BUFFER_OVERFLOW, STATUS_OBJECT_NAME_NOT_FOUND,
    STATUS_SUCCESS,
};
use vfs_shim::overlay::OverlayState;

#[test]
fn spoofed_object_name_adopts_the_hosts_prefix() {
    assert_eq!(
        spoofed_object_name(
            r"\??\C:\backing\blob.dat",
            r"\??\C:\root\mod.esp",
            |_: &str| panic!("the device must not be consulted on the \\??\\ branch"),
        ),
        Some(r"\??\C:\root\mod.esp".to_string())
    );
    assert_eq!(
        spoofed_object_name(
            r"\Device\HarddiskVolume7\backing\blob.dat",
            r"\??\C:\root\mod.esp",
            |d: &str| {
                assert_eq!(d, "C:");
                Some(r"\Device\HarddiskVolume3".to_string())
            },
        ),
        Some(r"\Device\HarddiskVolume3\root\mod.esp".to_string())
    );
}

#[test]
fn spoofed_object_name_declines_rather_than_guesses() {
    let dev = |_: &str| Some(r"\Device\HarddiskVolume3".to_string());
    assert_eq!(
        spoofed_object_name(r"\BaseNamedObjects\SomeMutex", r"\??\C:\root\mod.esp", dev),
        None
    );
    assert_eq!(spoofed_object_name("", r"\??\C:\root\mod.esp", dev), None);
    assert_eq!(
        spoofed_object_name(r"\Device\HarddiskVolume3\x", r"\??\UNC\server\share\f", dev),
        None
    );
    assert_eq!(spoofed_object_name(r"\Device\HarddiskVolume3\x", r"\??\", dev), None);
    assert_eq!(
        spoofed_object_name(r"\Device\HarddiskVolume3\x", r"\??\C:relative", dev),
        None
    );
    assert_eq!(
        spoofed_object_name(r"\Device\HarddiskVolume3\x", r"\??\C:\root\mod.esp", |_: &str| None),
        None
    );
}

#[test]
fn spoofed_object_name_handles_a_drive_root() {
    assert_eq!(
        spoofed_object_name(r"\??\C:\x", r"\??\C:", |_: &str| unreachable!()),
        Some(r"\??\C:".to_string())
    );
    assert_eq!(
        spoofed_object_name(r"\Device\HarddiskVolume3\x", r"\??\C:", |_: &str| Some(
            r"\Device\HarddiskVolume3".to_string()
        )),
        Some(r"\Device\HarddiskVolume3".to_string())
    );
}

#[test]
fn spoofed_object_name_accepts_every_prefix_path_table_can_hold() {
    for vpath in [r"\??\C:\root\mod.esp", r"\\?\C:\root\mod.esp", r"C:\root\mod.esp"] {
        assert_eq!(
            spoofed_object_name(r"\??\C:\backing", vpath, |_: &str| unreachable!()),
            Some(r"\??\C:\root\mod.esp".to_string()),
            "vpath = {vpath}"
        );
    }
}

const CLASS_BASIC: u32 = 4;
const CLASS_STANDARD: u32 = 5;
const CLASS_NETWORK_OPEN: u32 = 34;
const CLASS_STAT: u32 = 68;
const CLASS_STAT_BASIC: u32 = 77;

const LENGTHS: [(u32, usize); 5] = [
    (CLASS_BASIC, 40),
    (CLASS_STANDARD, 24),
    (CLASS_NETWORK_OPEN, 56),
    (CLASS_STAT, 72),
    (CLASS_STAT_BASIC, 104),
];

fn u32_at(buf: &[u8], off: usize) -> u32 {
    u32::from_le_bytes(buf[off..off + 4].try_into().unwrap())
}

fn i64_at(buf: &[u8], off: usize) -> i64 {
    i64::from_le_bytes(buf[off..off + 8].try_into().unwrap())
}

#[test]
fn every_supported_class_reports_its_documented_length() {
    for (class, want) in LENGTHS {
        let mut buf = vec![0u8; want];
        assert_eq!(fill_by_name(class, &mut buf, false, 1), Some(want), "class {class}");
    }
}

#[test]
fn a_buffer_one_byte_short_is_refused() {
    for (class, need) in LENGTHS {
        let mut buf = vec![0xAAu8; need - 1];
        assert_eq!(fill_by_name(class, &mut buf, false, 1), None, "class {class}");
        assert!(buf.iter().all(|b| *b == 0xAA), "class {class} wrote into a short buffer");
        assert!(!can_fill(class, need - 1));
        assert!(can_fill(class, need));
    }
}

#[test]
fn an_unknown_class_is_declined_so_the_caller_falls_through() {
    let mut buf = vec![0u8; 512];
    assert_eq!(fill_by_name(9999, &mut buf, false, 1), None);
}

#[test]
fn size_lands_at_the_offset_each_class_defines() {
    const SIZE: u64 = 249_753_412;
    let mut buf = vec![0u8; 104];

    fill_by_name(CLASS_STANDARD, &mut buf, false, SIZE).unwrap();
    assert_eq!(i64_at(&buf, 0), SIZE as i64, "standard AllocationSize");
    assert_eq!(i64_at(&buf, 8), SIZE as i64, "standard EndOfFile");

    buf.iter_mut().for_each(|b| *b = 0);
    fill_by_name(CLASS_NETWORK_OPEN, &mut buf, false, SIZE).unwrap();
    assert_eq!(i64_at(&buf, 40), SIZE as i64, "network-open EndOfFile");

    for class in [CLASS_STAT, CLASS_STAT_BASIC] {
        buf.iter_mut().for_each(|b| *b = 0);
        fill_by_name(class, &mut buf, false, SIZE).unwrap();
        assert_eq!(i64_at(&buf, 40), SIZE as i64, "class {class} AllocationSize");
        assert_eq!(i64_at(&buf, 48), SIZE as i64, "class {class} EndOfFile");
    }
}

#[test]
fn directories_are_distinguishable_from_files_in_every_class() {
    let mut buf = vec![0u8; 104];

    for (class, attr_off) in [
        (CLASS_BASIC, 32usize),
        (CLASS_NETWORK_OPEN, 48),
        (CLASS_STAT, 56),
        (CLASS_STAT_BASIC, 56),
    ] {
        buf.iter_mut().for_each(|b| *b = 0);
        fill_by_name(class, &mut buf, true, 0).unwrap();
        assert_eq!(
            u32_at(&buf, attr_off) & FILE_ATTRIBUTE_DIRECTORY,
            FILE_ATTRIBUTE_DIRECTORY,
            "class {class} did not mark a directory"
        );

        buf.iter_mut().for_each(|b| *b = 0);
        fill_by_name(class, &mut buf, false, 1).unwrap();
        assert_eq!(
            u32_at(&buf, attr_off) & FILE_ATTRIBUTE_DIRECTORY,
            0,
            "class {class} marked a file as a directory"
        );
    }

    buf.iter_mut().for_each(|b| *b = 0);
    fill_by_name(CLASS_STANDARD, &mut buf, true, 0).unwrap();
    assert_eq!(buf[21], 1, "standard Directory flag");
    buf.iter_mut().for_each(|b| *b = 0);
    fill_by_name(CLASS_STANDARD, &mut buf, false, 1).unwrap();
    assert_eq!(buf[21], 0, "standard Directory flag set for a file");
}

#[test]
fn times_are_never_zero() {
    let mut buf = vec![0u8; 104];
    fill_by_name(CLASS_BASIC, &mut buf, false, 1).unwrap();
    for off in [0, 8, 16, 24] {
        assert_eq!(i64_at(&buf, off), SYNTH_FILETIME);
    }
}

#[test]
fn attributes_under_a_root_come_from_the_director_alone() {
    let mut s = Stats::new(true);
    let served = fuse_path_attr(Ok(Attr { found: true, is_dir: false, size: 9, mtime: 3 }));
    assert_eq!(served, Ok((false, 9, 3)));
    assert_eq!(qattr_hook(&mut s, "p", Some(served), false, None), AttrStep::Answer(false, 9));
    let gone = fuse_path_attr(Ok(Attr { found: false, is_dir: false, size: 0, mtime: 0 }));
    assert_eq!(gone, Err(RingStatus::NotFound));
    assert_eq!(
        qattr_hook(&mut s, "p", Some(gone), false, None),
        AttrStep::Fail(STATUS_OBJECT_NAME_NOT_FOUND)
    );
    // Outside every root the overlay speaks, and without it the system.
    let present = OverlayState::Present { path: "o".to_string(), is_dir: true, size: 0 };
    assert_eq!(qattr_hook(&mut s, "p", None, false, Some(present)), AttrStep::Answer(true, 0));
    assert_eq!(
        qattr_hook(&mut s, "p", None, false, Some(OverlayState::Whiteout)),
        AttrStep::Fail(STATUS_OBJECT_NAME_NOT_FOUND)
    );
    assert_eq!(
        qattr_hook(&mut s, "p", None, false, Some(OverlayState::Absent)),
        AttrStep::Real
    );
    assert_eq!(qattr_hook(&mut s, "p", None, false, None), AttrStep::Real);
}

#[test]
fn questions_by_name_fill_the_buffer() {
    let mut s = Stats::new(true);
    let mut buf = vec![0u8; 72];
    let served = Some(Ok((false, 42, 0)));
    assert_eq!(
        qibn_hook(&mut s, "p", CLASS_STAT, &mut buf, served, false, None),
        (AttrStep::Answer(false, 42), 72)
    );
    assert_eq!(i64_at(&buf, 48), 42);
}

#[test]
fn a_synthetic_handle_answers_for_itself() {
    let mut t = FuseTable::new();
    let h = open_fuse(&mut t, 9, 1234, false);
    set_position(&mut t, h, 7);
    let mut buf = vec![0u8; 24];
    let a = fuse_query_information(&t, h, CLASS_STANDARD, true, &mut buf);
    assert_eq!((a.status, a.information), (STATUS_SUCCESS, Some(24)));
    assert_eq!(i64_at(&buf, 8), 1234);
    let mut buf = vec![0u8; 8];
    let a = fuse_query_information(&t, h, 14, true, &mut buf);
    assert_eq!(a.status, STATUS_SUCCESS);
    assert_eq!(i64_at(&buf, 0), 7);
    assert!(qvol_hook(4, 4, 64, &mut buf).is_none());
    let a = qvol_hook(h, 4, 64, &mut buf).unwrap_or_else(|| unreachable!());
    assert_eq!(a.status, STATUS_SUCCESS);
    assert_eq!(u32_at(&buf, 0), 7);
    // Any other class reads as zeros, and a missing buffer is told its length all the same.
    let a = qvol_hook(h, 1, 64, &mut buf).unwrap_or_else(|| unreachable!());
    assert_eq!(a.information, Some(64));
    assert!(buf.iter().all(|b| *b == 0));
    let a = qvol_hook(h, 1, 24, &mut []).unwrap_or_else(|| unreachable!());
    assert_eq!((a.status, a.information), (STATUS_SUCCESS, Some(24)));
    let a = qvol_hook(h, 4, 24, &mut []).unwrap_or_else(|| unreachable!());
    assert_eq!((a.status, a.information), (STATUS_BUFFER_OVERFLOW, None));
}

#[test]
fn the_last_bytes_of_the_network_block_are_the_callers() {
    let mut t = FuseTable::new();
    let h = open_fuse(&mut t, 9, 1234, true);
    let mut buf = vec![0xAAu8; 60];
    let a = fuse_query_information(&t, h, CLASS_NETWORK_OPEN, true, &mut buf);
    assert_eq!((a.status, a.information), (STATUS_SUCCESS, Some(56)));
    assert_eq!(i64_at(&buf, 0), SYNTH_FILETIME);
    assert_eq!(i64_at(&buf, 40), 1234);
    assert_eq!(u32_at(&buf, 48), FILE_ATTRIBUTE_DIRECTORY);
    assert_eq!(buf[52..], [0xAA; 8]);
    assert_eq!(buf[..52], full_attributes_block(true, 1234));
    // The whole structure has to fit, and so do the other classes whole.
    let mut short = vec![0xAAu8; 55];
    let a = fuse_query_information(&t, h, CLASS_NETWORK_OPEN, true, &mut short);
    assert_eq!((a.status, a.information), (STATUS_BUFFER_OVERFLOW, None));
    assert_eq!(short, [0xAA; 55]);
    let mut basic = vec![0xAAu8; 40];
    let a = fuse_query_information(&t, h, 4, true, &mut basic);
    assert_eq!((a.status, a.information), (STATUS_SUCCESS, Some(40)));
    assert_eq!(basic[..36], attributes_block(true));
    assert_eq!(basic[36..], [0; 4]);
    // By name the last four bytes are cleared.
    let mut named = vec![0xAAu8; 60];
    assert_eq!(fill_by_name(CLASS_NETWORK_OPEN, &mut named, true, 1234), Some(56));
    assert_eq!(named[..52], buf[..52]);
    assert_eq!(named[52..56], [0; 4]);
    assert_eq!(named[56..], [0xAA; 4]);
}

#[test]
fn only_the_prefix_of_the_hosts_name_reaches_the_spoofed_one() {
    let vpath = r"\??\C:\root\mod.esp";
    let dev = |d: &str| Some(format!(r"\Device\Of{}", &d[..1]));
    assert_eq!(
        spoofed_object_name(r"\??\D:\backing\1", vpath, |_: &str| unreachable!()),
        spoofed_object_name(r"\??\E:\elsewhere", vpath, |_: &str| unreachable!())
    );
    assert_eq!(
        spoofed_object_name(r"\Device\HarddiskVolume3\b", vpath, dev),
        spoofed_object_name(r"\Device\Mup\server", vpath, dev)
    );
    assert_eq!(spoofed_object_name(r"C:\b", vpath, |_: &str| unreachable!()), None);
}

#[test]
fn redirected_handles_are_asked_for_their_virtual_name() {
    let mut t = HandleTables::new();
    record_identity(&mut t, Some(8), Some(r"\root\a.esp"), STATUS_SUCCESS);
    record_path(&mut t, Some(8), Some(r"\??\C:\root\a.esp"), true, STATUS_SUCCESS);
    assert!(matches!(qif_hook(&t, 8, 9, true), QifStep::Name(n) if n == r"\root\a.esp"));
    assert!(matches!(qif_hook(&t, 8, 5, true), QifStep::Real));
    assert!(matches!(qif_hook(&t, 12, 9, true), QifStep::Real));
    assert_eq!(qobj_hook(&t, 8, 1).as_deref(), Some(r"\??\C:\root\a.esp"));
    assert_eq!(qobj_hook(&t, 8, 2), None);
    assert_eq!(qobj_hook(&t, 12, 1), None);
    assert_eq!(name_status(true), STATUS_SUCCESS);
    assert_eq!(name_status(false), STATUS_BUFFER_OVERFLOW);
}

#[test]
fn object_names_read_back() {
    let name = r"\??\C:\root\mod.esp";
    let mut buf = vec![0u8; 16 + 2 * name.len() + 2];
    let address = 0x7000_0000u64;
    match answer_object_name(name, &mut buf, address) {
        NameAnswer::Answered(status, bytes) => {
            assert_eq!(status, STATUS_SUCCESS);
            assert_eq!(bytes as usize, buf.len());
        }
        NameAnswer::Real => panic!("the name fits"),
    }
    assert_eq!(u64::from_le_bytes(buf[8..16].try_into().unwrap()), address + 16);
    assert_eq!(object_name_in(&buf).as_deref(), Some(name));
    let mut short = vec![0xAAu8; 20];
    assert!(matches!(
        answer_object_name(name, &mut short, address),
        NameAnswer::Answered(status, _) if status < 0
    ));
    assert!(name_needs_room(STATUS_BUFFER_OVERFLOW, 100, 20));
}

#[test]
fn a_device_name_ends_at_its_terminator() {
    let mut units: Vec<u16> = r"\Device\HarddiskVolume3".encode_utf16().collect();
    let n = units.len() as u32;
    units.extend([0, 65, 0]);
    assert_eq!(
        device_for_drive(&units, n + 2).as_deref(),
        Some(r"\Device\HarddiskVolume3")
    );
    assert_eq!(device_for_drive(&units, 0), None);
    assert_eq!(device_for_drive(&[0u16, 65], 2), None);
    assert_eq!(device_for_drive(&[65u16, 66], 2).as_deref(), Some("AB"));
}
