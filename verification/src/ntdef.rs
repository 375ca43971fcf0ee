//! NT status values, information classes and the information blocks that callers read, with
//! their byte layouts.

use crate::bytes;
use crate::text;
use vstd::prelude::*;
use vstd::slice::*;
use vstd::string::*;

verus! {

/// The operation was carried out.
pub const STATUS_SUCCESS: i32 = 0;

/// It was not, and nothing more is said (`0xC0000001`).
pub const STATUS_UNSUCCESSFUL: i32 = -1073741823;

/// The buffer cannot hold the fixed part of the answer (`0xC0000004`).
pub const STATUS_INFO_LENGTH_MISMATCH: i32 = -1073741820;

/// The handle names nothing (`0xC0000008`).
pub const STATUS_INVALID_HANDLE: i32 = -1073741816;

/// The read starts at or behind the end (`0xC0000011`).
pub const STATUS_END_OF_FILE: i32 = -1073741807;

/// The operation is not allowed (`0xC0000022`).
pub const STATUS_ACCESS_DENIED: i32 = -1073741790;

/// The name does not exist (`0xC0000034`).
pub const STATUS_OBJECT_NAME_NOT_FOUND: i32 = -1073741772;

/// The name exists already (`0xC0000035`).
pub const STATUS_OBJECT_NAME_COLLISION: i32 = -1073741771;

/// What would hold the name does not exist (`0xC000003A`).
pub const STATUS_OBJECT_PATH_NOT_FOUND: i32 = -1073741766;

/// The section would be larger than its file (`0xC0000040`).
pub const STATUS_SECTION_TOO_BIG: i32 = -1073741760;

/// The name is a directory (`0xC00000BA`).
pub const STATUS_FILE_IS_A_DIRECTORY: i32 = -1073741638;

/// The file cannot back a section (`0xC0000124`).
pub const STATUS_INVALID_FILE_FOR_SECTION: i32 = -1073741532;

/// The buffer cannot hold the whole answer (`0x80000005`).
pub const STATUS_BUFFER_OVERFLOW: i32 = -2147483643;

/// An enumeration is over (`0x80000006`).
pub const STATUS_NO_MORE_FILES: i32 = -2147483642;

/// Attribute of a directory.
pub const FILE_ATTRIBUTE_DIRECTORY: u32 = 0x10;

/// Attribute of a plain file.
pub const FILE_ATTRIBUTE_NORMAL: u32 = 0x80;

/// Times and attributes.
pub const FILE_BASIC_INFORMATION: u32 = 4;

/// Sizes and links.
pub const FILE_STANDARD_INFORMATION: u32 = 5;

/// The file's number.
pub const FILE_INTERNAL_INFORMATION: u32 = 6;

/// The path without its device.
pub const FILE_NAME_INFORMATION: u32 = 9;

/// A rename.
pub const FILE_RENAME_INFORMATION: u32 = 10;

/// A deletion.
pub const FILE_DISPOSITION_INFORMATION: u32 = 13;

/// The current byte offset.
pub const FILE_POSITION_INFORMATION: u32 = 14;

/// The fixed parts of most other classes.
pub const FILE_ALL_INFORMATION: u32 = 18;

/// The end of the file.
pub const FILE_END_OF_FILE_INFORMATION: u32 = 20;

/// A completion port.
pub const FILE_COMPLETION_INFORMATION: u32 = 30;

/// Times, sizes and attributes.
pub const FILE_NETWORK_OPEN_INFORMATION: u32 = 34;

/// The normalized path without its device.
pub const FILE_NORMALIZED_NAME_INFORMATION: u32 = 48;

/// A deletion with flags.
pub const FILE_DISPOSITION_INFORMATION_EX: u32 = 64;

/// A rename with flags.
pub const FILE_RENAME_INFORMATION_EX: u32 = 65;

/// Times, sizes, attributes and links of a path.
pub const FILE_STAT_INFORMATION: u32 = 68;

/// The same with volume facts behind them.
pub const FILE_STAT_BASIC_INFORMATION: u32 = 77;

/// The flag of a deletion with flags.
pub const FILE_DISPOSITION_DELETE: u32 = 0x1;

/// The class of an object's full name.
pub const OBJECT_NAME_INFORMATION: u32 = 1;

/// Bytes in front of an object's name.
pub const OBJECT_NAME_INFORMATION_HEADER: usize = 16;

/// The class of a volume's device.
pub const FILE_FS_DEVICE_INFORMATION: u32 = 4;

/// A disk.
pub const FILE_DEVICE_DISK: u32 = 7;

/// The open names a directory.
pub const FILE_DIRECTORY_FILE: u32 = 0x1;

/// An enumeration starts over.
pub const SL_RESTART_SCAN: u32 = 0x1;

/// An enumeration gives one entry.
pub const SL_RETURN_SINGLE_ENTRY: u32 = 0x2;

/// The section is a program image.
pub const SEC_IMAGE: u32 = 0x0100_0000;

/// An existing file was replaced.
pub const FILE_SUPERSEDED: u64 = 0;

/// An existing file was opened.
pub const FILE_OPENED: u64 = 1;

/// A file was created.
pub const FILE_CREATED: u64 = 2;

/// An existing file was cut to nothing.
pub const FILE_OVERWRITTEN: u64 = 3;

/// Whether a status is a success.
pub open spec fn nt_success(status: i32) -> bool {
    status >= 0
}

/// The attributes of a directory or a plain file.
pub open spec fn attributes_of(is_dir: bool) -> u32 {
    if is_dir {
        FILE_ATTRIBUTE_DIRECTORY
    } else {
        FILE_ATTRIBUTE_NORMAL
    }
}

/// [`attributes_of`].
pub fn file_attributes(is_dir: bool) -> (r: u32)
    ensures
        r == attributes_of(is_dir),
{
    if is_dir {
        FILE_ATTRIBUTE_DIRECTORY
    } else {
        FILE_ATTRIBUTE_NORMAL
    }
}

/// A counted UTF-16 text. `length` counts bytes.
pub struct UnicodeString {
    /// Bytes of the text.
    pub length: u16,
    /// Bytes of the buffer.
    pub maximum_length: u16,
    /// The buffer, where there is one.
    pub buffer: Option<Vec<u16>>,
}

impl UnicodeString {
    /// The buffer holds at least the text.
    pub open spec fn wf(self) -> bool {
        self.buffer matches Some(b) ==> b@.len() >= self.length / 2
    }

    /// The text; `None` without a buffer.
    pub open spec fn text(self) -> Option<Seq<char>> {
        match self.buffer {
            Some(b) => Some(text::utf16_text(b@.take((self.length / 2) as int))),
            None => None,
        }
    }

    /// [`UnicodeString::text`].
    pub fn to_text(&self) -> (r: Option<String>)
        requires
            self.wf(),
        ensures
            text::option_text(r) == self.text(),
    {
        match &self.buffer {
            None => None,
            Some(b) => {
                let n: usize = (self.length / 2) as usize;
                let units = slice_subrange(b.as_slice(), 0, n);
                assert(units@ =~= b@.take(n as int));
                Some(text::decode_utf16(units))
            },
        }
    }

    /// The counted form of a text, without a terminator.
    pub fn of_text(s: &str) -> (r: UnicodeString)
        requires
            text::utf16_units(s@).len() <= 32767,
        ensures
            r.wf(),
            r.text() == Some(text::utf16_text(text::utf16_units(s@))),
            r.length == 2 * text::utf16_units(s@).len(),
            r.maximum_length == r.length,
    {
        let units = text::encode_utf16(s);
        let length: u16 = (units.len() as u16) * 2;
        assert(units@.take(units@.len() as int) =~= units@);
        UnicodeString { length, maximum_length: length, buffer: Some(units) }
    }

    /// The counted form of a text, with a terminator behind it.
    pub fn of_text_terminated(s: &str) -> (r: UnicodeString)
        requires
            text::utf16_units(s@).len() <= 32766,
        ensures
            r.wf(),
            r.text() == Some(text::utf16_text(text::utf16_units(s@))),
            r.length == 2 * text::utf16_units(s@).len(),
            r.maximum_length == r.length + 2,
            r.buffer matches Some(b) && b@ == text::utf16_units(s@).push(0u16),
    {
        let mut units = text::encode_utf16(s);
        let length: u16 = (units.len() as u16) * 2;
        units.push(0u16);
        assert(units@.take(units@.len() - 1) =~= text::utf16_units(s@));
        UnicodeString { length, maximum_length: length + 2, buffer: Some(units) }
    }
}

/// A name as it reads back from its counted form is the name.
pub proof fn law_counted_text_reads_back(s: Seq<char>)
    ensures
        text::utf16_text(text::utf16_units(s)) == s,
{
    text::law_utf16_round_trip(s);
}

/// The name that an open or a query is about.
pub struct ObjectAttributes {
    /// The handle that the name is relative to; zero for an absolute name.
    pub root_directory: u64,
    /// The name, where there is one.
    pub object_name: Option<UnicodeString>,
    /// Flags.
    pub attributes: u32,
}

impl ObjectAttributes {
    /// The name's buffer holds at least its text.
    pub open spec fn wf(self) -> bool {
        self.object_name matches Some(n) ==> n.wf()
    }

    /// The name.
    pub open spec fn name(self) -> Option<Seq<char>> {
        match self.object_name {
            Some(n) => n.text(),
            None => None,
        }
    }
}

/// The name alone, without what it is relative to.
pub fn object_name_str(oa: Option<&ObjectAttributes>) -> (r: Option<String>)
    requires
        oa matches Some(o) ==> o.wf(),
    ensures
        text::option_text(r) == match oa {
            Some(o) => o.name(),
            None => None,
        },
{
    match oa {
        None => None,
        Some(o) => match &o.object_name {
            None => None,
            Some(n) => n.to_text(),
        },
    }
}

/// Times and attributes.
#[derive(Clone, Copy, Debug, PartialEq, Eq, Structural)]
pub struct FileBasicInformation {
    pub creation_time: i64,
    pub last_access_time: i64,
    pub last_write_time: i64,
    pub change_time: i64,
    pub file_attributes: u32,
    pub reserved: u32,
}

/// Times, sizes and attributes.
#[derive(Clone, Copy, Debug, PartialEq, Eq, Structural)]
pub struct FileNetworkOpenInformation {
    pub creation_time: i64,
    pub last_access_time: i64,
    pub last_write_time: i64,
    pub change_time: i64,
    pub allocation_size: i64,
    pub end_of_file: i64,
    pub file_attributes: u32,
    pub reserved: u32,
}

/// The file's number.
#[derive(Clone, Copy, Debug, PartialEq, Eq, Structural)]
pub struct FileInternalInformation {
    pub index_number: i64,
}

/// A volume's device.
#[derive(Clone, Copy, Debug, PartialEq, Eq, Structural)]
pub struct FileFsDeviceInformation {
    pub device_type: u32,
    pub characteristics: u32,
}

/// Sizes and links.
#[derive(Clone, Copy, Debug, PartialEq, Eq, Structural)]
pub struct FileStandardInformation {
    pub allocation_size: i64,
    pub end_of_file: i64,
    pub number_of_links: u32,
    pub delete_pending: u8,
    pub directory: u8,
    pub pad: u16,
}

/// The current byte offset.
#[derive(Clone, Copy, Debug, PartialEq, Eq, Structural)]
pub struct FilePositionInformation {
    pub current_byte_offset: i64,
}

/// The end of the file.
#[derive(Clone, Copy, Debug, PartialEq, Eq, Structural)]
pub struct FileEndOfFileInformation {
    pub end_of_file: i64,
}

/// The bytes of a signed 64-bit field.
pub open spec fn le64s(x: i64) -> Seq<u8> {
    bytes::le64(x as u64)
}

/// Appends a signed 64-bit field.
pub fn push_i64(out: &mut Vec<u8>, x: i64)
    ensures
        final(out)@ == old(out)@ + le64s(x),
{
    bytes::push_u64(out, x as u64);
}

impl FileBasicInformation {
    /// The block's 40 bytes.
    pub open spec fn layout(self) -> Seq<u8> {
        le64s(self.creation_time) + le64s(self.last_access_time) + le64s(self.last_write_time)
            + le64s(self.change_time) + bytes::le32(self.file_attributes) + bytes::le32(
            self.reserved,
        )
    }

    /// [`FileBasicInformation::layout`].
    pub fn to_bytes(&self) -> (out: Vec<u8>)
        ensures
            out@ == self.layout(),
            out@.len() == 40,
    {
        broadcast use {bytes::lemma_le32, bytes::lemma_le64};

        let mut out: Vec<u8> = Vec::new();
        push_i64(&mut out, self.creation_time);
        push_i64(&mut out, self.last_access_time);
        push_i64(&mut out, self.last_write_time);
        push_i64(&mut out, self.change_time);
        bytes::push_u32(&mut out, self.file_attributes);
        bytes::push_u32(&mut out, self.reserved);
        assert(out@ =~= self.layout());
        out
    }
}

impl FileNetworkOpenInformation {
    /// The block's 56 bytes.
    pub open spec fn layout(self) -> Seq<u8> {
        le64s(self.creation_time) + le64s(self.last_access_time) + le64s(self.last_write_time)
            + le64s(self.change_time) + le64s(self.allocation_size) + le64s(self.end_of_file)
            + bytes::le32(self.file_attributes) + bytes::le32(self.reserved)
    }

    /// [`FileNetworkOpenInformation::layout`].
    pub fn to_bytes(&self) -> (out: Vec<u8>)
        ensures
            out@ == self.layout(),
            out@.len() == 56,
    {
        broadcast use {bytes::lemma_le32, bytes::lemma_le64};

        let mut out: Vec<u8> = Vec::new();
        push_i64(&mut out, self.creation_time);
        push_i64(&mut out, self.last_access_time);
        push_i64(&mut out, self.last_write_time);
        push_i64(&mut out, self.change_time);
        push_i64(&mut out, self.allocation_size);
        push_i64(&mut out, self.end_of_file);
        bytes::push_u32(&mut out, self.file_attributes);
        bytes::push_u32(&mut out, self.reserved);
        assert(out@ =~= self.layout());
        out
    }
}

impl FileStandardInformation {
    /// The block's 24 bytes.
    pub open spec fn layout(self) -> Seq<u8> {
        le64s(self.allocation_size) + le64s(self.end_of_file) + bytes::le32(self.number_of_links)
            + seq![self.delete_pending, self.directory] + bytes::le16(self.pad)
    }

    /// [`FileStandardInformation::layout`].
    pub fn to_bytes(&self) -> (out: Vec<u8>)
        ensures
            out@ == self.layout(),
            out@.len() == 24,
    {
        broadcast use {bytes::lemma_le16, bytes::lemma_le32, bytes::lemma_le64};

        let mut out: Vec<u8> = Vec::new();
        push_i64(&mut out, self.allocation_size);
        push_i64(&mut out, self.end_of_file);
        bytes::push_u32(&mut out, self.number_of_links);
        out.push(self.delete_pending);
        out.push(self.directory);
        bytes::push_u16(&mut out, self.pad);
        assert(out@ =~= self.layout());
        out
    }
}

impl FileFsDeviceInformation {
    /// The block's 8 bytes.
    pub open spec fn layout(self) -> Seq<u8> {
        bytes::le32(self.device_type) + bytes::le32(self.characteristics)
    }

    /// [`FileFsDeviceInformation::layout`].
    pub fn to_bytes(&self) -> (out: Vec<u8>)
        ensures
            out@ == self.layout(),
            out@.len() == 8,
    {
        broadcast use bytes::lemma_le32;

        let mut out: Vec<u8> = Vec::new();
        bytes::push_u32(&mut out, self.device_type);
        bytes::push_u32(&mut out, self.characteristics);
        assert(out@ =~= self.layout());
        out
    }
}

/// A status is a success where it is not negative.
pub proof fn law_statuses_are_told_by_their_sign(status: i32)
    ensures
        nt_success(status) <==> status >= 0,
        status == STATUS_SUCCESS <==> status == 0,
        status == STATUS_UNSUCCESSFUL <==> status == -1073741823,
        status == STATUS_INFO_LENGTH_MISMATCH <==> status == -1073741820,
        status == STATUS_INVALID_HANDLE <==> status == -1073741816,
        status == STATUS_END_OF_FILE <==> status == -1073741807,
        status == STATUS_ACCESS_DENIED <==> status == -1073741790,
        status == STATUS_OBJECT_NAME_NOT_FOUND <==> status == -1073741772,
        status == STATUS_OBJECT_NAME_COLLISION <==> status == -1073741771,
        status == STATUS_OBJECT_PATH_NOT_FOUND <==> status == -1073741766,
        status == STATUS_SECTION_TOO_BIG <==> status == -1073741760,
        status == STATUS_FILE_IS_A_DIRECTORY <==> status == -1073741638,
        status == STATUS_INVALID_FILE_FOR_SECTION <==> status == -1073741532,
        status == STATUS_BUFFER_OVERFLOW <==> status == -2147483643,
        status == STATUS_NO_MORE_FILES <==> status == -2147483642,
{
}

/// A directory has the directory's attribute, and a file the plain one.
pub proof fn law_attributes_tell_directories(is_dir: bool)
    ensures
        is_dir ==> attributes_of(is_dir) == 0x10,
        !is_dir ==> attributes_of(is_dir) == 0x80,
{
}

/// Where each field of a block stands.
pub proof fn law_blocks_are_laid_out(
    basic: FileBasicInformation,
    network: FileNetworkOpenInformation,
    standard: FileStandardInformation,
    device: FileFsDeviceInformation,
)
    ensures
        basic.layout().len() == 40,
        basic.layout().subrange(0, 8) == bytes::le64(basic.creation_time as u64),
        basic.layout().subrange(16, 24) == bytes::le64(basic.last_write_time as u64),
        basic.layout().subrange(32, 36) == bytes::le32(basic.file_attributes),
        network.layout().len() == 56,
        network.layout().subrange(16, 24) == bytes::le64(network.last_write_time as u64),
        network.layout().subrange(32, 40) == bytes::le64(network.allocation_size as u64),
        network.layout().subrange(40, 48) == bytes::le64(network.end_of_file as u64),
        network.layout().subrange(48, 52) == bytes::le32(network.file_attributes),
        standard.layout().len() == 24,
        standard.layout().subrange(0, 8) == bytes::le64(standard.allocation_size as u64),
        standard.layout().subrange(8, 16) == bytes::le64(standard.end_of_file as u64),
        standard.layout().subrange(16, 20) == bytes::le32(standard.number_of_links),
        standard.layout()[20] == standard.delete_pending,
        standard.layout()[21] == standard.directory,
        device.layout().len() == 8,
        device.layout().subrange(0, 4) == bytes::le32(device.device_type),
        device.layout().subrange(4, 8) == bytes::le32(device.characteristics),
{
    assert(basic.layout().subrange(0, 8) =~= bytes::le64(basic.creation_time as u64));
    assert(basic.layout().subrange(16, 24) =~= bytes::le64(basic.last_write_time as u64));
    assert(basic.layout().subrange(32, 36) =~= bytes::le32(basic.file_attributes));
    assert(network.layout().subrange(16, 24) =~= bytes::le64(network.last_write_time as u64));
    assert(network.layout().subrange(32, 40) =~= bytes::le64(network.allocation_size as u64));
    assert(network.layout().subrange(40, 48) =~= bytes::le64(network.end_of_file as u64));
    assert(network.layout().subrange(48, 52) =~= bytes::le32(network.file_attributes));
    assert(standard.layout().subrange(0, 8) =~= bytes::le64(standard.allocation_size as u64));
    assert(standard.layout().subrange(8, 16) =~= bytes::le64(standard.end_of_file as u64));
    assert(standard.layout().subrange(16, 20) =~= bytes::le32(standard.number_of_links));
    assert(device.layout().subrange(0, 4) =~= bytes::le32(device.device_type));
    assert(device.layout().subrange(4, 8) =~= bytes::le32(device.characteristics));
}

} // verus!
