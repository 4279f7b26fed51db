//! The records of the resource section: directories, their entries, and the
//! data entries at the leaves.
//!
//! Every record is a run of little-endian fields without padding.  A parser
//! reads the fields in order through the cursor; when a field does not fit,
//! it fails and the cursor rests behind the last field that was read.

use crate::reader::{holds, le_u16, le_u32, left, read_u16, read_u32};
use scroll::Error as ScrollError;
use vstd::prelude::*;

verus! {

/// Bytes of a data entry.
pub const RESOURCE_DATA_ENTRY_SIZE: usize = 16;

/// How much of a record of 32-bit fields is read when only `left` bytes are
/// there: the fields that fit whole.
pub open spec fn words_read(left: int) -> int {
    left - left % 4
}

/// How much of a directory is read when only `left` bytes are there: the
/// fields that fit whole.  The header is two 32-bit fields and four 16-bit
/// fields; every entry is two 32-bit fields.
pub open spec fn dir_fields_read(left: int) -> int {
    if left < 8 {
        left - left % 4
    } else if left < 16 {
        left - left % 2
    } else {
        left - left % 4
    }
}

/// The number of entries that the directory header at `at` declares.
pub open spec fn dir_entry_count(bytes: Seq<u8>, at: int) -> int {
    le_u16(bytes, at + 12) + le_u16(bytes, at + 14)
}

/// The bytes of the directory at `at`: its header and the entries it declares.
pub open spec fn dir_size(bytes: Seq<u8>, at: int) -> int {
    16 + 8 * dir_entry_count(bytes, at)
}

/// The buffer holds a whole directory at `at`.
pub open spec fn dir_fits(bytes: Seq<u8>, at: int) -> bool {
    holds(bytes, at, 16) && holds(bytes, at, dir_size(bytes, at))
}

/// One child reference inside a directory.
#[derive(Debug, Clone, Copy, PartialEq, Eq, Structural)]
pub struct ResourceDirEntry {
    /// A resource type, a name or a language, by the level of the directory.
    pub name: u32,
    pub offset_to_data: u32,
    /// Where this record lies in the file.
    pub file_offset: usize,
}

impl ResourceDirEntry {
    /// The entry that the buffer holds at `at`.
    pub open spec fn at(bytes: Seq<u8>, at: int) -> ResourceDirEntry {
        ResourceDirEntry {
            name: le_u32(bytes, at),
            offset_to_data: le_u32(bytes, at + 4),
            file_offset: at as usize,
        }
    }

    /// Reads the entry at the cursor.
    pub fn parse(data: &Vec<u8>, offset: &mut usize) -> (r: Result<ResourceDirEntry, ScrollError>)
        ensures
            holds(data@, *old(offset) as int, 8) ==> r is Ok && r->Ok_0 == Self::at(
                data@,
                *old(offset) as int,
            ) && *final(offset) == *old(offset) + 8,
            !holds(data@, *old(offset) as int, 8) ==> r is Err && *final(offset) == *old(offset)
                + words_read(left(data@, *old(offset) as int)),
    {
        let file_offset = *offset;
        let name = read_u32(data, offset)?;
        let offset_to_data = read_u32(data, offset)?;
        Ok(ResourceDirEntry { name, offset_to_data, file_offset })
    }
}

/// A leaf record: where one payload lies and how long it is.
#[derive(Debug, Clone, Copy, PartialEq, Eq, Structural)]
pub struct ResourceDataEntry {
    /// Relative virtual address of the payload.
    pub offset_to_data: u32,
    /// Bytes of the payload.
    pub size: u32,
    pub code_page: u32,
    pub reserved: u32,
    /// Where this record lies in the file.
    pub file_offset: usize,
}

impl ResourceDataEntry {
    /// The data entry that the buffer holds at `at`.
    pub open spec fn at(bytes: Seq<u8>, at: int) -> ResourceDataEntry {
        ResourceDataEntry {
            offset_to_data: le_u32(bytes, at),
            size: le_u32(bytes, at + 4),
            code_page: le_u32(bytes, at + 8),
            reserved: le_u32(bytes, at + 12),
            file_offset: at as usize,
        }
    }

    /// Reads the data entry at the cursor.
    pub fn parse(data: &Vec<u8>, offset: &mut usize) -> (r: Result<ResourceDataEntry, ScrollError>)
        ensures
            holds(data@, *old(offset) as int, 16) ==> r is Ok && r->Ok_0 == Self::at(
                data@,
                *old(offset) as int,
            ) && *final(offset) == *old(offset) + 16,
            !holds(data@, *old(offset) as int, 16) ==> r is Err && *final(offset) == *old(offset)
                + words_read(left(data@, *old(offset) as int)),
    {
        let file_offset = *offset;
        let offset_to_data = read_u32(data, offset)?;
        let size = read_u32(data, offset)?;
        let code_page = read_u32(data, offset)?;
        let reserved = read_u32(data, offset)?;
        Ok(ResourceDataEntry { offset_to_data, size, code_page, reserved, file_offset })
    }
}

/// One node of the directory tree.
#[derive(Debug)]
pub struct ResourceDir {
    pub characteristics: u32,
    pub time_date_stamp: u32,
    pub major_version: u16,
    pub minor_version: u16,
    pub number_of_named_entries: u16,
    pub number_of_id_entries: u16,
    /// Where this node begins in the file.
    pub file_offset: usize,
    /// The children, in the order of the file.
    pub entries: Vec<ResourceDirEntry>,
}

impl ResourceDir {
    /// The number of entries that the header declares.
    pub open spec fn entry_count(self) -> int {
        self.number_of_named_entries + self.number_of_id_entries
    }

    /// The header fields are those that the buffer holds at `at`.
    pub open spec fn header_is_at(self, bytes: Seq<u8>, at: int) -> bool {
        &&& self.characteristics == le_u32(bytes, at)
        &&& self.time_date_stamp == le_u32(bytes, at + 4)
        &&& self.major_version == le_u16(bytes, at + 8)
        &&& self.minor_version == le_u16(bytes, at + 10)
        &&& self.number_of_named_entries == le_u16(bytes, at + 12)
        &&& self.number_of_id_entries == le_u16(bytes, at + 14)
        &&& self.file_offset == at
    }

    /// This is the directory that the buffer holds at `at`: the header, and
    /// behind it as many entries as the header declares.
    pub open spec fn is_at(self, bytes: Seq<u8>, at: int) -> bool {
        &&& self.header_is_at(bytes, at)
        &&& self.entries@ == Seq::new(
            self.entry_count() as nat,
            |i: int| ResourceDirEntry::at(bytes, at + 16 + 8 * i),
        )
    }

    /// The number of entries that the header declares: named ones and those
    /// with an id.
    pub fn num_of_entries(&self) -> (n: usize)
        ensures
            n == self.entry_count(),
    {
        self.number_of_named_entries as usize + self.number_of_id_entries as usize
    }

    /// Reads the header at the cursor.  The entries are left empty.
    pub fn parse(data: &Vec<u8>, offset: &mut usize) -> (r: Result<ResourceDir, ScrollError>)
        ensures
            holds(data@, *old(offset) as int, 16) ==> r is Ok && r->Ok_0.header_is_at(
                data@,
                *old(offset) as int,
            ) && r->Ok_0.entries@.len() == 0 && *final(offset) == *old(offset) + 16,
            !holds(data@, *old(offset) as int, 16) ==> r is Err && *final(offset) == *old(offset)
                + dir_fields_read(left(data@, *old(offset) as int)),
    {
        let file_offset = *offset;
        let characteristics = read_u32(data, offset)?;
        let time_date_stamp = read_u32(data, offset)?;
        let major_version = read_u16(data, offset)?;
        let minor_version = read_u16(data, offset)?;
        let number_of_named_entries = read_u16(data, offset)?;
        let number_of_id_entries = read_u16(data, offset)?;
        Ok(
            ResourceDir {
                characteristics,
                time_date_stamp,
                major_version,
                minor_version,
                number_of_named_entries,
                number_of_id_entries,
                file_offset,
                entries: Vec::new(),
            },
        )
    }
}

/// Reads the directory at the cursor, header and entries, and moves the
/// cursor behind it.
///
/// Succeeds exactly when the buffer holds the header and every entry that the
/// header declares.  The result then has as many entries as the header
/// declares, and the cursor has moved by the header's size and eight bytes
/// for each entry.
pub fn read_dir(bytes: &Vec<u8>, offset: &mut usize) -> (r: Result<ResourceDir, ScrollError>)
    ensures
        dir_fits(bytes@, *old(offset) as int) ==> r is Ok && r->Ok_0.is_at(
            bytes@,
            *old(offset) as int,
        ) && r->Ok_0.entries@.len() == r->Ok_0.number_of_named_entries
            + r->Ok_0.number_of_id_entries && *final(offset) == *old(offset) + 16 + 8
            * r->Ok_0.entries@.len(),
        !dir_fits(bytes@, *old(offset) as int) ==> r is Err && *final(offset) == *old(offset)
            + dir_fields_read(left(bytes@, *old(offset) as int)),
{
    let ghost start = *offset as int;
    let mut dir = ResourceDir::parse(bytes, offset)?;
    let num_entries = dir.num_of_entries();
    let mut i: usize = 0;
    while i < num_entries
        invariant
            start == *old(offset),
            holds(bytes@, start, 16),
            dir.header_is_at(bytes@, start),
            num_entries == dir.entry_count(),
            i <= num_entries,
            *offset == start + 16 + 8 * i,
            holds(bytes@, start, 16 + 8 * i),
            dir.entries@ == Seq::new(i as nat, |k: int| ResourceDirEntry::at(bytes@, start + 16 + 8 * k)),
        decreases num_entries - i,
    {
        let entry = ResourceDirEntry::parse(bytes, offset)?;
        dir.entries.push(entry);
        i += 1;
    }
    Ok(dir)
}

} // verus!
