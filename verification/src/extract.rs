//! From a buffer and its parsed container to the text.
//!
//! The resource section is found through the section table, the directory
//! tree is walked, and the payloads of the data entries that belong to the
//! text tables are decoded and joined.

use crate::directory::{ResourceDataEntry, RESOURCE_DATA_ENTRY_SIZE};
use crate::error::{Error, ErrorKind};
use crate::locate::LeafRange;
use crate::pe::{resolve, resolved, PeImage, PeImageView, Section};
use crate::reader::holds;
use crate::strings::{parse_strings, payload_text};
use crate::walk::{walk, walk_directories};
use scroll::Error as ScrollError;
use vstd::prelude::*;
use vstd::slice::slice_subrange;
use vstd::string::StringExecFns;

verus! {

/// What a call comes to, with a text by its characters and an error by its
/// kind.
pub open spec fn outcome(r: Result<String, Error>) -> Result<Seq<char>, ErrorKind> {
    match r {
        Ok(text) => Ok(text@),
        Err(e) => Err(e.kind_of()),
    }
}

/// `text` in front of what `rest` comes to; the failure of `rest` where it
/// has one.
pub open spec fn prepend(text: Seq<char>, rest: Result<Seq<char>, ErrorKind>) -> Result<
    Seq<char>,
    ErrorKind,
> {
    match rest {
        Ok(more) => Ok(text + more),
        Err(kind) => Err(kind),
    }
}

/// The relative virtual address at which the payload of a data entry ends:
/// its start and its size, or the largest address where the sum is beyond
/// the machine's address width.
pub open spec fn end_rva(entry: ResourceDataEntry) -> usize {
    if entry.offset_to_data + entry.size <= usize::MAX {
        (entry.offset_to_data + entry.size) as usize
    } else {
        usize::MAX
    }
}

/// The text of the bytes from `start` up to `end`, where the buffer holds
/// that range.
pub open spec fn range_text(bytes: Seq<u8>, start: usize, end: usize) -> Result<
    Seq<char>,
    ErrorKind,
> {
    if start <= end <= bytes.len() {
        Ok(payload_text(bytes.subrange(start as int, end as int)))
    } else {
        Err(ErrorKind::Scroll)
    }
}

/// The text of the payload of one data entry: both ends of the payload are
/// translated into file offsets, the start first, and the bytes between them
/// are decoded.
pub open spec fn entry_text(
    bytes: Seq<u8>,
    sections: Seq<Section>,
    file_alignment: u32,
    entry: ResourceDataEntry,
) -> Result<Seq<char>, ErrorKind> {
    let start_rva = entry.offset_to_data as usize;
    match resolved(start_rva, sections, file_alignment) {
        None => Err(ErrorKind::Offset(start_rva)),
        Some(start) => match resolved(end_rva(entry), sections, file_alignment) {
            None => Err(ErrorKind::Offset(end_rva(entry))),
            Some(end) => range_text(bytes, start, end),
        },
    }
}

/// The joined text of `count` data entries that lie back to back from `at`.
/// The first entry that the buffer does not hold whole, and the first payload
/// that fails, end it.
pub open spec fn entries_text(
    bytes: Seq<u8>,
    sections: Seq<Section>,
    file_alignment: u32,
    at: int,
    count: nat,
) -> Result<Seq<char>, ErrorKind>
    decreases count,
{
    if count == 0 {
        Ok(Seq::empty())
    } else if !holds(bytes, at, 16) {
        Err(ErrorKind::Scroll)
    } else {
        match entry_text(bytes, sections, file_alignment, ResourceDataEntry::at(bytes, at)) {
            Err(kind) => Err(kind),
            Ok(text) => prepend(
                text,
                entries_text(bytes, sections, file_alignment, at + 16, (count - 1) as nat),
            ),
        }
    }
}

/// The text of the resource section whose type directory lies at `base`: the
/// tree is walked, the data entries in front of the run are passed over, and
/// those of the run are decoded.
pub open spec fn section_text(
    bytes: Seq<u8>,
    sections: Seq<Section>,
    file_alignment: u32,
    base: int,
) -> Result<Seq<char>, ErrorKind> {
    match walk(bytes, base).leaves {
        None => Err(ErrorKind::Scroll),
        Some((skip, read)) => entries_text(
            bytes,
            sections,
            file_alignment,
            walk(bytes, base).cursor + 16 * skip,
            read as nat,
        ),
    }
}

/// The text of a buffer whose container was parsed into `image`.
pub open spec fn extraction(bytes: Seq<u8>, image: PeImageView) -> Result<Seq<char>, ErrorKind> {
    match image.optional_header {
        None => Err(ErrorKind::OptionalHeader),
        Some(header) => match header.resource_table {
            None => Err(ErrorKind::DataDir),
            Some(table) => {
                let rva = table.virtual_address as usize;
                match resolved(rva, image.sections, header.file_alignment) {
                    None => Err(ErrorKind::Offset(rva)),
                    Some(base) => section_text(
                        bytes,
                        image.sections,
                        header.file_alignment,
                        base as int,
                    ),
                }
            },
        },
    }
}

/// `scroll::Error::BadOffset`: the error of `scroll` for an offset that the
/// buffer does not hold.
#[verifier::external_body]
pub(crate) fn bad_offset(offset: usize) -> ScrollError {
    ScrollError::BadOffset(offset)
}

/// Decodes the payload that lies in the buffer from `start_addr` up to
/// `end_addr`.  Fails where the buffer does not hold that range.
pub fn decode_range(buffer: &Vec<u8>, start_addr: usize, end_addr: usize) -> (r: Result<
    String,
    Error,
>)
    ensures
        outcome(r) == range_text(buffer@, start_addr, end_addr),
{
    if end_addr > buffer.len() {
        return Err(Error::Scroll(bad_offset(end_addr)));
    }
    if start_addr > end_addr {
        return Err(Error::Scroll(bad_offset(start_addr)));
    }
    let data = slice_subrange(buffer.as_slice(), start_addr, end_addr);
    Ok(parse_strings(data))
}

/// Decodes the payload of one data entry.
pub fn entry_strings(
    buffer: &Vec<u8>,
    sections: &Vec<Section>,
    file_alignment: u32,
    entry: &ResourceDataEntry,
) -> (r: Result<String, Error>)
    ensures
        outcome(r) == entry_text(buffer@, sections@, file_alignment, *entry),
{
    let start_rva = entry.offset_to_data as usize;
    let start_addr = match resolve(start_rva, sections, file_alignment) {
        Some(addr) => addr,
        None => {
            return Err(Error::Offset(start_rva));
        },
    };
    let size = entry.size as usize;
    let end_rva = if size <= usize::MAX - start_rva {
        start_rva + size
    } else {
        usize::MAX
    };
    let end_addr = match resolve(end_rva, sections, file_alignment) {
        Some(addr) => addr,
        None => {
            return Err(Error::Offset(end_rva));
        },
    };
    decode_range(buffer, start_addr, end_addr)
}

/// Decodes the run of data entries: from `offset`, `range.skip_count` entries
/// are passed over and `range.read_count` entries are read, and the text of
/// their payloads is joined in their order.
pub fn read_leaves(
    buffer: &Vec<u8>,
    sections: &Vec<Section>,
    file_alignment: u32,
    offset: usize,
    range: LeafRange,
) -> (r: Result<String, Error>)
    ensures
        outcome(r) == entries_text(
            buffer@,
            sections@,
            file_alignment,
            offset + 16 * range.skip_count,
            range.read_count as nat,
        ),
{
    let ghost first = offset + 16 * range.skip_count;
    let mut ret_str = String::new();
    if range.read_count == 0 {
        return Ok(ret_str);
    }
    let room = ((usize::MAX - offset) / RESOURCE_DATA_ENTRY_SIZE) as u64;
    if range.skip_count > room {
        proof {
            assert(buffer@.len() == buffer.len());
        }
        return Err(Error::Scroll(bad_offset(usize::MAX)));
    }
    let mut cursor: usize = offset + RESOURCE_DATA_ENTRY_SIZE * (range.skip_count as usize);
    let mut i: u64 = 0;
    while i < range.read_count
        invariant
            first == offset + 16 * range.skip_count,
            i <= range.read_count,
            prepend(
                ret_str@,
                entries_text(
                    buffer@,
                    sections@,
                    file_alignment,
                    cursor as int,
                    (range.read_count - i) as nat,
                ),
            ) == entries_text(buffer@, sections@, file_alignment, first, range.read_count as nat),
        decreases range.read_count - i,
    {
        let ghost at = cursor as int;
        let ghost rest = entries_text(
            buffer@,
            sections@,
            file_alignment,
            at + 16,
            (range.read_count - i - 1) as nat,
        );
        let ghost before = ret_str@;
        let data_entry = match ResourceDataEntry::parse(buffer, &mut cursor) {
            Ok(entry) => entry,
            Err(e) => {
                return Err(Error::Scroll(e));
            },
        };
        match entry_strings(buffer, sections, file_alignment, &data_entry) {
            Ok(text) => {
                ret_str.append(text.as_str());
                proof {
                    lemma_prepend_twice(before, text@, rest);
                }
            },
            Err(e) => {
                return Err(e);
            },
        }
        i += 1;
    }
    Ok(ret_str)
}

/// Putting two texts in front, one after the other, puts their join in front.
pub proof fn lemma_prepend_twice(
    first: Seq<char>,
    second: Seq<char>,
    rest: Result<Seq<char>, ErrorKind>,
)
    ensures
        prepend(first, prepend(second, rest)) == prepend(first + second, rest),
{
    if let Ok(more) = rest {
        assert(first + (second + more) =~= (first + second) + more);
    }
}

/// Extracts the text of the string and message tables from the bytes of a
/// resource-only module whose container was parsed into `image`.
///
/// Fails with `OptionalHeader` where the image has no optional header, with
/// `DataDir` where it has no resource data directory, with `Offset` and the
/// address where an address is in no section, and with `Scroll` where a
/// record or a payload reaches past the buffer.
pub fn get_strings(buffer: &Vec<u8>, image: &PeImage) -> (r: Result<String, Error>)
    ensures
        outcome(r) == extraction(buffer@, image@),
{
    let optional_header = match image.optional_header {
        Some(header) => header,
        None => {
            return Err(Error::OptionalHeader);
        },
    };
    let file_alignment = optional_header.file_alignment;
    let sections = &image.sections;
    let rsrc = match optional_header.resource_table {
        Some(table) => table,
        None => {
            return Err(Error::DataDir);
        },
    };
    let rva = rsrc.virtual_address as usize;
    let mut base_offset = match resolve(rva, sections, file_alignment) {
        Some(offset) => offset,
        None => {
            return Err(Error::Offset(rva));
        },
    };
    let range = match walk_directories(buffer, &mut base_offset) {
        Ok(range) => range,
        Err(e) => {
            return Err(Error::Scroll(e));
        },
    };
    read_leaves(buffer, sections, file_alignment, base_offset, range)
}

} // verus!
