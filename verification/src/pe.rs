//! What the extraction needs of the PE container: whether it has an optional
//! header, the file alignment, the resource data directory, and the section
//! table by which a relative virtual address becomes a file offset.
//!
//! The caller parses the container and fills a [`PeImage`] with what it
//! found.  Addresses are translated by `goblin`, through the one call of this
//! module.

use goblin::pe::section_table::SectionTable;
use vstd::prelude::*;

verus! {

/// A row of the section table, as far as address translation reads it.
#[derive(Debug, Clone, Copy, PartialEq, Eq, Structural)]
pub struct Section {
    pub virtual_address: u32,
    pub virtual_size: u32,
    pub pointer_to_raw_data: u32,
    pub size_of_raw_data: u32,
}

/// The resource data directory: where the resource section lies in memory.
#[derive(Debug, Clone, Copy, PartialEq, Eq, Structural)]
pub struct ResourceTable {
    pub virtual_address: u32,
    pub size: u32,
}

/// The optional header, as far as the extraction reads it.
#[derive(Debug, Clone, Copy, PartialEq, Eq, Structural)]
pub struct OptionalHeader {
    pub file_alignment: u32,
    pub resource_table: Option<ResourceTable>,
}

/// A parsed PE container, as far as the extraction reads it.  The sections
/// stand in the order of the section table.
#[derive(Debug)]
pub struct PeImage {
    pub optional_header: Option<OptionalHeader>,
    pub sections: Vec<Section>,
}

/// The mathematical value of a [`PeImage`].
pub struct PeImageView {
    pub optional_header: Option<OptionalHeader>,
    pub sections: Seq<Section>,
}

impl View for PeImage {
    type V = PeImageView;

    open spec fn view(&self) -> PeImageView {
        PeImageView { optional_header: self.optional_header, sections: self.sections@ }
    }
}

/// The file offset that `goblin` finds for a relative virtual address in a
/// section table, or `None` where no section holds the address.
pub uninterp spec fn section_offset(rva: usize, sections: Seq<Section>, file_alignment: u32) -> Option<usize>;

/// The numbers of a section stay within the machine's address width when the
/// translation adds them up, and its end in memory is a 32-bit address.
pub open spec fn section_in_reach(section: Section, file_alignment: u32) -> bool {
    &&& section.virtual_address + section.virtual_size <= u32::MAX
    &&& section.virtual_address + section.virtual_size + section.pointer_to_raw_data
        + section.size_of_raw_data + file_alignment + 0xfff <= usize::MAX
}

/// Addresses can be translated through this section table: the file alignment
/// is not zero and every section is in reach.
pub open spec fn addressable(sections: Seq<Section>, file_alignment: u32) -> bool {
    &&& file_alignment >= 1
    &&& forall|i: int| 0 <= i < sections.len() ==> section_in_reach(#[trigger] sections[i], file_alignment)
}

/// The file offset of a relative virtual address: what `goblin` finds where
/// the table is addressable, and `None` otherwise.
pub open spec fn resolved(rva: usize, sections: Seq<Section>, file_alignment: u32) -> Option<usize> {
    if addressable(sections, file_alignment) {
        section_offset(rva, sections, file_alignment)
    } else {
        None
    }
}

/// `goblin::pe::utils::find_offset` on a table with these sections: the file
/// offset for `rva` in the first section that holds it.  The call computes in
/// `usize`, subtracts one from the file alignment, and may log the end of each
/// section as a 32-bit sum; on an addressable table none of this overflows.
#[verifier::external_body]
pub(crate) fn find_offset(rva: usize, sections: &Vec<Section>, file_alignment: u32) -> (r: Option<usize>)
    requires
        addressable(sections@, file_alignment),
    ensures
        r == section_offset(rva, sections@, file_alignment),
{
    let table: Vec<SectionTable> = sections.iter().map(|s| SectionTable {
        virtual_address: s.virtual_address,
        virtual_size: s.virtual_size,
        pointer_to_raw_data: s.pointer_to_raw_data,
        size_of_raw_data: s.size_of_raw_data,
        ..Default::default()
    }).collect();
    goblin::pe::utils::find_offset(rva, &table, file_alignment)
}

/// Whether addresses can be translated through this section table.
pub fn is_addressable(sections: &Vec<Section>, file_alignment: u32) -> (b: bool)
    ensures
        b == addressable(sections@, file_alignment),
{
    if file_alignment == 0 {
        return false;
    }
    let mut i: usize = 0;
    while i < sections.len()
        invariant
            i <= sections.len(),
            forall|k: int| 0 <= k < i ==> section_in_reach(#[trigger] sections@[k], file_alignment),
        decreases sections.len() - i,
    {
        let section = sections[i];
        let end: u64 = section.virtual_address as u64 + section.virtual_size as u64;
        let sum: u64 = end + section.pointer_to_raw_data as u64 + section.size_of_raw_data as u64
            + file_alignment as u64 + 0xfff;
        if end > u32::MAX as u64 || sum > usize::MAX as u64 {
            return false;
        }
        i += 1;
    }
    true
}

/// Translates a relative virtual address into a file offset.
///
/// Returns what the section table gives for the address; `None` where no
/// section holds it, and where the table is not addressable.
pub fn resolve(rva: usize, sections: &Vec<Section>, file_alignment: u32) -> (r: Option<usize>)
    ensures
        r == resolved(rva, sections@, file_alignment),
{
    if is_addressable(sections, file_alignment) {
        find_offset(rva, sections, file_alignment)
    } else {
        None
    }
}

} // verus!
