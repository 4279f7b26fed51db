//! The walk over the directory tree.
//!
//! The three levels of the tree lie back to back: the type directory, then
//! one name directory for each of its entries, then one language directory
//! for each entry of each name directory.  The walk reads them in this order,
//! one behind the other, without following the offsets in the entries.

use crate::directory::{
    dir_entry_count,
    dir_fields_read,
    dir_fits,
    dir_size,
    read_dir,
    ResourceDir,
    ResourceDirEntry,
};
use crate::locate::{
    counts_natural,
    entries_before,
    entry_counts,
    lemma_entries_before_grows,
    lemma_sums_bounded,
    locate_leaves,
    read_count,
    skip_count,
    LeafRange,
};
use crate::reader::left;
use scroll::Error as ScrollError;
use vstd::prelude::*;

verus! {

/// The resource type of a string table.
pub const STRING_TABLE: u32 = 0x6;

/// The resource type of a message table.
pub const MESSAGE_TABLE: u32 = 0xb;

/// The most entries that a directory can declare: two 16-bit counts.
pub const MAX_ENTRIES: u64 = 0x1_fffe;

/// A resource type whose payload is text.
pub open spec fn is_text_type(id: u32) -> bool {
    id == STRING_TABLE || id == MESSAGE_TABLE
}

/// The indices, among the first `upto` entries, of those with a text type.
pub open spec fn text_types(entries: Seq<ResourceDirEntry>, upto: int) -> Seq<usize>
    decreases upto,
{
    if upto <= 0 {
        Seq::empty()
    } else if is_text_type(entries[upto - 1].name) {
        text_types(entries, upto - 1).push((upto - 1) as usize)
    } else {
        text_types(entries, upto - 1)
    }
}

/// Where a run of reads has come to, and whether every directory was whole.
pub struct Run {
    pub cursor: int,
    pub whole: bool,
}

/// Reading `count` directories back to back from `at`.  The run ends with the
/// first directory that the buffer does not hold whole; the cursor then rests
/// behind the last field of it that was read.
pub open spec fn read_dirs(bytes: Seq<u8>, at: int, count: nat) -> Run
    decreases count,
{
    if count == 0 {
        Run { cursor: at, whole: true }
    } else {
        let before = read_dirs(bytes, at, (count - 1) as nat);
        if !before.whole {
            before
        } else if dir_fits(bytes, before.cursor) {
            Run { cursor: before.cursor + dir_size(bytes, before.cursor), whole: true }
        } else {
            Run {
                cursor: before.cursor + dir_fields_read(left(bytes, before.cursor)),
                whole: false,
            }
        }
    }
}

/// The entry counts of `count` directories that lie back to back from `at`.
pub open spec fn counts_from(bytes: Seq<u8>, at: int, count: nat) -> Seq<int> {
    Seq::new(count, |i: int| dir_entry_count(bytes, read_dirs(bytes, at, i as nat).cursor))
}

/// The entries of the directory at `at`.
pub open spec fn entries_at(bytes: Seq<u8>, at: int) -> Seq<ResourceDirEntry> {
    Seq::new(
        dir_entry_count(bytes, at) as nat,
        |i: int| ResourceDirEntry::at(bytes, at + 16 + 8 * i),
    )
}

/// What a walk comes to: where the cursor rests, and, where every directory
/// was whole, the number of data entries to skip and to read.
pub struct Walk {
    pub cursor: int,
    pub leaves: Option<(int, int)>,
}

/// The walk from the type directory at `at`.
///
/// The type directory is read, then as many name directories as it has
/// entries, then as many language directories as the name directories have
/// entries together.  The name directory of a type entry is the one with the
/// same index; those of the text types are the matches of the leaf range.
pub open spec fn walk(bytes: Seq<u8>, at: int) -> Walk {
    let root = read_dirs(bytes, at, 1);
    if !root.whole {
        Walk { cursor: root.cursor, leaves: None }
    } else {
        let n = dir_entry_count(bytes, at);
        let names = read_dirs(bytes, root.cursor, n as nat);
        if !names.whole {
            Walk { cursor: names.cursor, leaves: None }
        } else {
            let counts = counts_from(bytes, root.cursor, n as nat);
            let langs = read_dirs(bytes, names.cursor, entries_before(counts, n) as nat);
            if !langs.whole {
                Walk { cursor: langs.cursor, leaves: None }
            } else {
                let matches = text_types(entries_at(bytes, at), n);
                Walk {
                    cursor: langs.cursor,
                    leaves: Some((skip_count(counts, matches), read_count(counts, matches))),
                }
            }
        }
    }
}

/// A run that has ended stays where it is.
pub proof fn lemma_run_ended(bytes: Seq<u8>, at: int, count: nat, more: nat)
    requires
        count <= more,
        !read_dirs(bytes, at, count).whole,
    ensures
        read_dirs(bytes, at, more) == read_dirs(bytes, at, count),
    decreases more,
{
    if count < more {
        lemma_run_ended(bytes, at, count, (more - 1) as nat);
    }
}

/// The indices of the text types are below `upto`, and there are at most
/// `upto` of them.
pub proof fn lemma_text_types_in_range(entries: Seq<ResourceDirEntry>, upto: int)
    ensures
        text_types(entries, upto).len() <= if upto <= 0 { 0 } else { upto },
        forall|k: int|
            0 <= k < text_types(entries, upto).len() ==> #[trigger] text_types(entries, upto)[k]
                < upto,
    decreases upto,
{
    if upto > 0 {
        lemma_text_types_in_range(entries, upto - 1);
    }
}

/// A run of `first + more` directories is a run of `first` and, from where
/// that one ends, a run of `more`.
pub proof fn lemma_run_joined(bytes: Seq<u8>, at: int, first: nat, more: nat)
    requires
        read_dirs(bytes, at, first).whole,
    ensures
        read_dirs(bytes, at, first + more) == read_dirs(
            bytes,
            read_dirs(bytes, at, first).cursor,
            more,
        ),
    decreases more,
{
    if more > 0 {
        lemma_run_joined(bytes, at, first, (more - 1) as nat);
    }
}

/// Collects the indices of the entries with a text type.
pub fn match_text_types(entries: &Vec<ResourceDirEntry>) -> (target_dir_index: Vec<usize>)
    ensures
        target_dir_index@ == text_types(entries@, entries@.len() as int),
{
    let mut target_dir_index: Vec<usize> = Vec::new();
    let mut i: usize = 0;
    while i < entries.len()
        invariant
            i <= entries.len(),
            target_dir_index@ == text_types(entries@, i as int),
        decreases entries.len() - i,
    {
        if entries[i].name == STRING_TABLE || entries[i].name == MESSAGE_TABLE {
            target_dir_index.push(i);
        }
        i += 1;
    }
    target_dir_index
}

/// Reads `count` directories that lie back to back from the cursor.
///
/// Succeeds exactly when the buffer holds every one of them whole; the result
/// then holds them in the order of the file.
pub fn read_dirs_in_row(buffer: &Vec<u8>, offset: &mut usize, count: usize) -> (r: Result<
    Vec<ResourceDir>,
    ScrollError,
>)
    ensures
        *final(offset) == read_dirs(buffer@, *old(offset) as int, count as nat).cursor,
        r is Ok <==> read_dirs(buffer@, *old(offset) as int, count as nat).whole,
        r is Ok ==> r->Ok_0@.len() == count && forall|k: int|
            0 <= k < count ==> (#[trigger] r->Ok_0@[k]).is_at(
                buffer@,
                read_dirs(buffer@, *old(offset) as int, k as nat).cursor,
            ),
{
    let ghost bytes = buffer@;
    let ghost start = *offset as int;
    let mut dirs: Vec<ResourceDir> = Vec::new();
    let mut i: usize = 0;
    while i < count
        invariant
            bytes == buffer@,
            start == *old(offset),
            i <= count,
            dirs@.len() == i,
            read_dirs(bytes, start, i as nat).whole,
            *offset == read_dirs(bytes, start, i as nat).cursor,
            forall|k: int|
                0 <= k < i ==> (#[trigger] dirs@[k]).is_at(
                    bytes,
                    read_dirs(bytes, start, k as nat).cursor,
                ),
        decreases count - i,
    {
        match read_dir(buffer, offset) {
            Ok(dir) => {
                dirs.push(dir);
            },
            Err(e) => {
                proof {
                    lemma_run_ended(bytes, start, (i + 1) as nat, count as nat);
                }
                return Err(e);
            },
        }
        i += 1;
    }
    Ok(dirs)
}

/// Reads past `count` directories that lie back to back from the cursor.
///
/// Succeeds exactly when the buffer holds every one of them whole.
pub fn skip_dirs_in_row(buffer: &Vec<u8>, offset: &mut usize, count: usize) -> (r: Result<
    (),
    ScrollError,
>)
    ensures
        *final(offset) == read_dirs(buffer@, *old(offset) as int, count as nat).cursor,
        r is Ok <==> read_dirs(buffer@, *old(offset) as int, count as nat).whole,
{
    let ghost bytes = buffer@;
    let ghost start = *offset as int;
    let mut i: usize = 0;
    while i < count
        invariant
            bytes == buffer@,
            start == *old(offset),
            i <= count,
            read_dirs(bytes, start, i as nat).whole,
            *offset == read_dirs(bytes, start, i as nat).cursor,
        decreases count - i,
    {
        match read_dir(buffer, offset) {
            Ok(_) => {},
            Err(e) => {
                proof {
                    lemma_run_ended(bytes, start, (i + 1) as nat, count as nat);
                }
                return Err(e);
            },
        }
        i += 1;
    }
    Ok(())
}

/// Walks the directory tree from the type directory at the cursor and
/// computes the run of data entries that belongs to the text tables.
///
/// Succeeds exactly when the buffer holds every directory of the three
/// levels whole; the cursor then rests behind the last language directory,
/// where the data entries begin.  Otherwise the cursor rests behind the last
/// field that was read.
pub fn walk_directories(buffer: &Vec<u8>, offset: &mut usize) -> (r: Result<LeafRange, ScrollError>)
    ensures
        *final(offset) == walk(buffer@, *old(offset) as int).cursor,
        match walk(buffer@, *old(offset) as int).leaves {
            Some((skip, read)) => r is Ok && r->Ok_0.skip_count == skip && r->Ok_0.read_count
                == read,
            None => r is Err,
        },
{
    let ghost bytes = buffer@;
    let ghost start = *offset as int;
    proof {
        assert(read_dirs(bytes, start, 0) == (Run { cursor: start, whole: true }));
    }
    let rdir_root = read_dir(buffer, offset)?;
    let num_entries = rdir_root.num_of_entries();
    let target_dir_index = match_text_types(&rdir_root.entries);
    let ghost names_at = *offset as int;

    let named_dirs = read_dirs_in_row(buffer, offset, num_entries)?;
    let ghost counts = counts_from(bytes, names_at, num_entries as nat);
    let ghost langs_at = *offset as int;

    let mut a: usize = 0;
    while a < named_dirs.len()
        invariant
            bytes == buffer@,
            counts == entry_counts(named_dirs@),
            counts_natural(counts),
            forall|k: int|
                0 <= k < named_dirs@.len() ==> (#[trigger] named_dirs@[k]).entries@.len()
                    == named_dirs@[k].entry_count(),
            a <= named_dirs@.len(),
            read_dirs(bytes, langs_at, entries_before(counts, a as int) as nat).whole,
            *offset == read_dirs(bytes, langs_at, entries_before(counts, a as int) as nat).cursor,
            walk(bytes, start).cursor == read_dirs(
                bytes,
                langs_at,
                entries_before(counts, counts.len() as int) as nat,
            ).cursor,
            walk(bytes, start).leaves is Some ==> read_dirs(
                bytes,
                langs_at,
                entries_before(counts, counts.len() as int) as nat,
            ).whole,
            walk(bytes, start).cursor == walk(buffer@, *old(offset) as int).cursor,
            walk(bytes, start).leaves == walk(buffer@, *old(offset) as int).leaves,
        decreases named_dirs.len() - a,
    {
        let children = named_dirs[a].entries.len();
        let ghost done = entries_before(counts, a as int);
        proof {
            lemma_entries_before_grows(counts, 0, a as int);
            lemma_entries_before_grows(counts, a + 1, counts.len() as int);
            lemma_run_joined(bytes, langs_at, done as nat, children as nat);
        }
        match skip_dirs_in_row(buffer, offset, children) {
            Ok(_) => {},
            Err(e) => {
                proof {
                    lemma_run_ended(
                        bytes,
                        langs_at,
                        (done + children) as nat,
                        entries_before(counts, counts.len() as int) as nat,
                    );
                }
                return Err(e);
            },
        }
        a += 1;
    }

    proof {
        let matches = text_types(rdir_root.entries@, num_entries as int);
        lemma_text_types_in_range(rdir_root.entries@, num_entries as int);
        lemma_sums_bounded(counts, matches, MAX_ENTRIES as int);
        assert(matches.len() * (counts.len() * MAX_ENTRIES) <= MAX_ENTRIES * (MAX_ENTRIES
            * MAX_ENTRIES)) by (nonlinear_arith)
            requires
                matches.len() <= MAX_ENTRIES,
                counts.len() <= MAX_ENTRIES,
        ;
    }
    Ok(locate_leaves(&named_dirs, &target_dir_index))
}

} // verus!
