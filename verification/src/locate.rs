//! Which data entries belong to the text tables.
//!
//! The data entries lie in the order of the name-level directories, one for
//! each of their entries.  Those of a matched directory are taken to form one
//! run: before it lie the entries of the directories in front of each match,
//! in it as many entries as the matched directories declare.  Where two
//! matches are not neighbours the run is not theirs alone; this is how the
//! format is read here, and it is kept.

use crate::directory::ResourceDir;
use vstd::prelude::*;

verus! {

/// The run of data entries to decode: `skip_count` entries lie before it,
/// `read_count` entries are in it.
#[derive(Debug, Clone, Copy, PartialEq, Eq, Structural)]
pub struct LeafRange {
    pub skip_count: u64,
    pub read_count: u64,
}

/// The number of entries that each directory declares.
pub open spec fn entry_counts(dirs: Seq<ResourceDir>) -> Seq<int> {
    Seq::new(dirs.len(), |i: int| dirs[i].entry_count())
}

/// The sum of the first `upto` counts.
pub open spec fn entries_before(counts: Seq<int>, upto: int) -> int
    decreases upto,
{
    if upto <= 0 {
        0
    } else {
        entries_before(counts, upto - 1) + counts[upto - 1]
    }
}

/// The sum, over the matches, of the count at the match.
pub open spec fn read_count(counts: Seq<int>, matches: Seq<usize>) -> int
    decreases matches.len(),
{
    if matches.len() == 0 {
        0
    } else {
        read_count(counts, matches.drop_last()) + counts[matches.last() as int]
    }
}

/// The sum, over the matches, of the counts in front of the match.
pub open spec fn skip_count(counts: Seq<int>, matches: Seq<usize>) -> int
    decreases matches.len(),
{
    if matches.len() == 0 {
        0
    } else {
        skip_count(counts, matches.drop_last()) + entries_before(counts, matches.last() as int)
    }
}

/// No count is negative.
pub open spec fn counts_natural(counts: Seq<int>) -> bool {
    forall|i: int| 0 <= i < counts.len() ==> #[trigger] counts[i] >= 0
}

/// Every match is the index of a count.
pub open spec fn matches_in_range(counts: Seq<int>, matches: Seq<usize>) -> bool {
    forall|k: int| 0 <= k < matches.len() ==> #[trigger] matches[k] < counts.len()
}

/// A sum of counts grows with the number of counts summed.
pub proof fn lemma_entries_before_grows(counts: Seq<int>, a: int, b: int)
    requires
        counts_natural(counts),
        0 <= a <= b <= counts.len(),
    ensures
        0 <= entries_before(counts, a) <= entries_before(counts, b),
    decreases b,
{
    if a < b {
        lemma_entries_before_grows(counts, a, b - 1);
    } else if a > 0 {
        lemma_entries_before_grows(counts, a - 1, a - 1);
    }
}

/// Both sums over the first `k` matches are at most the sums over all.
pub proof fn lemma_sums_grow(counts: Seq<int>, matches: Seq<usize>, k: int)
    requires
        counts_natural(counts),
        matches_in_range(counts, matches),
        0 <= k <= matches.len(),
    ensures
        0 <= read_count(counts, matches.take(k)) <= read_count(counts, matches),
        0 <= skip_count(counts, matches.take(k)) <= skip_count(counts, matches),
    decreases matches.len() - k,
{
    if k == matches.len() {
        assert(matches.take(k) =~= matches);
        lemma_sums_natural(counts, matches);
    } else {
        lemma_sums_grow(counts, matches, k + 1);
        let longer = matches.take(k + 1);
        assert(longer.drop_last() =~= matches.take(k));
        lemma_entries_before_grows(counts, 0, matches[k] as int);
        lemma_sums_natural(counts, matches.take(k));
    }
}

/// Neither sum is negative.
pub proof fn lemma_sums_natural(counts: Seq<int>, matches: Seq<usize>)
    requires
        counts_natural(counts),
        matches_in_range(counts, matches),
    ensures
        0 <= read_count(counts, matches),
        0 <= skip_count(counts, matches),
    decreases matches.len(),
{
    if matches.len() > 0 {
        lemma_sums_natural(counts, matches.drop_last());
        lemma_entries_before_grows(counts, 0, matches.last() as int);
    }
}

/// With no count above `bound`, the entries to read are at most `bound` for
/// each match, and the entries to skip at most `bound` for each match and
/// each directory.
pub proof fn lemma_sums_bounded(counts: Seq<int>, matches: Seq<usize>, bound: int)
    requires
        0 <= bound,
        matches_in_range(counts, matches),
        forall|i: int| 0 <= i < counts.len() ==> 0 <= #[trigger] counts[i] <= bound,
    ensures
        read_count(counts, matches) <= matches.len() * bound,
        skip_count(counts, matches) <= matches.len() * (counts.len() * bound),
    decreases matches.len(),
{
    if matches.len() > 0 {
        let front = matches.drop_last();
        let last = matches.last() as int;
        lemma_sums_bounded(counts, front, bound);
        lemma_prefix_bounded(counts, last, bound);
        assert(last * bound <= counts.len() * bound) by (nonlinear_arith)
            requires
                0 <= last <= counts.len(),
                0 <= bound,
        ;
        assert(matches.len() * bound == front.len() * bound + bound) by (nonlinear_arith)
            requires
                matches.len() == front.len() + 1,
        ;
        assert(matches.len() * (counts.len() * bound) == front.len() * (counts.len() * bound)
            + counts.len() * bound) by (nonlinear_arith)
            requires
                matches.len() == front.len() + 1,
        ;
    }
}

/// With no count above `bound`, the first `upto` counts sum to at most
/// `bound` for each.
pub proof fn lemma_prefix_bounded(counts: Seq<int>, upto: int, bound: int)
    requires
        0 <= upto <= counts.len(),
        forall|i: int| 0 <= i < counts.len() ==> 0 <= #[trigger] counts[i] <= bound,
    ensures
        entries_before(counts, upto) <= upto * bound,
    decreases upto,
{
    if upto > 0 {
        lemma_prefix_bounded(counts, upto - 1, bound);
        assert(upto * bound == (upto - 1) * bound + bound) by (nonlinear_arith);
    } else {
        assert(upto * bound == 0) by (nonlinear_arith)
            requires
                upto == 0,
        ;
    }
}

/// Computes the run of data entries that belongs to the matched directories.
///
/// `target_dir_index` holds the indices of the matched name-level
/// directories.  The entries to read are those that the matched directories
/// declare; the entries to skip are, for each match, those that the
/// directories in front of it declare.
pub fn locate_leaves(named_dirs: &Vec<ResourceDir>, target_dir_index: &Vec<usize>) -> (range:
    LeafRange)
    requires
        matches_in_range(entry_counts(named_dirs@), target_dir_index@),
        skip_count(entry_counts(named_dirs@), target_dir_index@) <= u64::MAX,
        read_count(entry_counts(named_dirs@), target_dir_index@) <= u64::MAX,
    ensures
        range.skip_count == skip_count(entry_counts(named_dirs@), target_dir_index@),
        range.read_count == read_count(entry_counts(named_dirs@), target_dir_index@),
{
    let ghost counts = entry_counts(named_dirs@);
    let ghost matches = target_dir_index@;
    let mut skip_count: u64 = 0;
    let mut read_count: u64 = 0;
    let mut k: usize = 0;
    while k < target_dir_index.len()
        invariant
            counts == entry_counts(named_dirs@),
            matches == target_dir_index@,
            counts_natural(counts),
            matches_in_range(counts, matches),
            self::skip_count(counts, matches) <= u64::MAX,
            self::read_count(counts, matches) <= u64::MAX,
            k <= matches.len(),
            skip_count == self::skip_count(counts, matches.take(k as int)),
            read_count == self::read_count(counts, matches.take(k as int)),
        decreases target_dir_index.len() - k,
    {
        let i = target_dir_index[k];
        let ghost longer = matches.take(k + 1);
        proof {
            assert(longer.drop_last() =~= matches.take(k as int));
            lemma_sums_grow(counts, matches, k + 1);
            lemma_entries_before_grows(counts, 0, i as int);
        }
        read_count += named_dirs[i].num_of_entries() as u64;
        let ghost skipped = skip_count;
        let mut j: usize = 0;
        while j < i
            invariant
                counts == entry_counts(named_dirs@),
                counts_natural(counts),
                i < named_dirs.len(),
                j <= i,
                skip_count == skipped + entries_before(counts, j as int),
                skipped + entries_before(counts, i as int) <= u64::MAX,
            decreases i - j,
        {
            proof {
                lemma_entries_before_grows(counts, j + 1, i as int);
            }
            skip_count += named_dirs[j].num_of_entries() as u64;
            j += 1;
        }
        k += 1;
    }
    assert(matches.take(k as int) =~= matches);
    LeafRange { skip_count, read_count }
}

} // verus!
