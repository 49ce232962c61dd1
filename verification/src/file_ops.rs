//! Directory-listing entries, their display order, and the construction of a
//! sorted (and optionally name-filtered) listing from what the directory
//! lister hands over.

use vstd::prelude::*;
use crate::utils::{
    contains_seq, file_name_of, lemma_lex_le_total, lemma_lex_le_trans, lex_le, split_path_to_name,
    str_contains, str_lex_le,
};

verus! {

/// One row of the directory listing: an audio file or a sub-directory, each
/// carrying its full path.
#[derive(PartialEq, Eq, Clone, Debug)]
pub enum DirectoryItem {
    File(String),
    Directory(String),
}

impl DirectoryItem {
    /// The path carried by the entry.
    pub open spec fn path_spec(self) -> Seq<char> {
        match self {
            DirectoryItem::File(p) => p@,
            DirectoryItem::Directory(p) => p@,
        }
    }

    /// Whether the entry is a sub-directory.
    pub open spec fn is_directory(self) -> bool {
        match self {
            DirectoryItem::File(_) => false,
            DirectoryItem::Directory(_) => true,
        }
    }
}

/// Structured metadata of one audio file, with the duration in whole seconds.
#[derive(PartialEq, Eq, Clone, Debug)]
pub struct Audio {
    pub artist: String,
    pub title: String,
    pub album: String,
    pub duration: u64,
}

/// The display order of listing entries: directories before files, and
/// entries of the same kind in lexicographic path order.
pub open spec fn entry_le(a: DirectoryItem, b: DirectoryItem) -> bool {
    if a.is_directory() && !b.is_directory() {
        true
    } else if !a.is_directory() && b.is_directory() {
        false
    } else {
        lex_le(a.path_spec(), b.path_spec())
    }
}

/// The listing is sorted by `entry_le`.
pub open spec fn sorted_listing(s: Seq<DirectoryItem>) -> bool {
    forall|i: int, j: int| 0 <= i < j < s.len() ==> entry_le(#[trigger] s[i], #[trigger] s[j])
}

pub proof fn lemma_entry_le_total(a: DirectoryItem, b: DirectoryItem)
    ensures
        entry_le(a, b) || entry_le(b, a),
{
    lemma_lex_le_total(a.path_spec(), b.path_spec());
}

pub proof fn lemma_entry_le_trans(a: DirectoryItem, b: DirectoryItem, c: DirectoryItem)
    requires
        entry_le(a, b),
        entry_le(b, c),
    ensures
        entry_le(a, c),
{
    if a.is_directory() == b.is_directory() && b.is_directory() == c.is_directory() {
        lemma_lex_le_trans(a.path_spec(), b.path_spec(), c.path_spec());
    }
}

/// Decides `entry_le`.
fn entry_le_exec(a: &DirectoryItem, b: &DirectoryItem) -> (r: bool)
    ensures
        r == entry_le(*a, *b),
{
    match (a, b) {
        (DirectoryItem::Directory(_), DirectoryItem::File(_)) => true,
        (DirectoryItem::File(_), DirectoryItem::Directory(_)) => false,
        (DirectoryItem::File(pa), DirectoryItem::File(pb)) => str_lex_le(pa.as_str(), pb.as_str()),
        (DirectoryItem::Directory(pa), DirectoryItem::Directory(pb)) => str_lex_le(
            pa.as_str(),
            pb.as_str(),
        ),
    }
}

/// Sorts the listing into display order: directories before files, each kind
/// in lexicographic path order; the entries themselves are kept, as a
/// multiset.
pub fn sort_listing(v: &mut Vec<DirectoryItem>)
    ensures
        sorted_listing(final(v)@),
        final(v)@.to_multiset() == old(v)@.to_multiset(),
{
    broadcast use vstd::seq_lib::group_to_multiset_ensures;
    broadcast use vstd::multiset::group_multiset_axioms;

    let n = v.len();
    if n <= 1 {
        return ;
    }
    let mut i: usize = 1;
    while i < n
        invariant
            1 <= i <= n,
            v@.len() == n,
            sorted_listing(v@.subrange(0, i as int)),
            v@.to_multiset() == old(v)@.to_multiset(),
        decreases n - i,
    {
        let ghost prev = v@;
        let x = v.remove(i);
        proof {
            assert(prev.subrange(0, i as int) =~= v@.subrange(0, i as int));
        }
        let mut j: usize = i;
        while j > 0 && !entry_le_exec(&v[j - 1], &x)
            invariant
                0 <= j <= i,
                i < n,
                v@.len() == n - 1,
                sorted_listing(v@.subrange(0, i as int)),
                forall|k: int| j <= k < i ==> entry_le(x, #[trigger] v@[k]),
            decreases j,
        {
            proof {
                lemma_entry_le_total(x, v@[j - 1]);
            }
            j = j - 1;
        }
        let ghost mid = v@;
        proof {
            if j > 0 {
                assert(entry_le(mid[j - 1], x));
                assert forall|p: int| 0 <= p < j implies entry_le(#[trigger] mid[p], x) by {
                    if p < j - 1 {
                        assert(entry_le(
                            mid.subrange(0, i as int)[p],
                            mid.subrange(0, i as int)[j - 1],
                        ));
                        lemma_entry_le_trans(mid[p], mid[j - 1], x);
                    }
                }
            }
        }
        v.insert(j, x);
        proof {
            let si = v@.subrange(0, i + 1);
            assert forall|p: int, q: int| 0 <= p < q < si.len() implies entry_le(
                #[trigger] si[p],
                #[trigger] si[q],
            ) by {
                let sorted_prefix = mid.subrange(0, i as int);
                if p < j && q < j {
                    assert(si[p] == sorted_prefix[p]);
                    assert(si[q] == sorted_prefix[q]);
                } else if p < j && q == j {
                    assert(si[p] == mid[p] && si[q] == x);
                } else if p < j && q > j {
                    assert(si[p] == mid[p]);
                    assert(si[q] == mid[q - 1]);
                    assert(entry_le(x, mid[q - 1]));
                    lemma_entry_le_trans(mid[p], x, mid[q - 1]);
                } else if p == j {
                    assert(si[p] == x);
                    assert(si[q] == mid[q - 1]);
                    assert(entry_le(x, mid[q - 1]));
                } else {
                    assert(si[p] == sorted_prefix[p - 1]);
                    assert(si[q] == sorted_prefix[q - 1]);
                }
            }
            assert(sorted_listing(v@.subrange(0, i + 1)));
            vstd::seq_lib::to_multiset_remove(prev, i as int);
            vstd::seq_lib::to_multiset_insert(mid, j as int, x);
            assert(prev.contains(x)) by {
                assert(prev[i as int] == x);
            }
            vstd::seq_lib::to_multiset_contains(prev, x);
            assert(v@.to_multiset() =~= prev.to_multiset());
        }
        i = i + 1;
    }
    proof {
        assert(v@.subrange(0, n as int) =~= v@);
    }
}

/// Whether an entry's display name (the path after its last `'/'`) holds
/// `pat` as a substring.
pub open spec fn entry_name_matches(it: DirectoryItem, pat: Seq<char>) -> bool {
    contains_seq(file_name_of(it.path_spec()), pat)
}

/// Keeps the entries whose display name holds `astrict`, in their given
/// order.
pub fn filter_listing(items: Vec<DirectoryItem>, astrict: &str) -> (kept: Vec<DirectoryItem>)
    ensures
        kept@ == items@.filter(|it: DirectoryItem| entry_name_matches(it, astrict@)),
{
    broadcast use vstd::seq_lib::group_filter_ensures;

    let mut kept: Vec<DirectoryItem> = Vec::new();
    let n = items.len();
    let mut i: usize = 0;
    while i < n
        invariant
            0 <= i <= n,
            n == items@.len(),
            kept@ == items@.subrange(0, i as int).filter(
                |it: DirectoryItem| entry_name_matches(it, astrict@),
            ),
        decreases n - i,
    {
        let ghost prefix = items@.subrange(0, i as int);
        let name = split_path_to_name(items[i].path_str());
        let keep = str_contains(name.as_str(), astrict);
        if keep {
            let item = items[i].clone_item();
            kept.push(item);
        }
        proof {
            assert(items@.subrange(0, i + 1).drop_last() =~= prefix);
            assert(items@.subrange(0, i + 1).last() == items@[i as int]);
            reveal(Seq::filter);
        }
        i = i + 1;
    }
    proof {
        assert(items@.subrange(0, n as int) =~= items@);
    }
    kept
}

impl DirectoryItem {
    /// The carried path, as a string slice.
    pub fn path_str(&self) -> (p: &str)
        ensures
            p@ == self.path_spec(),
    {
        match self {
            DirectoryItem::File(p) => p.as_str(),
            DirectoryItem::Directory(p) => p.as_str(),
        }
    }

    /// A copy of the entry, equal to it.
    pub fn clone_item(&self) -> (r: DirectoryItem)
        ensures
            r == *self,
    {
        match self {
            DirectoryItem::File(p) => DirectoryItem::File(p.clone()),
            DirectoryItem::Directory(p) => DirectoryItem::Directory(p.clone()),
        }
    }
}

/// In a sorted listing no directory follows a file: once a file appears,
/// everything after it is a file.
pub proof fn lemma_sorted_dirs_before_files(s: Seq<DirectoryItem>)
    requires
        sorted_listing(s),
    ensures
        forall|i: int, j: int|
            0 <= i < j < s.len() && !(#[trigger] s[i]).is_directory() ==> !(
            #[trigger] s[j]).is_directory(),
{
    assert forall|i: int, j: int|
        0 <= i < j < s.len() && !(#[trigger] s[i]).is_directory() implies !(
    #[trigger] s[j]).is_directory() by {
        assert(entry_le(s[i], s[j]));
    }
}

} // verus!
