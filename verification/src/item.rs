//! Trashed-item records and the path decomposition that fills them.
//!
//! After a successful relocation the caller receives one record per
//! input path, in input order: where the entry now is, what it was
//! called, and which directory held it before the move. Name and
//! original parent always describe the pre-move identity, taken from
//! the canonicalized path; the new location is whatever the executing
//! strategy reported, renamed or not.

use vstd::prelude::*;

use crate::codec::{spec_encode, spec_decode, MARKER, lemma_decode_encode, lemma_encode_injective};

verus! {

/// The path separator: an ASCII slash.
pub const SEPARATOR: u8 = 0x2f;

/// Copies a byte sequence.
pub(crate) fn copy_bytes(src: &Vec<u8>) -> (r: Vec<u8>)
    ensures
        r@ == src@,
{
    let mut out: Vec<u8> = Vec::new();
    let mut i: usize = 0;
    proof {
        assert(src@.take(0) =~= Seq::<u8>::empty());
    }
    while i < src.len()
        invariant
            i <= src@.len(),
            out@ == src@.take(i as int),
        decreases src@.len() - i,
    {
        proof {
            assert(src@.take(i + 1) =~= src@.take(i as int) + seq![src@[i as int]]);
        }
        out.push(src[i]);
        i = i + 1;
    }
    proof {
        assert(src@.take(src@.len() as int) =~= src@);
    }
    out
}

/// Appends all of `add` to `out`.
pub(crate) fn push_all(out: &mut Vec<u8>, add: &Vec<u8>)
    ensures
        final(out)@ == old(out)@ + add@,
{
    let mut i: usize = 0;
    proof {
        assert(old(out)@ + add@.take(0) =~= old(out)@);
    }
    while i < add.len()
        invariant
            i <= add@.len(),
            out@ == old(out)@ + add@.take(i as int),
        decreases add@.len() - i,
    {
        proof {
            assert(old(out)@ + add@.take(i + 1) =~= (old(out)@ + add@.take(i as int)) + seq![
                add@[i as int],
            ]);
        }
        out.push(add[i]);
        i = i + 1;
    }
    proof {
        assert(add@.take(add@.len() as int) =~= add@);
    }
}

/// One successfully relocated entry.
#[derive(Debug)]
pub struct TrashedItem {
    /// Where the entry is now, as reported by the strategy that moved
    /// it. When the destination renamed the entry to avoid a
    /// collision, this is the renamed location.
    pub id: Vec<u8>,
    /// The entry's final path component before the move.
    pub name: Vec<u8>,
    /// The directory that contained the entry before the move.
    pub original_parent: Vec<u8>,
    /// When the entry was relocated.
    pub time_deleted: i64,
}

/// The index of the last separator in `p`, or `-1` when there is none.
pub open spec fn last_sep_index(p: Seq<u8>) -> int
    decreases p.len(),
{
    if p.len() == 0 {
        -1
    } else if p[p.len() - 1] == SEPARATOR {
        p.len() - 1
    } else {
        last_sep_index(p.drop_last())
    }
}

/// The final path component: everything after the last separator.
pub open spec fn spec_name_of(p: Seq<u8>) -> Seq<u8> {
    p.subrange(last_sep_index(p) + 1, p.len() as int)
}

/// The containing directory: everything before the last separator,
/// except that the root keeps its single separator.
pub open spec fn spec_parent_of(p: Seq<u8>) -> Seq<u8> {
    let i = last_sep_index(p);
    if i < 0 {
        Seq::empty()
    } else if i == 0 {
        p.subrange(0, 1)
    } else {
        p.subrange(0, i)
    }
}

/// A record's name and original parent describe exactly this pre-move
/// path.
pub open spec fn item_matches(item: TrashedItem, path: Seq<u8>) -> bool {
    &&& item.name@ == spec_name_of(path)
    &&& item.original_parent@ == spec_parent_of(path)
}

/// When no byte of `p` at an index at or past `j` is a separator, the
/// last separator of `p` lies in the prefix before `j`.
proof fn lemma_last_sep_scan(p: Seq<u8>, j: int)
    requires
        0 <= j <= p.len(),
        forall|k: int| j <= k < p.len() ==> #[trigger] p[k] != SEPARATOR,
    ensures
        last_sep_index(p) == last_sep_index(p.take(j)),
    decreases p.len() - j,
{
    if j == p.len() {
        assert(p.take(j) =~= p);
    } else {
        assert(p[p.len() - 1] != SEPARATOR);
        lemma_last_sep_scan(p.drop_last(), j);
        assert(p.drop_last().take(j) =~= p.take(j));
    }
}

/// Splits a path into its containing directory and final component.
pub fn split_path(p: &Vec<u8>) -> (r: (Vec<u8>, Vec<u8>))
    ensures
        r.0@ == spec_parent_of(p@),
        r.1@ == spec_name_of(p@),
{
    let mut j: usize = p.len();
    while j > 0 && p[j - 1] != SEPARATOR
        invariant
            j <= p@.len(),
            forall|k: int| j <= k < p@.len() ==> #[trigger] p@[k] != SEPARATOR,
        decreases j,
    {
        j = j - 1;
    }
    proof {
        lemma_last_sep_scan(p@, j as int);
        if j > 0 {
            assert(p@.take(j as int)[j - 1] == SEPARATOR);
            assert(last_sep_index(p@.take(j as int)) == j - 1);
        }
        assert(last_sep_index(p@) == j - 1);
    }
    let mut name: Vec<u8> = Vec::new();
    let mut k: usize = j;
    proof {
        assert(p@.subrange(j as int, j as int) =~= Seq::<u8>::empty());
    }
    while k < p.len()
        invariant
            j <= k <= p@.len(),
            name@ == p@.subrange(j as int, k as int),
        decreases p@.len() - k,
    {
        proof {
            assert(p@.subrange(j as int, k + 1) =~= p@.subrange(j as int, k as int) + seq![p@[k as int]]);
        }
        name.push(p[k]);
        k = k + 1;
    }
    let parent_end: usize = if j > 1 {
        j - 1
    } else {
        j
    };
    let mut parent: Vec<u8> = Vec::new();
    let mut m: usize = 0;
    proof {
        assert(p@.subrange(0, 0) =~= Seq::<u8>::empty());
    }
    while m < parent_end
        invariant
            m <= parent_end <= p@.len(),
            parent@ == p@.subrange(0, m as int),
        decreases parent_end - m,
    {
        proof {
            assert(p@.subrange(0, m + 1) =~= p@.subrange(0, m as int) + seq![p@[m as int]]);
        }
        parent.push(p[m]);
        m = m + 1;
    }
    proof {
        assert(parent@ == spec_parent_of(p@));
        assert(name@ == spec_name_of(p@));
    }
    (parent, name)
}

/// Builds the record for one relocated entry: the reported new
/// location as-is, name and original parent from the pre-move path.
pub fn trashed_item_for(path: &Vec<u8>, id: Vec<u8>, time_deleted: i64) -> (item: TrashedItem)
    requires
        path@.len() > 0,
    ensures
        item.id@ == id@,
        item.time_deleted == time_deleted,
        item_matches(item, path@),
{
    let (parent, name) = split_path(path);
    TrashedItem { id, name, original_parent: parent, time_deleted }
}

/// Best-effort reconciliation after a successful automation-script
/// batch. When the interface reported one identifier per input, the
/// identifiers map back to the inputs positionally — input order is
/// preserved — and one record per path is returned. When it reported
/// none, or a number that cannot correspond, the deletion still stands
/// but no records are claimed: the caller gets a bare success signal,
/// never a partial list posing as complete data.
pub fn reconcile_script_items(
    paths: &Vec<Vec<u8>>,
    reported: Option<Vec<Vec<u8>>>,
    time_deleted: i64,
) -> (r: Option<Vec<TrashedItem>>)
    requires
        forall|i: int|
            0 <= i < paths.deep_view().len() ==> (#[trigger] paths.deep_view()[i]).len() > 0,
    ensures
        match reported {
            None => r is None,
            Some(ids) => {
                if ids@.len() == paths@.len() {
                    r matches Some(items) && items@.len() == paths@.len() && (forall|i: int|
                        0 <= i < items@.len() ==> {
                            let it = #[trigger] items@[i];
                            &&& item_matches(it, paths.deep_view()[i])
                            &&& it.id@ == ids.deep_view()[i]
                            &&& it.time_deleted == time_deleted
                        })
                } else {
                    r is None
                }
            },
        },
{
    let ids = match reported {
        Some(ids) => ids,
        None => {
            return None;
        },
    };
    if ids.len() != paths.len() {
        return None;
    }
    let ghost ps = paths.deep_view();
    let mut items: Vec<TrashedItem> = Vec::new();
    let mut i: usize = 0;
    while i < paths.len()
        invariant
            i <= ps.len(),
            ps == paths.deep_view(),
            ps.len() == paths@.len(),
            ids@.len() == paths@.len(),
            forall|j: int| 0 <= j < ps.len() ==> (#[trigger] ps[j]).len() > 0,
            items@.len() == i,
            forall|j: int|
                0 <= j < i ==> {
                    let it = #[trigger] items@[j];
                    &&& item_matches(it, ps[j])
                    &&& it.id@ == ids.deep_view()[j]
                    &&& it.time_deleted == time_deleted
                },
        decreases ps.len() - i,
    {
        assert(paths[i as int]@ == ps[i as int]);
        assert(ids@[i as int].deep_view() =~= ids@[i as int]@);
        let id = copy_bytes(&ids[i]);
        let item = trashed_item_for(&paths[i], id, time_deleted);
        items.push(item);
        i = i + 1;
    }
    Some(items)
}

/// A path whose final component holds the escape marker still
/// round-trips through the codec exactly, and its encoding collides
/// with no other path's — in particular not with the path that merely
/// has that marker pre-escaped as data.
pub proof fn lemma_marker_path_distinct(path: Seq<u8>, other: Seq<u8>)
    requires
        spec_name_of(path).contains(MARKER),
        other != path,
    ensures
        spec_decode(spec_encode(path)) == Some(path),
        spec_encode(other) != spec_encode(path),
{
    lemma_decode_encode(path);
    lemma_encode_injective(other, path);
}

} // verus!
