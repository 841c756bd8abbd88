//! The object tree over the record index. Parent/child edges are record ids,
//! not owning pointers: a node's children are exactly the indexed records
//! whose stored parent id is the node's record id. The root is the record
//! whose stored parent id is the root sentinel; a record whose parent id is
//! neither the sentinel nor an indexed id is an orphan, reported alongside
//! the tree rather than silently placed in it.

use vstd::prelude::*;
use vstd::seq_lib::*;

use crate::index::{has_id, spec_children, IndexEntry, RecordIndex};
use crate::RecordPointer;

verus! {

/// The stored parent id that marks the root record.
pub const ROOT_PARENT_ID: i32 = 0;

/// Whether an entry is an orphan among `entries`: its parent id is neither
/// the root sentinel nor an indexed record id.
pub open spec fn is_orphan(entries: Seq<IndexEntry>, e: IndexEntry) -> bool {
    e.parent_id != ROOT_PARENT_ID && !has_id(entries, e.parent_id)
}

/// The pointers of the orphan entries, in table order.
pub open spec fn spec_orphans(entries: Seq<IndexEntry>) -> Seq<RecordPointer> {
    entries.filter(|e: IndexEntry| is_orphan(entries, e)).map_values(|e: IndexEntry| e.ptr)
}

/// The object tree: the root records and the orphan report. Child edges are
/// answered by the index (`children_of`), so every reachable node's tree
/// parent matches its stored parent id by construction.
#[derive(Debug)]
pub struct ObjectTree {
    /// The records whose stored parent id is the root sentinel; a consistent
    /// artifact has exactly one.
    pub roots: Vec<RecordPointer>,
    /// The records whose parent id is never indexed.
    pub orphans: Vec<RecordPointer>,
}

impl ObjectTree {
    /// Build the tree from a completed index.
    pub fn build(index: &RecordIndex) -> (r: ObjectTree)
        ensures
            r.roots@ == spec_children(index.entries@, ROOT_PARENT_ID),
            r.orphans@ == spec_orphans(index.entries@),
    {
        let roots = index.children_of(ROOT_PARENT_ID);
        let entries = &index.entries;
        let ghost pred = |e: IndexEntry| is_orphan(entries@, e);
        let mut orphans: Vec<RecordPointer> = Vec::new();
        let mut i: usize = 0;
        proof {
            assert(entries@.take(0) =~= Seq::<IndexEntry>::empty());
            assert(Seq::<IndexEntry>::empty().filter(pred) =~= Seq::<IndexEntry>::empty()) by {
                reveal(Seq::filter);
            }
            assert(orphans@ =~= entries@.take(0).filter(pred).map_values(
                |e: IndexEntry| e.ptr,
            ));
        }
        while i < entries.len()
            invariant
                i <= entries@.len(),
                pred == (|e: IndexEntry| is_orphan(entries@, e)),
                orphans@ == entries@.take(i as int).filter(pred).map_values(
                    |e: IndexEntry| e.ptr,
                ),
            decreases entries@.len() - i,
        {
            proof {
                Seq::lemma_take_succ_push(entries@, i as int);
                Seq::lemma_filter_push(entries@.take(i as int), entries@[i as int], pred);
            }
            let parent = entries[i].parent_id;
            let orphaned = parent != ROOT_PARENT_ID && RecordIndex::has_record_id(
                entries,
                parent,
            ) == false;
            if orphaned {
                orphans.push(entries[i].ptr);
            }
            proof {
                assert(orphans@ =~= entries@.take(i as int + 1).filter(pred).map_values(
                    |e: IndexEntry| e.ptr,
                ));
            }
            i = i + 1;
        }
        proof {
            assert(entries@.take(entries@.len() as int) =~= entries@);
        }
        ObjectTree { roots, orphans }
    }

    /// The unique root, when exactly one record stores the root sentinel.
    pub fn root(&self) -> (r: Option<RecordPointer>)
        ensures
            (self.roots@.len() == 1 ==> r == Some(self.roots@[0])),
            (self.roots@.len() != 1 ==> r is None),
    {
        if self.roots.len() == 1 {
            Some(self.roots[0])
        } else {
            None
        }
    }
}

/// The tree is consistent with the stored parent ids:
/// a pointer is a root exactly when its entry stores the root sentinel;
/// a pointer is an orphan exactly when its entry's parent id is neither the
/// sentinel nor an indexed record id — never silently part of the tree;
/// and a child of `r` always stores `r` as its parent, so every node's tree
/// parent matches its stored parent id.
pub proof fn lemma_tree_consistency(entries: Seq<IndexEntry>, r: i32, p: RecordPointer)
    ensures
        spec_children(entries, ROOT_PARENT_ID).contains(p) <==> exists|k: int|
            0 <= k < entries.len() && (#[trigger] entries[k]).parent_id == ROOT_PARENT_ID
                && entries[k].ptr == p,
        spec_orphans(entries).contains(p) <==> exists|k: int|
            0 <= k < entries.len() && is_orphan(entries, #[trigger] entries[k])
                && entries[k].ptr == p,
        spec_children(entries, r).contains(p) ==> exists|k: int|
            0 <= k < entries.len() && (#[trigger] entries[k]).parent_id == r && entries[k].ptr
                == p,
{
    crate::index::lemma_children_of_exact(entries, ROOT_PARENT_ID, p);
    crate::index::lemma_children_of_exact(entries, r, p);
    lemma_orphans_exact(entries, p);
}

/// Orphan membership is exact.
proof fn lemma_orphans_exact(entries: Seq<IndexEntry>, p: RecordPointer)
    ensures
        spec_orphans(entries).contains(p) <==> exists|k: int|
            0 <= k < entries.len() && is_orphan(entries, #[trigger] entries[k])
                && entries[k].ptr == p,
{
    lemma_orphans_exact_helper(entries, entries, p);
    assert(entries.take(entries.len() as int) =~= entries);
}

/// Orphan membership over a prefix of the scanned entries.
proof fn lemma_orphans_exact_helper(entries: Seq<IndexEntry>, whole: Seq<IndexEntry>, p: RecordPointer)
    ensures
        entries.filter(|e: IndexEntry| is_orphan(whole, e)).map_values(
            |e: IndexEntry| e.ptr,
        ).contains(p) <==> exists|k: int|
            0 <= k < entries.len() && is_orphan(whole, #[trigger] entries[k]) && entries[k].ptr
                == p,
    decreases entries.len(),
{
    reveal(Seq::filter);
    let pred = |e: IndexEntry| is_orphan(whole, e);
    let cur = entries.filter(pred).map_values(|e: IndexEntry| e.ptr);
    if entries.len() == 0 {
        assert(cur.len() == 0);
    } else {
        let prefix = entries.drop_last();
        let e = entries.last();
        lemma_orphans_exact_helper(prefix, whole, p);
        let prev = prefix.filter(pred).map_values(|e: IndexEntry| e.ptr);
        if pred(e) {
            assert(cur =~= prev.push(e.ptr));
        } else {
            assert(cur =~= prev);
        }
        if cur.contains(p) {
            let m = choose|m: int| 0 <= m < cur.len() && cur[m] == p;
            if pred(e) && m == cur.len() - 1 {
                assert(is_orphan(whole, entries[entries.len() - 1]) && entries[entries.len()
                    - 1].ptr == p);
            } else {
                assert(prev[m] == p);
                assert(prev.contains(p));
                let k = choose|k: int|
                    0 <= k < prefix.len() && is_orphan(whole, #[trigger] prefix[k])
                        && prefix[k].ptr == p;
                assert(entries[k] == prefix[k]);
            }
        }
        if exists|k: int|
            0 <= k < entries.len() && is_orphan(whole, #[trigger] entries[k]) && entries[k].ptr
                == p {
            let k = choose|k: int|
                0 <= k < entries.len() && is_orphan(whole, #[trigger] entries[k])
                    && entries[k].ptr == p;
            if k == entries.len() - 1 {
                assert(cur[cur.len() - 1] == p);
                assert(cur.contains(p));
            } else {
                assert(prefix[k] == entries[k]);
                assert(prev.contains(p));
                let m = choose|m: int| 0 <= m < prev.len() && prev[m] == p;
                assert(cur[m] == p);
                assert(cur.contains(p));
            }
        }
    }
}

} // verus!
