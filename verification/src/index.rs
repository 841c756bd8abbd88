//! The record index: one linear scan of the data table builds a fixed-size
//! metadata entry per row. A duplicate record id is a fatal consistency
//! error; a row whose essential keys (record id, parent id) do not decode is
//! skipped and counted; failures on the optional keys leave the entry partial
//! rather than aborting the scan.

use vstd::prelude::*;
use vstd::seq_lib::*;

use crate::cell::{spec_bytes_of, spec_i32_of, RawRow};
use crate::error::Error;
use crate::schema::AttributeMap;
use crate::sid::{spec_sid_subs, spec_sid_valid, Sid};
use crate::RecordPointer;

verus! {

/// The table identifier that record pointers of the data table carry.
pub const DATA_TABLE_ID: u32 = 1;

/// Fixed-size cached metadata of one indexed row.
#[derive(Clone, Copy, PartialEq, Eq, Structural, Debug)]
pub struct IndexEntry {
    pub ptr: RecordPointer,
    pub record_id: i32,
    pub parent_id: i32,
    /// The object-type id, when the row carries one that decodes.
    pub type_id: Option<i32>,
    /// The derived numeric identifier: the final sub-authority of the row's
    /// security identifier, when one decodes.
    pub rid: Option<u32>,
    /// The deleted-from-container back-reference, when one decodes.
    pub deleted_from: Option<i32>,
}

/// The optional object-type key of a row.
pub open spec fn spec_type_id_of_row(row: RawRow, map: AttributeMap) -> Option<i32> {
    match spec_i32_of(row.spec_cell(map.object_category as int)) {
        Ok(Some(t)) => Some(t),
        _ => None,
    }
}

/// The optional derived numeric identifier of a row: the final sub-authority
/// of its security identifier.
pub open spec fn spec_rid_of_row(row: RawRow, map: AttributeMap) -> Option<u32> {
    match map.sid {
        Some(col) => match spec_bytes_of(row.spec_cell(col as int)) {
            Ok(Some(b)) => if spec_sid_valid(b) {
                Some(spec_sid_subs(b).last())
            } else {
                None
            },
            _ => None,
        },
        None => None,
    }
}

/// The optional deleted-from-container back-reference of a row.
pub open spec fn spec_deleted_from_of_row(row: RawRow, map: AttributeMap) -> Option<i32> {
    match map.deleted_from {
        Some(col) => match spec_i32_of(row.spec_cell(col as int)) {
            Ok(Some(d)) => Some(d),
            _ => None,
        },
        None => None,
    }
}

/// The index entry a row yields, or `None` when an essential key is missing.
pub open spec fn spec_entry_of_row(row: RawRow, map: AttributeMap, rownum: int) -> Option<
    IndexEntry,
> {
    match (spec_i32_of(row.spec_cell(map.record_id as int)), spec_i32_of(
        row.spec_cell(map.parent_id as int),
    )) {
        (Ok(Some(id)), Ok(Some(parent))) => Some(
            IndexEntry {
                ptr: RecordPointer { table: DATA_TABLE_ID, row: rownum as u32 },
                record_id: id,
                parent_id: parent,
                type_id: spec_type_id_of_row(row, map),
                rid: spec_rid_of_row(row, map),
                deleted_from: spec_deleted_from_of_row(row, map),
            },
        ),
        _ => None,
    }
}

/// Whether some entry carries the record id.
pub open spec fn has_id(entries: Seq<IndexEntry>, id: i32) -> bool {
    exists|k: int| 0 <= k < entries.len() && (#[trigger] entries[k]).record_id == id
}

/// The first entry carrying the record id, in table order.
pub open spec fn spec_entry_by_id(entries: Seq<IndexEntry>, id: i32) -> Option<IndexEntry>
    decreases entries.len(),
{
    if entries.len() == 0 {
        None
    } else if entries[0].record_id == id {
        Some(entries[0])
    } else {
        spec_entry_by_id(entries.drop_first(), id)
    }
}

/// The first entry carrying the derived numeric identifier, in table order.
pub open spec fn spec_entry_by_rid(entries: Seq<IndexEntry>, rid: u32) -> Option<IndexEntry>
    decreases entries.len(),
{
    if entries.len() == 0 {
        None
    } else if entries[0].rid == Some(rid) {
        Some(entries[0])
    } else {
        spec_entry_by_rid(entries.drop_first(), rid)
    }
}

/// The first entry carrying the pointer, in table order.
pub open spec fn spec_entry_by_ptr(entries: Seq<IndexEntry>, ptr: RecordPointer) -> Option<
    IndexEntry,
>
    decreases entries.len(),
{
    if entries.len() == 0 {
        None
    } else if entries[0].ptr == ptr {
        Some(entries[0])
    } else {
        spec_entry_by_ptr(entries.drop_first(), ptr)
    }
}

/// All record ids are distinct.
pub open spec fn unique_ids(entries: Seq<IndexEntry>) -> bool {
    forall|j: int, k: int|
        0 <= j < k < entries.len() ==> (#[trigger] entries[j]).record_id != (
        #[trigger] entries[k]).record_id
}

/// What scanning the first `n` rows yields: the entries in table order, or
/// the duplicated record id.
pub open spec fn spec_scan(rows: Seq<RawRow>, map: AttributeMap, n: int) -> Result<
    Seq<IndexEntry>,
    i32,
>
    decreases n,
{
    if n <= 0 {
        Ok(Seq::empty())
    } else {
        match spec_scan(rows, map, n - 1) {
            Err(d) => Err(d),
            Ok(acc) => match spec_entry_of_row(rows[n - 1], map, n - 1) {
                None => Ok(acc),
                Some(e) => if has_id(acc, e.record_id) {
                    Err(e.record_id)
                } else {
                    Ok(acc.push(e))
                },
            },
        }
    }
}

/// A completed scan has distinct record ids, and pointers in strict row
/// order, all into the data table.
pub proof fn lemma_scan_wf(rows: Seq<RawRow>, map: AttributeMap, n: int)
    requires
        n <= u32::MAX + 1,
    ensures
        spec_scan(rows, map, n) matches Ok(es) ==> {
            &&& unique_ids(es)
            &&& forall|k: int|
                0 <= k < es.len() ==> 0 <= (#[trigger] es[k]).ptr.row < n && es[k].ptr.table
                    == DATA_TABLE_ID
            &&& forall|j: int, k: int|
                0 <= j < k < es.len() ==> (#[trigger] es[j]).ptr.row < (#[trigger] es[k]).ptr.row
            &&& forall|k: int|
                0 <= k < es.len() ==> spec_entry_of_row(
                    rows[(#[trigger] es[k]).ptr.row as int],
                    map,
                    es[k].ptr.row as int,
                ) == Some(es[k])
        },
    decreases n,
{
    if n > 0 {
        lemma_scan_wf(rows, map, n - 1);
        if spec_scan(rows, map, n) is Ok {
            let es = spec_scan(rows, map, n)->Ok_0;
            let prev = spec_scan(rows, map, n - 1)->Ok_0;
            if spec_entry_of_row(rows[n - 1], map, n - 1) is Some {
                let e = spec_entry_of_row(rows[n - 1], map, n - 1)->Some_0;
                assert(!has_id(prev, e.record_id));
                assert(es == prev.push(e));
                assert forall|j: int, k: int|
                    0 <= j < k < es.len() implies (#[trigger] es[j]).record_id != (
                #[trigger] es[k]).record_id by {
                    if k == es.len() - 1 {
                        assert(es[j] == prev[j]);
                        assert(!has_id(prev, e.record_id));
                        assert(prev[j].record_id != e.record_id);
                    }
                }
            }
        }
    }
}

/// Once the scan hits a duplicate record id, every longer scan reports it.
pub proof fn lemma_scan_err_persists(rows: Seq<RawRow>, map: AttributeMap, n: int, m: int)
    requires
        0 <= n <= m,
        spec_scan(rows, map, n) is Err,
    ensures
        spec_scan(rows, map, m) == spec_scan(rows, map, n),
    decreases m - n,
{
    if n < m {
        lemma_scan_err_persists(rows, map, n, m - 1);
    }
}

/// The record index: the cached entries in table order, and how many rows the
/// scan skipped for want of an essential key.
#[derive(Debug)]
pub struct RecordIndex {
    pub entries: Vec<IndexEntry>,
    pub skipped: usize,
}

impl RecordIndex {
    /// Scan the data table once and build the index. Fails with
    /// `DuplicateRecordId` when two rows carry the same record id.
    pub fn build(rows: &Vec<RawRow>, map: &AttributeMap) -> (r: Result<RecordIndex, Error>)
        requires
            rows@.len() <= u32::MAX,
        ensures
            (spec_scan(rows@, *map, rows@.len() as int) matches Ok(es) ==> (r matches Ok(ix)
                && ix.entries@ == es && ix.skipped == rows@.len() - es.len())),
            (spec_scan(rows@, *map, rows@.len() as int) matches Err(d) ==> r == Err::<
                RecordIndex,
                Error,
            >(Error::DuplicateRecordId { record_id: d })),
    {
        let mut entries: Vec<IndexEntry> = Vec::new();
        let mut i: usize = 0;
        while i < rows.len()
            invariant
                i <= rows@.len(),
                rows@.len() <= u32::MAX,
                entries@.len() <= i,
                spec_scan(rows@, *map, i as int) == Ok::<Seq<IndexEntry>, i32>(entries@),
            decreases rows@.len() - i,
        {
            let record_id = match rows[i].i32_at(map.record_id) {
                Ok(Some(v)) => Some(v),
                _ => None,
            };
            let parent_id = match rows[i].i32_at(map.parent_id) {
                Ok(Some(v)) => Some(v),
                _ => None,
            };
            if let (Some(record_id), Some(parent_id)) = (record_id, parent_id) {
                if Self::position_of(&entries, record_id).is_some() {
                    proof {
                        assert(has_id(entries@, record_id));
                        assert(spec_scan(rows@, *map, i as int + 1) == Err::<
                            Seq<IndexEntry>,
                            i32,
                        >(record_id));
                        lemma_scan_err_persists(rows@, *map, i as int + 1, rows@.len() as int);
                    }
                    return Err(Error::DuplicateRecordId { record_id });
                }
                assert(!has_id(entries@, record_id));
                let type_id = match rows[i].i32_at(map.object_category) {
                    Ok(Some(t)) => Some(t),
                    _ => None,
                };
                let rid = Self::rid_of_row(&rows[i], map);
                let deleted_from = match map.deleted_from {
                    Some(col) => match rows[i].i32_at(col) {
                        Ok(Some(d)) => Some(d),
                        _ => None,
                    },
                    None => None,
                };
                let e = IndexEntry {
                    ptr: RecordPointer { table: DATA_TABLE_ID, row: i as u32 },
                    record_id,
                    parent_id,
                    type_id,
                    rid,
                    deleted_from,
                };
                assert(spec_entry_of_row(rows@[i as int], *map, i as int) == Some(e));
                entries.push(e);
            } else {
                assert(spec_entry_of_row(rows@[i as int], *map, i as int) is None);
            }
            i = i + 1;
        }
        let skipped = rows.len() - entries.len();
        proof {
            lemma_scan_wf(rows@, *map, rows@.len() as int);
        }
        Ok(RecordIndex { entries, skipped })
    }

    /// The derived numeric identifier of one row, when its security
    /// identifier decodes.
    fn rid_of_row(row: &RawRow, map: &AttributeMap) -> (r: Option<u32>)
        ensures
            r == spec_rid_of_row(*row, *map),
    {
        match map.sid {
            Some(col) => match row.bytes_at(col) {
                Ok(Some(bytes)) => match Sid::parse(bytes.as_slice()) {
                    Ok(sid) => sid.rid(),
                    Err(_) => None,
                },
                _ => None,
            },
            None => None,
        }
    }

    /// The position of the first entry carrying a record id.
    fn position_of(entries: &Vec<IndexEntry>, id: i32) -> (r: Option<usize>)
        ensures
            (r matches Some(j) ==> j < entries@.len() && entries@[j as int].record_id == id
                && spec_entry_by_id(entries@, id) == Some(entries@[j as int])),
            (r is None ==> !has_id(entries@, id) && spec_entry_by_id(entries@, id) is None),
    {
        let mut i: usize = 0;
        proof {
            assert(entries@.skip(0) =~= entries@);
        }
        while i < entries.len()
            invariant
                i <= entries@.len(),
                forall|k: int| 0 <= k < i ==> (#[trigger] entries@[k]).record_id != id,
                spec_entry_by_id(entries@, id) == spec_entry_by_id(entries@.skip(i as int), id),
            decreases entries@.len() - i,
        {
            proof {
                assert(entries@.skip(i as int)[0] == entries@[i as int]);
                assert(entries@.skip(i as int).drop_first() =~= entries@.skip(i as int + 1));
            }
            if entries[i].record_id == id {
                return Some(i);
            }
            i = i + 1;
        }
        proof {
            assert(entries@.skip(i as int).len() == 0);
        }
        None
    }

    /// Whether any entry carries the given record id.
    pub fn has_record_id(entries: &Vec<IndexEntry>, id: i32) -> (r: bool)
        ensures
            r == has_id(entries@, id),
    {
        match Self::position_of(entries, id) {
            Some(j) => {
                proof {
                    assert(entries@[j as int].record_id == id);
                }
                true
            },
            None => false,
        }
    }


    /// The entry at one record pointer.
    pub fn entry_at(&self, ptr: RecordPointer) -> (r: Option<IndexEntry>)
        ensures
            r == spec_entry_by_ptr(self.entries@, ptr),
    {
        let mut i: usize = 0;
        proof {
            assert(self.entries@.skip(0) =~= self.entries@);
        }
        while i < self.entries.len()
            invariant
                i <= self.entries@.len(),
                spec_entry_by_ptr(self.entries@, ptr) == spec_entry_by_ptr(
                    self.entries@.skip(i as int),
                    ptr,
                ),
            decreases self.entries@.len() - i,
        {
            proof {
                assert(self.entries@.skip(i as int)[0] == self.entries@[i as int]);
                assert(self.entries@.skip(i as int).drop_first() =~= self.entries@.skip(
                    i as int + 1,
                ));
            }
            if self.entries[i].ptr.table == ptr.table && self.entries[i].ptr.row == ptr.row {
                return Some(self.entries[i]);
            }
            i = i + 1;
        }
        proof {
            assert(self.entries@.skip(i as int).len() == 0);
        }
        None
    }

    /// Point lookup: the pointer of the record with the given id.
    pub fn lookup(&self, id: i32) -> (r: Option<RecordPointer>)
        ensures
            r == (match spec_entry_by_id(self.entries@, id) {
                Some(e) => Some(e.ptr),
                None => None::<RecordPointer>,
            }),
            (r matches Some(p) ==> exists|k: int|
                0 <= k < self.entries@.len() && (#[trigger] self.entries@[k]).record_id == id
                    && self.entries@[k].ptr == p),
            (r is None ==> !has_id(self.entries@, id)),
    {
        match Self::position_of(&self.entries, id) {
            Some(j) => Some(self.entries[j].ptr),
            None => None,
        }
    }

    /// The full entry of the record with the given id.
    pub fn record(&self, id: i32) -> (r: Option<IndexEntry>)
        ensures
            r == spec_entry_by_id(self.entries@, id),
            (r is None ==> !has_id(self.entries@, id)),
    {
        match Self::position_of(&self.entries, id) {
            Some(j) => Some(self.entries[j]),
            None => None,
        }
    }

    /// The pointers of the indexed records whose stored parent id is `id`,
    /// in table order: exactly those, no more, no fewer.
    pub fn children_of(&self, id: i32) -> (r: Vec<RecordPointer>)
        ensures
            r@ == spec_children(self.entries@, id),
    {
        let mut r: Vec<RecordPointer> = Vec::new();
        let ghost pred = |e: IndexEntry| e.parent_id == id;
        let mut i: usize = 0;
        proof {
            assert(self.entries@.take(0) =~= Seq::<IndexEntry>::empty());
            assert(Seq::<IndexEntry>::empty().filter(pred) =~= Seq::<IndexEntry>::empty()) by {
                reveal(Seq::filter);
            }
            assert(r@ =~= spec_children(self.entries@.take(0), id));
        }
        while i < self.entries.len()
            invariant
                i <= self.entries@.len(),
                pred == (|e: IndexEntry| e.parent_id == id),
                r@ == spec_children(self.entries@.take(i as int), id),
            decreases self.entries@.len() - i,
        {
            proof {
                Seq::lemma_take_succ_push(self.entries@, i as int);
                Seq::lemma_filter_push(self.entries@.take(i as int), self.entries@[i as int], pred);
            }
            if self.entries[i].parent_id == id {
                r.push(self.entries[i].ptr);
            }
            proof {
                assert(r@ =~= spec_children(self.entries@.take(i as int + 1), id));
            }
            i = i + 1;
        }
        proof {
            assert(self.entries@.take(self.entries@.len() as int) =~= self.entries@);
        }
        r
    }

    /// The pointers of the indexed records of one object type, in table order.
    pub fn entries_of_type(&self, type_id: i32) -> (r: Vec<RecordPointer>)
        ensures
            r@ == spec_of_type(self.entries@, type_id),
    {
        let mut r: Vec<RecordPointer> = Vec::new();
        let ghost pred = |e: IndexEntry| e.type_id == Some(type_id);
        let mut i: usize = 0;
        proof {
            assert(self.entries@.take(0) =~= Seq::<IndexEntry>::empty());
            assert(Seq::<IndexEntry>::empty().filter(pred) =~= Seq::<IndexEntry>::empty()) by {
                reveal(Seq::filter);
            }
            assert(r@ =~= spec_of_type(self.entries@.take(0), type_id));
        }
        while i < self.entries.len()
            invariant
                i <= self.entries@.len(),
                pred == (|e: IndexEntry| e.type_id == Some(type_id)),
                r@ == spec_of_type(self.entries@.take(i as int), type_id),
            decreases self.entries@.len() - i,
        {
            proof {
                Seq::lemma_take_succ_push(self.entries@, i as int);
                Seq::lemma_filter_push(self.entries@.take(i as int), self.entries@[i as int], pred);
            }
            let matches_type = match self.entries[i].type_id {
                Some(t) => t == type_id,
                None => false,
            };
            if matches_type {
                r.push(self.entries[i].ptr);
            }
            proof {
                assert(r@ =~= spec_of_type(self.entries@.take(i as int + 1), type_id));
            }
            i = i + 1;
        }
        proof {
            assert(self.entries@.take(self.entries@.len() as int) =~= self.entries@);
        }
        r
    }

    /// The pointer of the first record whose derived numeric identifier is
    /// `rid`.
    pub fn entry_with_rid(&self, rid: u32) -> (r: Option<RecordPointer>)
        ensures
            r == (match spec_entry_by_rid(self.entries@, rid) {
                Some(e) => Some(e.ptr),
                None => None::<RecordPointer>,
            }),
            (r is None ==> forall|k: int|
                0 <= k < self.entries@.len() ==> (#[trigger] self.entries@[k]).rid != Some(rid)),
    {
        let mut i: usize = 0;
        proof {
            assert(self.entries@.skip(0) =~= self.entries@);
        }
        while i < self.entries.len()
            invariant
                i <= self.entries@.len(),
                forall|k: int| 0 <= k < i ==> (#[trigger] self.entries@[k]).rid != Some(rid),
                spec_entry_by_rid(self.entries@, rid) == spec_entry_by_rid(
                    self.entries@.skip(i as int),
                    rid,
                ),
            decreases self.entries@.len() - i,
        {
            proof {
                assert(self.entries@.skip(i as int)[0] == self.entries@[i as int]);
                assert(self.entries@.skip(i as int).drop_first() =~= self.entries@.skip(
                    i as int + 1,
                ));
            }
            let matches_rid = match self.entries[i].rid {
                Some(v) => v == rid,
                None => false,
            };
            if matches_rid {
                return Some(self.entries[i].ptr);
            }
            i = i + 1;
        }
        proof {
            assert(self.entries@.skip(i as int).len() == 0);
        }
        None
    }

    /// The pointers of the records whose deleted-from-container back-reference
    /// is `container_id`, in table order.
    pub fn entries_deleted_from(&self, container_id: i32) -> (r: Vec<RecordPointer>)
        ensures
            r@ == spec_deleted_from(self.entries@, container_id),
    {
        let mut r: Vec<RecordPointer> = Vec::new();
        let ghost pred = |e: IndexEntry| e.deleted_from == Some(container_id);
        let mut i: usize = 0;
        proof {
            assert(self.entries@.take(0) =~= Seq::<IndexEntry>::empty());
            assert(Seq::<IndexEntry>::empty().filter(pred) =~= Seq::<IndexEntry>::empty()) by {
                reveal(Seq::filter);
            }
            assert(r@ =~= spec_deleted_from(self.entries@.take(0), container_id));
        }
        while i < self.entries.len()
            invariant
                i <= self.entries@.len(),
                pred == (|e: IndexEntry| e.deleted_from == Some(container_id)),
                r@ == spec_deleted_from(self.entries@.take(i as int), container_id),
            decreases self.entries@.len() - i,
        {
            proof {
                Seq::lemma_take_succ_push(self.entries@, i as int);
                Seq::lemma_filter_push(self.entries@.take(i as int), self.entries@[i as int], pred);
            }
            let matches_container = match self.entries[i].deleted_from {
                Some(d) => d == container_id,
                None => false,
            };
            if matches_container {
                r.push(self.entries[i].ptr);
            }
            proof {
                assert(r@ =~= spec_deleted_from(self.entries@.take(i as int + 1), container_id));
            }
            i = i + 1;
        }
        proof {
            assert(self.entries@.take(self.entries@.len() as int) =~= self.entries@);
        }
        r
    }
}

/// The pointers of the entries whose stored parent id is `id`, in order.
pub open spec fn spec_children(entries: Seq<IndexEntry>, id: i32) -> Seq<RecordPointer> {
    entries.filter(|e: IndexEntry| e.parent_id == id).map_values(|e: IndexEntry| e.ptr)
}

/// The pointers of the entries of one object type, in order.
pub open spec fn spec_of_type(entries: Seq<IndexEntry>, type_id: i32) -> Seq<RecordPointer> {
    entries.filter(|e: IndexEntry| e.type_id == Some(type_id)).map_values(|e: IndexEntry| e.ptr)
}

/// The pointers of the entries whose deleted-from-container back-reference is
/// `container_id`, in order.
pub open spec fn spec_deleted_from(entries: Seq<IndexEntry>, container_id: i32) -> Seq<
    RecordPointer,
> {
    entries.filter(|e: IndexEntry| e.deleted_from == Some(container_id)).map_values(
        |e: IndexEntry| e.ptr,
    )
}


/// Whether `target` sits on the parent chain of `id`, within `fuel` steps.
/// A chain of length at most the number of entries covers every reachable
/// ancestor: the stored parent per record is unique, so a chain either
/// reaches `target`, leaves the index, or cycles within `fuel` entries.
pub open spec fn spec_ancestor_chain(
    entries: Seq<IndexEntry>,
    id: i32,
    target: i32,
    fuel: nat,
) -> bool
    decreases fuel,
{
    if fuel == 0 {
        false
    } else {
        match spec_entry_by_id(entries, id) {
            None => false,
            Some(e) => e.parent_id == target || spec_ancestor_chain(
                entries,
                e.parent_id,
                target,
                (fuel - 1) as nat,
            ),
        }
    }
}

impl RecordIndex {
    /// Whether the record is a descendant of `target`: `target` sits on its
    /// stored parent chain.
    pub fn is_descendant_of(&self, id: i32, target: i32) -> (r: bool)
        ensures
            r == spec_ancestor_chain(self.entries@, id, target, self.entries@.len() as nat),
    {
        let mut cur: i32 = id;
        let mut fuel: usize = self.entries.len();
        loop
            invariant
                fuel <= self.entries@.len(),
                spec_ancestor_chain(self.entries@, id, target, self.entries@.len() as nat)
                    == spec_ancestor_chain(self.entries@, cur, target, fuel as nat),
            ensures
                spec_ancestor_chain(self.entries@, id, target, self.entries@.len() as nat)
                    == spec_ancestor_chain(self.entries@, cur, target, fuel as nat),
                fuel == 0 || spec_entry_by_id(self.entries@, cur) is None || (
                spec_entry_by_id(self.entries@, cur) matches Some(e) && e.parent_id == target),
            decreases fuel,
        {
            if fuel == 0 {
                break;
            }
            match self.record(cur) {
                None => {
                    break;
                },
                Some(e) => {
                    if e.parent_id == target {
                        break;
                    }
                    cur = e.parent_id;
                    fuel = fuel - 1;
                },
            }
        }
        if fuel == 0 {
            false
        } else {
            match self.record(cur) {
                None => false,
                Some(e) => e.parent_id == target,
            }
        }
    }
}

/// A located entry is an element of the entries.
pub proof fn lemma_entry_by_id_member(entries: Seq<IndexEntry>, id: i32)
    ensures
        spec_entry_by_id(entries, id) matches Some(e) ==> entries.contains(e),
    decreases entries.len(),
{
    if entries.len() > 0 && entries[0].record_id != id {
        lemma_entry_by_id_member(entries.drop_first(), id);
        if spec_entry_by_id(entries, id) is Some {
            let e = spec_entry_by_id(entries, id)->Some_0;
            let j = choose|j: int|
                0 <= j < entries.drop_first().len() && entries.drop_first()[j] == e;
            assert(entries[j + 1] == e);
        }
    }
}

/// A located entry is an element of the entries.
pub proof fn lemma_entry_by_rid_member(entries: Seq<IndexEntry>, rid: u32)
    ensures
        spec_entry_by_rid(entries, rid) matches Some(e) ==> entries.contains(e),
    decreases entries.len(),
{
    if entries.len() > 0 && entries[0].rid != Some(rid) {
        lemma_entry_by_rid_member(entries.drop_first(), rid);
        if spec_entry_by_rid(entries, rid) is Some {
            let e = spec_entry_by_rid(entries, rid)->Some_0;
            let j = choose|j: int|
                0 <= j < entries.drop_first().len() && entries.drop_first()[j] == e;
            assert(entries[j + 1] == e);
        }
    }
}

/// A filtered sequence of pairwise-distinct elements is pairwise distinct.
pub proof fn lemma_filter_no_dup<A>(s: Seq<A>, pred: spec_fn(A) -> bool)
    requires
        forall|j: int, k: int| 0 <= j < k < s.len() ==> s[j] != s[k],
    ensures
        forall|j: int, k: int|
            0 <= j < k < s.filter(pred).len() ==> s.filter(pred)[j] != s.filter(pred)[k],
    decreases s.len(),
{
    reveal(Seq::filter);
    if s.len() > 0 {
        let prefix = s.drop_last();
        lemma_filter_no_dup(prefix, pred);
        lemma_filter_elements(prefix, pred);
        let cur = s.filter(pred);
        let prev = prefix.filter(pred);
        if pred(s.last()) {
            assert(cur == prev.push(s.last()));
            assert forall|j: int, k: int|
                0 <= j < k < cur.len() implies cur[j] != cur[k] by {
                if k == cur.len() - 1 {
                    assert(cur[j] == prev[j]);
                    assert(prefix.contains(prev[j]));
                    let m = choose|m: int| 0 <= m < prefix.len() && prefix[m] == prev[j];
                    assert(s[m] == prefix[m]);
                    assert(s[m] != s[s.len() - 1]);
                }
            }
        }
    }
}

/// Every element of a filtered sequence is an element of the original.
pub proof fn lemma_filter_elements<A>(s: Seq<A>, pred: spec_fn(A) -> bool)
    ensures
        forall|k: int|
            0 <= k < s.filter(pred).len() ==> s.contains(#[trigger] s.filter(pred)[k]),
    decreases s.len(),
{
    reveal(Seq::filter);
    if s.len() > 0 {
        let prefix = s.drop_last();
        lemma_filter_elements(prefix, pred);
        let cur = s.filter(pred);
        let prev = prefix.filter(pred);
        assert forall|k: int| 0 <= k < cur.len() implies s.contains(#[trigger] cur[k]) by {
            if pred(s.last()) && k == cur.len() - 1 {
                assert(s[s.len() - 1] == cur[k]);
            } else {
                assert(cur[k] == prev[k]);
                assert(prefix.contains(prev[k]));
                let j = choose|j: int| 0 <= j < prefix.len() && prefix[j] == prev[k];
                assert(s[j] == prefix[j]);
            }
        }
    }
}

/// Point lookup is total on the indexed ids: an id is carried by some entry
/// exactly when the lookup locates one.
pub proof fn lemma_lookup_total(entries: Seq<IndexEntry>, id: i32)
    ensures
        has_id(entries, id) <==> spec_entry_by_id(entries, id) is Some,
    decreases entries.len(),
{
    if entries.len() > 0 {
        lemma_lookup_total(entries.drop_first(), id);
        if entries[0].record_id != id {
            if has_id(entries, id) {
                let k = choose|k: int|
                    0 <= k < entries.len() && (#[trigger] entries[k]).record_id == id;
                assert(entries.drop_first()[k - 1] == entries[k]);
                assert(has_id(entries.drop_first(), id));
            }
            if has_id(entries.drop_first(), id) {
                let k = choose|k: int|
                    0 <= k < entries.drop_first().len() && (#[trigger] entries.drop_first()[k]).record_id
                        == id;
                assert(entries[k + 1] == entries.drop_first()[k]);
                assert(has_id(entries, id));
            }
        }
    }
}

/// Point lookup is unambiguous: with distinct record ids, two entries that
/// carry the same id are one entry, so `lookup` denotes exactly one pointer.
pub proof fn lemma_lookup_unique(entries: Seq<IndexEntry>, id: i32, j: int, k: int)
    requires
        unique_ids(entries),
        0 <= j < entries.len(),
        0 <= k < entries.len(),
        entries[j].record_id == id,
        entries[k].record_id == id,
    ensures
        j == k,
{
}

/// `children_of` is exact: a pointer is returned for parent `id` if and only
/// if some indexed entry carries that pointer and stores `id` as its parent.
pub proof fn lemma_children_of_exact(entries: Seq<IndexEntry>, id: i32, p: RecordPointer)
    ensures
        spec_children(entries, id).contains(p) <==> exists|k: int|
            0 <= k < entries.len() && (#[trigger] entries[k]).parent_id == id && entries[k].ptr
                == p,
    decreases entries.len(),
{
    reveal(Seq::filter);
    let pred = |e: IndexEntry| e.parent_id == id;
    let cur = spec_children(entries, id);
    if entries.len() == 0 {
        assert(cur.len() == 0);
    } else {
        let prefix = entries.drop_last();
        let e = entries.last();
        lemma_children_of_exact(prefix, id, p);
        let prev = spec_children(prefix, id);
        if pred(e) {
            assert(cur =~= prev.push(e.ptr));
        } else {
            assert(cur =~= prev);
        }
        if cur.contains(p) {
            let m = choose|m: int| 0 <= m < cur.len() && cur[m] == p;
            if pred(e) && m == cur.len() - 1 {
                assert(entries[entries.len() - 1].parent_id == id && entries[entries.len()
                    - 1].ptr == p);
            } else {
                assert(prev[m] == p);
                assert(prev.contains(p));
                let k = choose|k: int|
                    0 <= k < prefix.len() && (#[trigger] prefix[k]).parent_id == id && prefix[k].ptr
                        == p;
                assert(entries[k] == prefix[k]);
                assert(entries[k].parent_id == id && entries[k].ptr == p);
            }
        }
        if exists|k: int|
            0 <= k < entries.len() && (#[trigger] entries[k]).parent_id == id && entries[k].ptr
                == p {
            let k = choose|k: int|
                0 <= k < entries.len() && (#[trigger] entries[k]).parent_id == id && entries[k].ptr
                    == p;
            if k == entries.len() - 1 {
                assert(pred(e));
                assert(cur[cur.len() - 1] == p);
                assert(cur.contains(p));
            } else {
                assert(prefix[k] == entries[k]);
                assert(prev.contains(p));
                let m = choose|m: int| 0 <= m < prev.len() && prev[m] == p;
                assert(cur[m] == p);
                assert(cur.contains(p));
            }
        }
    }
}

} // verus!
