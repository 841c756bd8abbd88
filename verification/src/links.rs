//! The link table: forward relationship rows, one per (relationship
//! attribute, source, target) triple. Indexing performs one linear scan and
//! no cross-validation against the data table: a target may legitimately be a
//! later-deleted record, and a dangling target surfaces only when a consumer
//! dereferences it.

use vstd::prelude::*;
use vstd::seq_lib::*;
use vstd::string::StringExecFns;

use crate::cell::{spec_i32_of, RawRow};
use crate::error::Error;
use crate::schema::{find_column, spec_find_column, RawColumn};

verus! {

/// The relationship-attribute base of group membership.
pub const MEMBER_LINK_BASE: i32 = 2;

/// One forward relationship row: the referencing object (the one carrying
/// the relationship attribute) points at the referenced object.
#[derive(Clone, Copy, PartialEq, Eq, Structural, Debug)]
pub struct LinkEntry {
    /// The relationship-attribute id (the link base).
    pub link_id: i32,
    /// The record id of the referencing object.
    pub source: i32,
    /// The record id of the referenced object.
    pub target: i32,
}

/// The resolved column ids of the link table.
#[derive(Clone, Copy, PartialEq, Eq, Structural, Debug)]
pub struct LinkColumns {
    pub link_base: i32,
    pub source: i32,
    pub target: i32,
}

/// What resolving the link table's column listing yields.
pub open spec fn spec_resolve_link_columns(cols: Seq<RawColumn>) -> Option<LinkColumns> {
    if spec_find_column(cols, "link_base"@) is Some && spec_find_column(cols, "link_DNT"@)
        is Some && spec_find_column(cols, "backlink_DNT"@) is Some {
        Some(
            LinkColumns {
                link_base: spec_find_column(cols, "link_base"@)->Some_0,
                source: spec_find_column(cols, "link_DNT"@)->Some_0,
                target: spec_find_column(cols, "backlink_DNT"@)->Some_0,
            },
        )
    } else {
        None
    }
}

impl LinkColumns {
    /// Resolve the link table's reserved columns by name.
    pub fn resolve(cols: &Vec<RawColumn>) -> (r: Result<LinkColumns, Error>)
        ensures
            (spec_resolve_link_columns(cols@) matches Some(c) ==> r == Ok::<
                LinkColumns,
                Error,
            >(c)),
            (spec_resolve_link_columns(cols@) is None ==> (r matches Err(e)
                && e is MissingColumn)),
    {
        let link_base = match find_column(cols, "link_base") {
            Some(id) => id,
            None => {
                return Err(Error::MissingColumn { name: link_name("link_base") });
            },
        };
        let source = match find_column(cols, "link_DNT") {
            Some(id) => id,
            None => {
                return Err(Error::MissingColumn { name: link_name("link_DNT") });
            },
        };
        let target = match find_column(cols, "backlink_DNT") {
            Some(id) => id,
            None => {
                return Err(Error::MissingColumn { name: link_name("backlink_DNT") });
            },
        };
        Ok(LinkColumns { link_base, source, target })
    }
}

fn link_name(name: &str) -> (r: String)
    ensures
        r@ == name@,
{
    String::from_str(name)
}

/// The link entry a row yields, or `None` when any of its three keys is
/// missing or does not decode.
pub open spec fn spec_link_of_row(row: RawRow, cols: LinkColumns) -> Option<LinkEntry> {
    match (spec_i32_of(row.spec_cell(cols.link_base as int)), spec_i32_of(
        row.spec_cell(cols.source as int),
    ), spec_i32_of(row.spec_cell(cols.target as int))) {
        (Ok(Some(l)), Ok(Some(s)), Ok(Some(t))) => Some(
            LinkEntry { link_id: l, source: s, target: t },
        ),
        _ => None,
    }
}

/// What scanning the first `n` link rows yields.
pub open spec fn spec_link_scan(rows: Seq<RawRow>, cols: LinkColumns, n: int) -> Seq<LinkEntry>
    decreases n,
{
    if n <= 0 {
        Seq::empty()
    } else {
        match spec_link_of_row(rows[n - 1], cols) {
            Some(e) => spec_link_scan(rows, cols, n - 1).push(e),
            None => spec_link_scan(rows, cols, n - 1),
        }
    }
}

/// The record ids of the targets of `source` under relationship `link_id`,
/// in table order.
pub open spec fn spec_targets_of(entries: Seq<LinkEntry>, link_id: i32, source: i32) -> Seq<i32> {
    entries.filter(|e: LinkEntry| e.link_id == link_id && e.source == source).map_values(
        |e: LinkEntry| e.target,
    )
}

/// The record ids of the sources that reference `target` under relationship
/// `link_id`, in table order.
pub open spec fn spec_sources_of(entries: Seq<LinkEntry>, link_id: i32, target: i32) -> Seq<i32> {
    entries.filter(|e: LinkEntry| e.link_id == link_id && e.target == target).map_values(
        |e: LinkEntry| e.source,
    )
}

/// The indexed link table.
#[derive(Debug)]
pub struct LinkTable {
    pub entries: Vec<LinkEntry>,
    /// Rows the scan skipped for want of a decodable key.
    pub skipped: usize,
}

impl LinkTable {
    /// Scan the link table once and index its rows.
    pub fn build(rows: &Vec<RawRow>, cols: &LinkColumns) -> (r: LinkTable)
        ensures
            r.entries@ == spec_link_scan(rows@, *cols, rows@.len() as int),
            r.skipped == rows@.len() - r.entries@.len(),
    {
        let mut entries: Vec<LinkEntry> = Vec::new();
        let mut i: usize = 0;
        while i < rows.len()
            invariant
                i <= rows@.len(),
                entries@.len() <= i,
                entries@ == spec_link_scan(rows@, *cols, i as int),
            decreases rows@.len() - i,
        {
            let link_id = match rows[i].i32_at(cols.link_base) {
                Ok(Some(v)) => Some(v),
                _ => None,
            };
            let source = match rows[i].i32_at(cols.source) {
                Ok(Some(v)) => Some(v),
                _ => None,
            };
            let target = match rows[i].i32_at(cols.target) {
                Ok(Some(v)) => Some(v),
                _ => None,
            };
            if let (Some(link_id), Some(source), Some(target)) = (link_id, source, target) {
                let e = LinkEntry { link_id, source, target };
                assert(spec_link_of_row(rows@[i as int], *cols) == Some(e));
                entries.push(e);
            } else {
                assert(spec_link_of_row(rows@[i as int], *cols) is None);
            }
            i = i + 1;
        }
        let skipped = rows.len() - entries.len();
        LinkTable { entries, skipped }
    }

    /// The targets that `source` references under `link_id`: exactly the
    /// indexed pairs, in table order.
    pub fn targets_of(&self, link_id: i32, source: i32) -> (r: Vec<i32>)
        ensures
            r@ == spec_targets_of(self.entries@, link_id, source),
    {
        let mut r: Vec<i32> = Vec::new();
        let ghost pred = |e: LinkEntry| e.link_id == link_id && e.source == source;
        let mut i: usize = 0;
        proof {
            assert(self.entries@.take(0) =~= Seq::<LinkEntry>::empty());
            assert(Seq::<LinkEntry>::empty().filter(pred) =~= Seq::<LinkEntry>::empty()) by {
                reveal(Seq::filter);
            }
            assert(r@ =~= spec_targets_of(self.entries@.take(0), link_id, source));
        }
        while i < self.entries.len()
            invariant
                i <= self.entries@.len(),
                pred == (|e: LinkEntry| e.link_id == link_id && e.source == source),
                r@ == spec_targets_of(self.entries@.take(i as int), link_id, source),
            decreases self.entries@.len() - i,
        {
            proof {
                Seq::lemma_take_succ_push(self.entries@, i as int);
                Seq::lemma_filter_push(self.entries@.take(i as int), self.entries@[i as int], pred);
            }
            if self.entries[i].link_id == link_id && self.entries[i].source == source {
                r.push(self.entries[i].target);
            }
            proof {
                assert(r@ =~= spec_targets_of(self.entries@.take(i as int + 1), link_id, source));
            }
            i = i + 1;
        }
        proof {
            assert(self.entries@.take(self.entries@.len() as int) =~= self.entries@);
        }
        r
    }

    /// The sources that reference `target` under `link_id`: exactly the
    /// indexed pairs, in table order.
    pub fn sources_of(&self, link_id: i32, target: i32) -> (r: Vec<i32>)
        ensures
            r@ == spec_sources_of(self.entries@, link_id, target),
    {
        let mut r: Vec<i32> = Vec::new();
        let ghost pred = |e: LinkEntry| e.link_id == link_id && e.target == target;
        let mut i: usize = 0;
        proof {
            assert(self.entries@.take(0) =~= Seq::<LinkEntry>::empty());
            assert(Seq::<LinkEntry>::empty().filter(pred) =~= Seq::<LinkEntry>::empty()) by {
                reveal(Seq::filter);
            }
            assert(r@ =~= spec_sources_of(self.entries@.take(0), link_id, target));
        }
        while i < self.entries.len()
            invariant
                i <= self.entries@.len(),
                pred == (|e: LinkEntry| e.link_id == link_id && e.target == target),
                r@ == spec_sources_of(self.entries@.take(i as int), link_id, target),
            decreases self.entries@.len() - i,
        {
            proof {
                Seq::lemma_take_succ_push(self.entries@, i as int);
                Seq::lemma_filter_push(self.entries@.take(i as int), self.entries@[i as int], pred);
            }
            if self.entries[i].link_id == link_id && self.entries[i].target == target {
                r.push(self.entries[i].source);
            }
            proof {
                assert(r@ =~= spec_sources_of(self.entries@.take(i as int + 1), link_id, target));
            }
            i = i + 1;
        }
        proof {
            assert(self.entries@.take(self.entries@.len() as int) =~= self.entries@);
        }
        r
    }
}

} // verus!
