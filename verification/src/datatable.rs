//! The data table: the composition of the resolved schema, the record index,
//! the object tree, the link table and the descriptor table, and the query
//! engine that serves typed listings, type enumeration, the tree view, point
//! lookups, free-text search and the timeline export.

use vstd::prelude::*;
use vstd::seq_lib::*;
use vstd::string::StringExecFns;

use crate::cell::{cell_display_spec, spec_i32_of, RawRow};
use crate::descriptor::{SdColumns, SdTable, spec_resolve_sd_columns, spec_sd_scan};
use crate::error::Error;
use crate::fmt::{dec_of_int, i32_to_dec, push_char};
use crate::index::{
    lemma_filter_elements, lemma_filter_no_dup, lemma_scan_wf, spec_ancestor_chain,
    spec_children, spec_entry_by_id, spec_entry_by_ptr, spec_entry_by_rid, spec_of_type,
    spec_scan, unique_ids, IndexEntry, RecordIndex, DATA_TABLE_ID,
};
use crate::links::{spec_link_scan, spec_resolve_link_columns, LinkColumns, LinkTable};
use crate::objects::{decode_object, object_matches, spec_object_ok, ObjectType, TypedObject};
use crate::schema::{
    spec_anchor_index, spec_first_named, spec_named_index, spec_resolve, spec_schema_ok,
    type_defs_match, AttributeMap, RawColumn, Schema,
};
use crate::search::{
    case_insensitive, escape_line_breaks, regex_valid, spec_hit_rows, spec_row_hit,
    spec_search_cols, Pattern,
};
use crate::timeline::{
    spec_timeline_fold, timeline_for_entries, TimelineOutput,
};
use crate::tree::{spec_orphans, ObjectTree, ROOT_PARENT_ID};
use crate::RecordPointer;

verus! {

/// How a caller names one entry: by record id, or by the derived numeric
/// identifier (the final component of its security identifier).
#[derive(Clone, Copy, PartialEq, Eq, Structural, Debug)]
pub enum EntryId {
    Id(i32),
    Rid(u32),
}

/// A typed listing: the decoded objects and how many records were skipped
/// over decode failures.
pub struct Listing {
    pub objects: Vec<TypedObject>,
    pub skipped: usize,
}

/// The in-scope entries of a typed listing: the indexed records of the type
/// whose row decodes into the type's field set.
pub open spec fn spec_listing_entries(
    rows: Seq<RawRow>,
    entries: Seq<IndexEntry>,
    map: AttributeMap,
    type_id: i32,
) -> Seq<IndexEntry> {
    entries.filter(
        |e: IndexEntry|
            e.type_id == Some(type_id) && spec_object_ok(rows[e.ptr.row as int], map),
    )
}

/// Whether a listing is exactly the decoded objects of one type, in table
/// order, with the skipped count accounting for every failed record.
pub open spec fn listing_exact(
    rows: Seq<RawRow>,
    entries: Seq<IndexEntry>,
    map: AttributeMap,
    links: Seq<crate::links::LinkEntry>,
    type_id: i32,
    object_type: ObjectType,
    r: Listing,
) -> bool {
    let sel = spec_listing_entries(rows, entries, map, type_id);
    &&& r.objects@.len() == sel.len()
    &&& forall|k: int|
        0 <= k < sel.len() ==> object_matches(
            rows[sel[k].ptr.row as int],
            map,
            links,
            #[trigger] r.objects@[k],
        ) && r.objects@[k].ptr == sel[k].ptr && r.objects@[k].object_type == object_type
    &&& r.skipped + sel.len() == spec_of_type(entries, type_id).len()
}

/// The wrapped data table and everything resolved over it.
pub struct DataTable {
    /// The raw column listing of the data table.
    pub columns: Vec<RawColumn>,
    /// The raw rows, in table order.
    pub rows: Vec<RawRow>,
    /// The resolved attribute map.
    pub map: AttributeMap,
    /// The resolved schema.
    pub schema: Schema,
    /// The record index.
    pub index: RecordIndex,
    /// The object tree over the index.
    pub tree: ObjectTree,
    /// The link table.
    pub links: LinkTable,
    /// The descriptor side table.
    pub sd_table: SdTable,
}

impl DataTable {
    /// The construction invariant: every resolved component agrees with the
    /// raw columns and rows it was resolved from.
    pub open spec fn wf(self) -> bool {
        &&& spec_resolve(self.columns@) == Some(self.map)
        &&& spec_scan(self.rows@, self.map, self.rows@.len() as int) == Ok::<Seq<IndexEntry>, i32>(
            self.index.entries@,
        )
        &&& unique_ids(self.index.entries@)
        &&& forall|k: int|
            0 <= k < self.index.entries@.len() ==> (#[trigger] self.index.entries@[k]).ptr.row
                < self.rows@.len() && self.index.entries@[k].ptr.table == DATA_TABLE_ID
        &&& forall|j: int, k: int|
            0 <= j < k < self.index.entries@.len() ==> (#[trigger] self.index.entries@[j]).ptr.row
                < (#[trigger] self.index.entries@[k]).ptr.row
        &&& self.tree.roots@ == spec_children(self.index.entries@, ROOT_PARENT_ID)
        &&& self.tree.orphans@ == spec_orphans(self.index.entries@)
        &&& spec_anchor_index(self.rows@, self.map.rdn as int) == Some(self.schema.anchor_row as int)
        &&& spec_i32_of(self.rows@[self.schema.anchor_row as int].spec_cell(self.map.record_id as int))
            == Ok::<Option<i32>, ()>(Some(self.schema.anchor_id))
        &&& type_defs_match(self.schema.types@, self.rows@, self.map, self.schema.anchor_id)
        &&& self.schema.types@.len() > 0
        &&& spec_first_named(self.schema.types@, "Person"@) == Some(self.schema.person_type_id)
        &&& spec_first_named(self.schema.types@, "Group"@) == Some(self.schema.group_type_id)
        &&& spec_first_named(self.schema.types@, "Computer"@) == Some(self.schema.computer_type_id)
    }

    /// Open a data table: resolve the attribute map and the schema, scan the
    /// data rows into the index, build the object tree, and index the link
    /// and descriptor tables. Each stage's failure is fatal and typed.
    pub fn new(
        columns: Vec<RawColumn>,
        rows: Vec<RawRow>,
        link_columns: Vec<RawColumn>,
        link_rows: Vec<RawRow>,
        sd_columns: Vec<RawColumn>,
        sd_rows: Vec<RawRow>,
    ) -> (r: Result<DataTable, Error>)
        requires
            rows@.len() <= u32::MAX,
        ensures
            (r matches Ok(dt) ==> {
                &&& dt.wf()
                &&& dt.columns@ == columns@
                &&& dt.rows@ == rows@
                &&& spec_resolve(columns@) == Some(dt.map)
                &&& dt.links.entries@ == spec_link_scan(
                    link_rows@,
                    spec_resolve_link_columns(link_columns@)->Some_0,
                    link_rows@.len() as int,
                )
                &&& ({
                    let scanned = spec_sd_scan(
                        sd_rows@,
                        spec_resolve_sd_columns(sd_columns@)->Some_0,
                        sd_rows@.len() as int,
                    );
                    &&& dt.sd_table.descriptors@.len() == scanned.len()
                    &&& forall|k: int|
                        0 <= k < scanned.len() ==> (#[trigger] dt.sd_table.descriptors@[k]).0
                            == scanned[k].0 && dt.sd_table.descriptors@[k].1@ == scanned[k].1
                })
            }),
            (r is Ok <==> (spec_resolve(columns@) matches Some(m) && spec_schema_ok(rows@, m)
                && spec_scan(rows@, m, rows@.len() as int) is Ok && spec_resolve_link_columns(
                link_columns@,
            ) is Some && spec_resolve_sd_columns(sd_columns@) is Some)),
            (spec_resolve(columns@) is None ==> (r matches Err(e) && e is MissingColumn)),
            ((spec_resolve(columns@) matches Some(m) && spec_schema_ok(rows@, m) && spec_scan(
                rows@,
                m,
                rows@.len() as int,
            ) is Err) ==> r == Err::<DataTable, Error>(
                Error::DuplicateRecordId {
                    record_id: spec_scan(
                        rows@,
                        spec_resolve(columns@)->Some_0,
                        rows@.len() as int,
                    )->Err_0,
                },
            )),
    {
        let map = AttributeMap::resolve(&columns)?;
        let schema = Schema::resolve(&rows, &map)?;
        let index = RecordIndex::build(&rows, &map)?;
        proof {
            lemma_scan_wf(rows@, map, rows@.len() as int);
        }
        let tree = ObjectTree::build(&index);
        let link_cols = LinkColumns::resolve(&link_columns)?;
        let links = LinkTable::build(&link_rows, &link_cols);
        let sd_cols = SdColumns::resolve(&sd_columns)?;
        let sd_table = SdTable::new(&sd_rows, &sd_cols);
        Ok(DataTable { columns, rows, map, schema, index, tree, links, sd_table })
    }

    /// The record id of one supported type's defining record.
    pub fn find_type_record(&self, object_type: ObjectType) -> (r: i32)
        ensures
            r == (match object_type {
                ObjectType::Person => self.schema.person_type_id,
                ObjectType::Group => self.schema.group_type_id,
                ObjectType::Computer => self.schema.computer_type_id,
            }),
    {
        match object_type {
            ObjectType::Person => self.schema.person_type_id,
            ObjectType::Group => self.schema.group_type_id,
            ObjectType::Computer => self.schema.computer_type_id,
        }
    }

    /// The defining record ids of the requested supported types, in request
    /// order.
    pub fn find_type_records(&self, types: &Vec<ObjectType>) -> (r: Vec<(ObjectType, i32)>)
        ensures
            r@.len() == types@.len(),
            forall|k: int|
                0 <= k < types@.len() ==> (#[trigger] r@[k]).0 == types@[k] && r@[k].1 == (
                match types@[k] {
                    ObjectType::Person => self.schema.person_type_id,
                    ObjectType::Group => self.schema.group_type_id,
                    ObjectType::Computer => self.schema.computer_type_id,
                }),
    {
        let mut r: Vec<(ObjectType, i32)> = Vec::new();
        let mut i: usize = 0;
        while i < types.len()
            invariant
                i <= types@.len(),
                r@.len() == i,
                forall|k: int|
                    0 <= k < i ==> (#[trigger] r@[k]).0 == types@[k] && r@[k].1 == (
                    match types@[k] {
                        ObjectType::Person => self.schema.person_type_id,
                        ObjectType::Group => self.schema.group_type_id,
                        ObjectType::Computer => self.schema.computer_type_id,
                    }),
            decreases types@.len() - i,
        {
            let t = types[i];
            r.push((t, self.find_type_record(t)));
            i = i + 1;
        }
        r
    }

    /// The typed listing of one supported type: decode every indexed record
    /// of the type, in table order; a record whose row fails to decode is
    /// skipped and counted, and the listing completes.
    pub fn typed_objects(&self, object_type: ObjectType) -> (r: Listing)
        requires
            self.wf(),
        ensures
            listing_exact(
                self.rows@,
                self.index.entries@,
                self.map,
                self.links.entries@,
                (match object_type {
                    ObjectType::Person => self.schema.person_type_id,
                    ObjectType::Group => self.schema.group_type_id,
                    ObjectType::Computer => self.schema.computer_type_id,
                }),
                object_type,
                r,
            ),
    {
        let type_id = self.find_type_record(object_type);
        let entries = &self.index.entries;
        let ghost sel_pred = |e: IndexEntry|
            e.type_id == Some(type_id) && spec_object_ok(self.rows@[e.ptr.row as int], self.map);
        let ghost type_pred = |e: IndexEntry| e.type_id == Some(type_id);
        let mut objects: Vec<TypedObject> = Vec::new();
        let mut skipped: usize = 0;
        let mut i: usize = 0;
        proof {
            assert(entries@.take(0) =~= Seq::<IndexEntry>::empty());
            assert(Seq::<IndexEntry>::empty().filter(sel_pred) =~= Seq::<IndexEntry>::empty())
                by {
                reveal(Seq::filter);
            }
            assert(Seq::<IndexEntry>::empty().filter(type_pred) =~= Seq::<IndexEntry>::empty())
                by {
                reveal(Seq::filter);
            }
        }
        while i < entries.len()
            invariant
                self.wf(),
                i <= entries@.len(),
                entries == &self.index.entries,
                sel_pred == (|e: IndexEntry|
                    e.type_id == Some(type_id) && spec_object_ok(
                        self.rows@[e.ptr.row as int],
                        self.map,
                    )),
                type_pred == (|e: IndexEntry| e.type_id == Some(type_id)),
                objects@.len() == entries@.take(i as int).filter(sel_pred).len(),
                forall|k: int|
                    0 <= k < objects@.len() ==> object_matches(
                        self.rows@[entries@.take(i as int).filter(sel_pred)[k].ptr.row as int],
                        self.map,
                        self.links.entries@,
                        #[trigger] objects@[k],
                    ) && objects@[k].ptr == entries@.take(i as int).filter(sel_pred)[k].ptr
                        && objects@[k].object_type == object_type,
                skipped + entries@.take(i as int).filter(sel_pred).len() == entries@.take(
                    i as int,
                ).filter(type_pred).len(),
            decreases entries@.len() - i,
        {
            proof {
                Seq::lemma_take_succ_push(entries@, i as int);
                Seq::lemma_filter_push(entries@.take(i as int), entries@[i as int], sel_pred);
                Seq::lemma_filter_push(entries@.take(i as int), entries@[i as int], type_pred);
            }
            let e = entries[i];
            let type_matches = match e.type_id {
                Some(t) => t == type_id,
                None => false,
            };
            if type_matches {
                match decode_object(
                    &self.rows[e.ptr.row as usize],
                    e.ptr,
                    object_type,
                    &self.map,
                    &self.links,
                ) {
                    Ok(o) => {
                        objects.push(o);
                    },
                    Err(_) => {
                        skipped = skipped + 1;
                    },
                }
            }
            i = i + 1;
        }
        proof {
            assert(entries@.take(entries@.len() as int) =~= entries@);
        }
        Listing { objects, skipped }
    }

    /// The typed listing of the user accounts.
    pub fn show_users(&self) -> (r: Listing)
        requires
            self.wf(),
        ensures
            listing_exact(
                self.rows@,
                self.index.entries@,
                self.map,
                self.links.entries@,
                self.schema.person_type_id,
                ObjectType::Person,
                r,
            ),
    {
        self.typed_objects(ObjectType::Person)
    }

    /// The typed listing of the groups.
    pub fn show_groups(&self) -> (r: Listing)
        requires
            self.wf(),
        ensures
            listing_exact(
                self.rows@,
                self.index.entries@,
                self.map,
                self.links.entries@,
                self.schema.group_type_id,
                ObjectType::Group,
                r,
            ),
    {
        self.typed_objects(ObjectType::Group)
    }

    /// The typed listing of the computer accounts.
    pub fn show_computers(&self) -> (r: Listing)
        requires
            self.wf(),
        ensures
            listing_exact(
                self.rows@,
                self.index.entries@,
                self.map,
                self.links.entries@,
                self.schema.computer_type_id,
                ObjectType::Computer,
                r,
            ),
    {
        self.typed_objects(ObjectType::Computer)
    }

    /// Dereference a link target: the pointer of the referenced record. A
    /// target that is not indexed — a legitimately deleted or tombstoned
    /// record — surfaces as a dangling-target error only here, on demand.
    pub fn dereference_link_target(&self, record_id: i32) -> (r: Result<RecordPointer, Error>)
        ensures
            (spec_entry_by_id(self.index.entries@, record_id) matches Some(e) ==> r == Ok::<
                RecordPointer,
                Error,
            >(e.ptr)),
            (spec_entry_by_id(self.index.entries@, record_id) is None ==> r == Err::<
                RecordPointer,
                Error,
            >(Error::DanglingLinkTarget { record_id })),
    {
        match self.index.lookup(record_id) {
            Some(ptr) => Ok(ptr),
            None => Err(Error::DanglingLinkTarget { record_id }),
        }
    }

    /// The name of every discovered type definition, in table order.
    pub fn show_type_names(&self) -> (r: Vec<String>)
        ensures
            r@.len() == self.schema.types@.len(),
            forall|k: int|
                0 <= k < r@.len() ==> (#[trigger] r@[k])@ == self.schema.types@[k].name@,
    {
        let mut r: Vec<String> = Vec::new();
        let mut i: usize = 0;
        while i < self.schema.types.len()
            invariant
                i <= self.schema.types@.len(),
                r@.len() == i,
                forall|k: int|
                    0 <= k < i ==> (#[trigger] r@[k])@ == self.schema.types@[k].name@,
            decreases self.schema.types@.len() - i,
        {
            r.push(self.schema.types[i].name.clone());
            i = i + 1;
        }
        r
    }
}


/// The name a tree node shows: the display text of its relative name.
pub open spec fn spec_node_name(rows: Seq<RawRow>, map: AttributeMap, ptr: RecordPointer) -> Seq<
    char,
> {
    if ptr.row < rows.len() {
        cell_display_spec(rows[ptr.row as int].spec_cell(map.rdn as int))
    } else {
        Seq::empty()
    }
}

/// The rendered subtree of one node: its own indented line, and, while the
/// depth bound allows, the subtrees of its children. Depth zero renders the
/// node alone.
pub open spec fn spec_render_node(
    rows: Seq<RawRow>,
    entries: Seq<IndexEntry>,
    map: AttributeMap,
    ptr: RecordPointer,
    depth: nat,
    indent: nat,
) -> Seq<char>
    decreases depth, 0nat, 0nat,
{
    let line = Seq::new(indent, |i: int| ' ') + spec_node_name(rows, map, ptr) + seq!['\n'];
    if depth == 0 {
        line
    } else {
        match spec_entry_by_ptr(entries, ptr) {
            None => line,
            Some(e) => line + spec_render_children(
                rows,
                entries,
                map,
                spec_children(entries, e.record_id),
                0,
                (depth - 1) as nat,
                (indent + 2) as nat,
            ),
        }
    }
}

/// The rendered subtrees of the children from position `k` on.
pub open spec fn spec_render_children(
    rows: Seq<RawRow>,
    entries: Seq<IndexEntry>,
    map: AttributeMap,
    ptrs: Seq<RecordPointer>,
    k: int,
    depth: nat,
    indent: nat,
) -> Seq<char>
    decreases depth, 1nat, ptrs.len() - k,
{
    if k < 0 || k >= ptrs.len() {
        Seq::empty()
    } else {
        spec_render_node(rows, entries, map, ptrs[k], depth, indent) + spec_render_children(
            rows,
            entries,
            map,
            ptrs,
            k + 1,
            depth,
            indent,
        )
    }
}

/// One attribute line of the single-entry view: nothing when the attribute's
/// column is unresolved.
pub open spec fn opt_field(name: Seq<char>, row: RawRow, col: Option<i32>) -> Seq<
    (Seq<char>, Seq<char>),
> {
    match col {
        Some(c) => seq![(name, cell_display_spec(row.spec_cell(c as int)))],
        None => Seq::empty(),
    }
}

/// The (attribute name, display text) table of one record, over every
/// resolved attribute.
pub open spec fn spec_entry_fields(row: RawRow, map: AttributeMap) -> Seq<(Seq<char>, Seq<char>)> {
    opt_field("record id"@, row, Some(map.record_id)) + opt_field(
        "parent record id"@,
        row,
        Some(map.parent_id),
    ) + opt_field("record time"@, row, Some(map.record_time)) + opt_field(
        "ancestors"@,
        row,
        Some(map.ancestors),
    ) + opt_field("object category"@, row, Some(map.object_category)) + opt_field(
        "common name"@,
        row,
        Some(map.common_name),
    ) + opt_field("relative name"@, row, Some(map.rdn)) + opt_field(
        "security identifier"@,
        row,
        map.sid,
    ) + opt_field("account name"@, row, map.sam_account_name) + opt_field(
        "account type"@,
        row,
        map.sam_account_type,
    ) + opt_field("principal name"@, row, map.user_principal_name) + opt_field(
        "account control"@,
        row,
        map.user_account_control,
    ) + opt_field("last logon"@, row, map.last_logon) + opt_field(
        "last logon timestamp"@,
        row,
        map.last_logon_time_stamp,
    ) + opt_field("account expires"@, row, map.account_expires) + opt_field(
        "password last set"@,
        row,
        map.password_last_set,
    ) + opt_field("bad password time"@, row, map.bad_pwd_time) + opt_field(
        "logon count"@,
        row,
        map.logon_count,
    ) + opt_field("bad password count"@, row, map.bad_pwd_count) + opt_field(
        "primary group id"@,
        row,
        map.primary_group_id,
    ) + opt_field("nt hash"@, row, map.nt_hash) + opt_field("lm hash"@, row, map.lm_hash)
        + opt_field("nt hash history"@, row, map.nt_pwd_history) + opt_field(
        "lm hash history"@,
        row,
        map.lm_pwd_history,
    ) + opt_field("deleted from container"@, row, map.deleted_from)
}

/// Append one attribute line of the single-entry view.
fn push_field(fields: &mut Vec<(String, String)>, name: &str, row: &RawRow, col: Option<i32>)
    ensures
        final(fields).deep_view() == old(fields).deep_view() + opt_field(name@, *row, col),
{
    match col {
        Some(c) => {
            let text = row.display_at(c);
            fields.push((String::from_str(name), text));
            proof {
                assert(fields.deep_view() =~= old(fields).deep_view() + opt_field(
                    name@,
                    *row,
                    col,
                ));
            }
        },
        None => {
            proof {
                assert(fields.deep_view() =~= old(fields).deep_view() + opt_field(
                    name@,
                    *row,
                    col,
                ));
            }
        },
    }
}

/// The name of a column id in the raw listing; an unknown id shows as its
/// decimal form.
pub open spec fn spec_col_name(cols: Seq<RawColumn>, id: i32) -> Seq<char>
    decreases cols.len(),
{
    if cols.len() == 0 {
        dec_of_int(id as int)
    } else if cols[0].id == id {
        cols[0].name@
    } else {
        spec_col_name(cols.drop_first(), id)
    }
}

/// Render the name of a column id.
fn col_name(cols: &Vec<RawColumn>, id: i32) -> (r: String)
    ensures
        r@ == spec_col_name(cols@, id),
{
    let mut i: usize = 0;
    proof {
        assert(cols@.skip(0) =~= cols@);
    }
    while i < cols.len()
        invariant
            i <= cols@.len(),
            spec_col_name(cols@, id) == spec_col_name(cols@.skip(i as int), id),
        decreases cols@.len() - i,
    {
        proof {
            assert(cols@.skip(i as int)[0] == cols@[i as int]);
            assert(cols@.skip(i as int).drop_first() =~= cols@.skip(i as int + 1));
        }
        if cols[i].id == id {
            return cols[i].name.clone();
        }
        i = i + 1;
    }
    proof {
        assert(cols@.skip(i as int).len() == 0);
    }
    i32_to_dec(id)
}

/// A search result: the column ids in output order (the identifying prefix,
/// then every matched column in first-seen order), their display names, and
/// one row of escaped display texts per matching record.
pub struct SearchOutput {
    pub columns: Vec<i32>,
    pub header: Vec<String>,
    pub rows: Vec<Vec<String>>,
}

/// Whether a rendered row is the escaped display text of every output
/// column of a record.
pub open spec fn hit_row_matches(row: RawRow, cols: Seq<i32>, texts: Seq<String>) -> bool {
    &&& texts.len() == cols.len()
    &&& forall|k: int|
        0 <= k < cols.len() ==> (#[trigger] texts[k])@ == escape_line_breaks(
            cell_display_spec(row.spec_cell(cols[k] as int)),
        )
}

/// Render one matching record.
fn render_hit_row(row: &RawRow, cols: &Vec<i32>) -> (r: Vec<String>)
    ensures
        hit_row_matches(*row, cols@, r@),
{
    let mut r: Vec<String> = Vec::new();
    let mut c: usize = 0;
    while c < cols.len()
        invariant
            c <= cols@.len(),
            r@.len() == c,
            forall|k: int|
                0 <= k < c ==> (#[trigger] r@[k])@ == escape_line_breaks(
                    cell_display_spec(row.spec_cell(cols@[k] as int)),
                ),
        decreases cols@.len() - c,
    {
        let text = row.display_at(cols[c]);
        r.push(crate::search::escape_line_breaks_x(text.as_str()));
        c = c + 1;
    }
    r
}

/// The fixed identifying column prefix of the search output.
pub open spec fn spec_search_prefix(map: AttributeMap) -> Seq<i32> {
    seq![map.record_id, map.parent_id, map.common_name, map.rdn, map.object_category]
}

/// The type ids in timeline scope.
pub open spec fn spec_scope_ids(
    types: Seq<crate::schema::TypeDefinition>,
    sup: (i32, i32, i32),
    all_objects: bool,
) -> Seq<i32> {
    if all_objects {
        types.map_values(|d: crate::schema::TypeDefinition| d.record_id)
    } else {
        seq![sup.0, sup.1, sup.2]
    }
}

/// The entries whose object type is in scope.
pub open spec fn spec_scope_entries(entries: Seq<IndexEntry>, ids: Seq<i32>) -> Seq<IndexEntry> {
    entries.filter(
        |e: IndexEntry| e.type_id matches Some(t) && ids.contains(t),
    )
}

/// The deleted-objects container: the first record named "Deleted Objects",
/// when it exists and its record id decodes.
pub open spec fn spec_deleted_container_id(rows: Seq<RawRow>, map: AttributeMap) -> Option<i32> {
    match spec_named_index(rows, map.rdn as int, "Deleted Objects"@) {
        Some(i) => match spec_i32_of(rows[i].spec_cell(map.record_id as int)) {
            Ok(Some(v)) => Some(v),
            _ => None,
        },
        None => None,
    }
}

/// The descendants of the container: every entry on whose stored parent
/// chain the container sits.
pub open spec fn spec_descendants(entries: Seq<IndexEntry>, container_id: i32) -> Seq<IndexEntry> {
    entries.filter(
        |e: IndexEntry|
            spec_ancestor_chain(entries, e.record_id, container_id, entries.len() as nat),
    )
}

/// The back-referenced records that are not already descendants.
pub open spec fn spec_backref_extra(entries: Seq<IndexEntry>, container_id: i32) -> Seq<
    IndexEntry,
> {
    entries.filter(
        |e: IndexEntry|
            e.deleted_from == Some(container_id) && !spec_descendants(
                entries,
                container_id,
            ).contains(e),
    )
}

/// The deleted-inclusive scope: the descendants of the container and the
/// back-referenced records, de-duplicated.
pub open spec fn spec_deleted_scope(entries: Seq<IndexEntry>, container_id: i32) -> Seq<
    IndexEntry,
> {
    spec_descendants(entries, container_id) + spec_backref_extra(entries, container_id)
}

/// The deleted-inclusive scope carries no record twice, and carries exactly
/// the union of the container's descendants and the records back-referenced
/// to it: a record that is both appears exactly once.
pub proof fn lemma_deleted_scope_exact(entries: Seq<IndexEntry>, container_id: i32)
    requires
        forall|j: int, k: int|
            0 <= j < k < entries.len() ==> (#[trigger] entries[j]).ptr != (
            #[trigger] entries[k]).ptr,
    ensures
        ({
            let scope = spec_deleted_scope(entries, container_id);
            &&& forall|j: int, k: int| 0 <= j < k < scope.len() ==> scope[j] != scope[k]
            &&& forall|e: IndexEntry|
                #[trigger] scope.contains(e) <==> (spec_descendants(
                    entries,
                    container_id,
                ).contains(e) || entries.filter(
                    |x: IndexEntry| x.deleted_from == Some(container_id),
                ).contains(e))
        }),
{
    broadcast use Seq::lemma_filter_pred, Seq::lemma_filter_contains, Seq::lemma_index_contains;

    let desc_pred = |e: IndexEntry|
        spec_ancestor_chain(entries, e.record_id, container_id, entries.len() as nat);
    let back_pred = |x: IndexEntry| x.deleted_from == Some(container_id);
    let extra_pred = |e: IndexEntry|
        e.deleted_from == Some(container_id) && !spec_descendants(
            entries,
            container_id,
        ).contains(e);
    let desc = spec_descendants(entries, container_id);
    let extra = spec_backref_extra(entries, container_id);
    let full = entries.filter(back_pred);
    let scope = spec_deleted_scope(entries, container_id);
    assert(forall|j: int, k: int|
        0 <= j < k < entries.len() ==> entries[j] != entries[k]) by {
        assert forall|j: int, k: int| 0 <= j < k < entries.len() implies entries[j]
            != entries[k] by {
            assert(entries[j].ptr != entries[k].ptr);
        }
    }
    lemma_filter_no_dup(entries, desc_pred);
    lemma_filter_no_dup(entries, extra_pred);
    lemma_filter_elements(entries, desc_pred);
    lemma_filter_elements(entries, extra_pred);
    lemma_filter_elements(entries, back_pred);
    assert forall|j: int, k: int| 0 <= j < k < scope.len() implies scope[j] != scope[k] by {
        if j < desc.len() && k >= desc.len() {
            assert(scope[j] == desc[j]);
            assert(scope[k] == extra[k - desc.len()]);
            assert(extra_pred(extra[k - desc.len()]));
            assert(desc.contains(desc[j]));
        } else if j >= desc.len() {
            assert(scope[j] == extra[j - desc.len()]);
            assert(scope[k] == extra[k - desc.len()]);
        } else {
            assert(scope[j] == desc[j]);
            assert(scope[k] == desc[k]);
        }
    }
    assert forall|e: IndexEntry| #[trigger] scope.contains(e) implies (desc.contains(e)
        || full.contains(e)) by {
        let m = choose|m: int| 0 <= m < scope.len() && scope[m] == e;
        if m < desc.len() {
            assert(desc[m] == e);
            assert(desc.contains(e));
        } else {
            assert(extra[m - desc.len()] == e);
            assert(extra.contains(e));
            assert(entries.contains(e));
            let idx = choose|idx: int| 0 <= idx < entries.len() && entries[idx] == e;
            assert(extra_pred(e));
            assert(back_pred(entries[idx]));
            assert(full.contains(entries[idx]));
        }
    }
    assert forall|e: IndexEntry| (desc.contains(e) || full.contains(e)) implies #[trigger] scope.contains(
        e,
    ) by {
        if desc.contains(e) {
            let m = choose|m: int| 0 <= m < desc.len() && desc[m] == e;
            assert(scope[m] == e);
        } else {
            let m = choose|m: int| 0 <= m < full.len() && full[m] == e;
            assert(full.contains(e));
            assert(entries.contains(full[m]));
            let idx = choose|idx: int| 0 <= idx < entries.len() && entries[idx] == e;
            assert(back_pred(e));
            assert(extra_pred(entries[idx]));
            assert(extra.contains(entries[idx]));
            let x = choose|x: int| 0 <= x < extra.len() && extra[x] == e;
            assert(scope[desc.len() + x] == e);
        }
    }
}

/// A timeline export: the in-scope lines, and, when requested, the
/// deleted-inclusive addendum.
pub struct TimelineReport {
    pub output: TimelineOutput,
    pub deleted: Option<TimelineOutput>,
}

impl DataTable {
    /// Render the object tree, indentation per level, down to `max_depth`
    /// levels below the root; depth zero renders the root alone. Fails when
    /// the artifact does not carry exactly one root.
    pub fn show_tree(&self, max_depth: u8) -> (r: Result<String, Error>)
        requires
            self.wf(),
        ensures
            (self.tree.roots@.len() == 1 ==> (r matches Ok(s) && s@ == spec_render_node(
                self.rows@,
                self.index.entries@,
                self.map,
                self.tree.roots@[0],
                max_depth as nat,
                0,
            ))),
            (self.tree.roots@.len() != 1 ==> (r matches Err(e) && e is MiscConversionError)),
    {
        match self.tree.root() {
            Some(root) => {
                let mut out = String::new();
                self.render_node(root, max_depth, 0, &mut out);
                proof {
                    assert(out@ =~= spec_render_node(
                        self.rows@,
                        self.index.entries@,
                        self.map,
                        self.tree.roots@[0],
                        max_depth as nat,
                        0,
                    ));
                }
                Ok(out)
            },
            None => Err(Error::MiscConversionError {
                value: crate::fmt::u64_to_dec(self.tree.roots.len() as u64),
                intended_type: String::from_str("single object tree root"),
            }),
        }
    }

    /// Render one node and, to the depth bound, its subtree.
    fn render_node(&self, ptr: RecordPointer, depth: u8, indent: usize, out: &mut String)
        requires
            self.wf(),
            indent + 2 * (depth as int) <= 2000,
        ensures
            final(out)@ == old(out)@ + spec_render_node(
                self.rows@,
                self.index.entries@,
                self.map,
                ptr,
                depth as nat,
                indent as nat,
            ),
        decreases depth,
    {
        let ghost line = Seq::new(indent as nat, |i: int| ' ') + spec_node_name(
            self.rows@,
            self.map,
            ptr,
        ) + seq!['\n'];
        let mut i: usize = 0;
        while i < indent
            invariant
                i <= indent,
                out@ == old(out)@ + Seq::new(i as nat, |j: int| ' '),
            decreases indent - i,
        {
            push_char(out, ' ');
            i = i + 1;
            proof {
                assert(out@ =~= old(out)@ + Seq::new(i as nat, |j: int| ' '));
            }
        }
        if (ptr.row as usize) < self.rows.len() {
            let name = self.rows[ptr.row as usize].display_at(self.map.rdn);
            out.append(name.as_str());
        }
        push_char(out, '\n');
        proof {
            assert(out@ =~= old(out)@ + line);
        }
        if depth > 0 {
            match self.index.entry_at(ptr) {
                Some(e) => {
                    let children = self.index.children_of(e.record_id);
                    let ghost d2 = (depth - 1) as nat;
                    let ghost ind2 = (indent + 2) as nat;
                    let mut k: usize = 0;
                    while k < children.len()
                        invariant
                            self.wf(),
                            k <= children@.len(),
                            indent + 2 * (depth as int) <= 2000,
                            depth >= 1,
                            d2 == (depth - 1) as nat,
                            ind2 == (indent + 2) as nat,
                            children@ == spec_children(self.index.entries@, e.record_id),
                            out@ + spec_render_children(
                                self.rows@,
                                self.index.entries@,
                                self.map,
                                children@,
                                k as int,
                                d2,
                                ind2,
                            ) == old(out)@ + line + spec_render_children(
                                self.rows@,
                                self.index.entries@,
                                self.map,
                                children@,
                                0,
                                d2,
                                ind2,
                            ),
                        decreases children@.len() - k,
                    {
                        let ghost before = out@;
                        self.render_node(children[k], depth - 1, indent + 2, out);
                        k = k + 1;
                        proof {
                            assert(before + (spec_render_node(
                                self.rows@,
                                self.index.entries@,
                                self.map,
                                children@[k - 1],
                                d2,
                                ind2,
                            ) + spec_render_children(
                                self.rows@,
                                self.index.entries@,
                                self.map,
                                children@,
                                k as int,
                                d2,
                                ind2,
                            )) =~= out@ + spec_render_children(
                                self.rows@,
                                self.index.entries@,
                                self.map,
                                children@,
                                k as int,
                                d2,
                                ind2,
                            ));
                        }
                    }
                    proof {
                        assert(spec_render_children(
                            self.rows@,
                            self.index.entries@,
                            self.map,
                            children@,
                            children@.len() as int,
                            d2,
                            ind2,
                        ) =~= Seq::<char>::empty());
                        assert(out@ + Seq::<char>::empty() =~= out@);
                        assert(out@ =~= old(out)@ + spec_render_node(
                            self.rows@,
                            self.index.entries@,
                            self.map,
                            ptr,
                            depth as nat,
                            indent as nat,
                        ));
                    }
                },
                None => {
                    proof {
                        assert(out@ =~= old(out)@ + spec_render_node(
                            self.rows@,
                            self.index.entries@,
                            self.map,
                            ptr,
                            depth as nat,
                            indent as nat,
                        ));
                    }
                },
            }
        }
    }

    /// Where an entry id points: by record id, or by derived numeric
    /// identifier through the identifier index.
    pub open spec fn spec_locate(self, entry_id: EntryId) -> Option<RecordPointer> {
        match entry_id {
            EntryId::Id(id) => match spec_entry_by_id(self.index.entries@, id) {
                Some(e) => Some(e.ptr),
                None => None,
            },
            EntryId::Rid(rid) => match spec_entry_by_rid(self.index.entries@, rid) {
                Some(e) => Some(e.ptr),
                None => None,
            },
        }
    }

    /// The single-entry view: the (attribute name, display text) table of the
    /// record the id points at. "Not found" is a normal empty result.
    pub fn show_entry(&self, entry_id: EntryId) -> (r: Option<Vec<(String, String)>>)
        requires
            self.wf(),
        ensures
            (self.spec_locate(entry_id) matches Some(p) ==> (r matches Some(fields)
                && fields.deep_view() == spec_entry_fields(self.rows@[p.row as int], self.map))),
            (self.spec_locate(entry_id) is None ==> r is None),
    {
        proof {
            crate::index::lemma_entry_by_id_member(
                self.index.entries@,
                (match entry_id {
                    EntryId::Id(id) => id,
                    EntryId::Rid(_) => 0,
                }),
            );
            crate::index::lemma_entry_by_rid_member(
                self.index.entries@,
                (match entry_id {
                    EntryId::Rid(rid) => rid,
                    EntryId::Id(_) => 0,
                }),
            );
        }
        let located = match entry_id {
            EntryId::Id(id) => self.index.lookup(id),
            EntryId::Rid(rid) => self.index.entry_with_rid(rid),
        };
        match located {
            Some(ptr) => {
                proof {
                    let entries = self.index.entries@;
                    let e = (match entry_id {
                        EntryId::Id(id) => spec_entry_by_id(entries, id)->Some_0,
                        EntryId::Rid(rid) => spec_entry_by_rid(entries, rid)->Some_0,
                    });
                    assert(entries.contains(e));
                    let j = choose|j: int| 0 <= j < entries.len() && entries[j] == e;
                    assert(entries[j].ptr.row < self.rows@.len());
                }
                let row = &self.rows[ptr.row as usize];
                let mut fields: Vec<(String, String)> = Vec::new();
                proof {
                    assert(fields.deep_view() =~= Seq::<(Seq<char>, Seq<char>)>::empty());
                }
                push_field(&mut fields, "record id", row, Some(self.map.record_id));
                push_field(&mut fields, "parent record id", row, Some(self.map.parent_id));
                push_field(&mut fields, "record time", row, Some(self.map.record_time));
                push_field(&mut fields, "ancestors", row, Some(self.map.ancestors));
                push_field(&mut fields, "object category", row, Some(self.map.object_category));
                push_field(&mut fields, "common name", row, Some(self.map.common_name));
                push_field(&mut fields, "relative name", row, Some(self.map.rdn));
                push_field(&mut fields, "security identifier", row, self.map.sid);
                push_field(&mut fields, "account name", row, self.map.sam_account_name);
                push_field(&mut fields, "account type", row, self.map.sam_account_type);
                push_field(&mut fields, "principal name", row, self.map.user_principal_name);
                push_field(&mut fields, "account control", row, self.map.user_account_control);
                push_field(&mut fields, "last logon", row, self.map.last_logon);
                push_field(
                    &mut fields,
                    "last logon timestamp",
                    row,
                    self.map.last_logon_time_stamp,
                );
                push_field(&mut fields, "account expires", row, self.map.account_expires);
                push_field(&mut fields, "password last set", row, self.map.password_last_set);
                push_field(&mut fields, "bad password time", row, self.map.bad_pwd_time);
                push_field(&mut fields, "logon count", row, self.map.logon_count);
                push_field(&mut fields, "bad password count", row, self.map.bad_pwd_count);
                push_field(&mut fields, "primary group id", row, self.map.primary_group_id);
                push_field(&mut fields, "nt hash", row, self.map.nt_hash);
                push_field(&mut fields, "lm hash", row, self.map.lm_hash);
                push_field(&mut fields, "nt hash history", row, self.map.nt_pwd_history);
                push_field(&mut fields, "lm hash history", row, self.map.lm_pwd_history);
                push_field(&mut fields, "deleted from container", row, self.map.deleted_from);
                proof {
                    assert(fields.deep_view() =~= spec_entry_fields(
                        self.rows@[ptr.row as int],
                        self.map,
                    ));
                }
                Some(fields)
            },
            None => None,
        }
    }

    /// Free-text search: match every attribute of every record, as display
    /// text, against the pattern. The result is the matching records, over
    /// the identifying column prefix plus the union of matched columns.
    pub fn search_entries(&self, pattern: &str, ignore_case: bool) -> (r: Result<
        SearchOutput,
        Error,
    >)
        ensures
            ({
                let eff = if ignore_case {
                    crate::search::spec_case_insensitive(pattern@)
                } else {
                    pattern@
                };
                &&& (r is Ok <==> regex_valid(eff))
                &&& (!regex_valid(eff) ==> (r matches Err(e) && e is MiscConversionError))
                &&& (r matches Ok(out) ==> {
                    let cols = spec_search_cols(
                        self.rows@,
                        eff,
                        spec_search_prefix(self.map),
                        self.rows@.len() as int,
                    );
                    let hits = spec_hit_rows(self.rows@, eff);
                    &&& out.columns@ == cols
                    &&& out.header@.len() == cols.len()
                    &&& (forall|c: int|
                        0 <= c < cols.len() ==> (#[trigger] out.header@[c])@ == spec_col_name(
                            self.columns@,
                            cols[c],
                        ))
                    &&& out.rows@.len() == hits.len()
                    &&& (forall|h: int|
                        0 <= h < hits.len() ==> hit_row_matches(
                            self.rows@[hits[h]],
                            cols,
                            (#[trigger] out.rows@[h])@,
                        ))
                })
            }),
    {
        let full = if ignore_case {
            case_insensitive(pattern)
        } else {
            String::from_str(pattern)
        };
        let pat = match Pattern::compile(full.as_str()) {
            Some(p) => p,
            None => {
                return Err(Error::MiscConversionError {
                    value: full,
                    intended_type: String::from_str("regular expression"),
                });
            },
        };
        let mut cols: Vec<i32> = Vec::new();
        cols.push(self.map.record_id);
        cols.push(self.map.parent_id);
        cols.push(self.map.common_name);
        cols.push(self.map.rdn);
        cols.push(self.map.object_category);
        proof {
            assert(cols@ =~= spec_search_prefix(self.map));
        }
        let ghost prefix = cols@;
        let mut i: usize = 0;
        while i < self.rows.len()
            invariant
                i <= self.rows@.len(),
                pat.spec_source() == (if ignore_case {
                    crate::search::spec_case_insensitive(pattern@)
                } else {
                    pattern@
                }),
                prefix == spec_search_prefix(self.map),
                cols@ == spec_search_cols(self.rows@, pat.spec_source(), prefix, i as int),
            decreases self.rows@.len() - i,
        {
            crate::search::add_row_cols(&mut cols, &self.rows[i], &pat);
            i = i + 1;
        }
        let mut header: Vec<String> = Vec::new();
        let mut c: usize = 0;
        while c < cols.len()
            invariant
                c <= cols@.len(),
                header@.len() == c,
                forall|k: int|
                    0 <= k < c ==> (#[trigger] header@[k])@ == spec_col_name(
                        self.columns@,
                        cols@[k],
                    ),
            decreases cols@.len() - c,
        {
            header.push(col_name(&self.columns, cols[c]));
            c = c + 1;
        }
        let ghost all = Seq::new(self.rows@.len(), |i: int| i);
        let ghost hit_pred = |i: int| spec_row_hit(self.rows@[i], pat.spec_source());
        let mut out_rows: Vec<Vec<String>> = Vec::new();
        let mut i: usize = 0;
        proof {
            assert(all.take(0) =~= Seq::<int>::empty());
            assert(Seq::<int>::empty().filter(hit_pred) =~= Seq::<int>::empty()) by {
                reveal(Seq::filter);
            }
        }
        while i < self.rows.len()
            invariant
                i <= self.rows@.len(),
                pat.spec_source() == (if ignore_case {
                    crate::search::spec_case_insensitive(pattern@)
                } else {
                    pattern@
                }),
                all == Seq::new(self.rows@.len(), |i: int| i),
                hit_pred == (|i: int| spec_row_hit(self.rows@[i], pat.spec_source())),
                out_rows@.len() == all.take(i as int).filter(hit_pred).len(),
                forall|h: int|
                    0 <= h < out_rows@.len() ==> hit_row_matches(
                        self.rows@[all.take(i as int).filter(hit_pred)[h]],
                        cols@,
                        (#[trigger] out_rows@[h])@,
                    ),
            decreases self.rows@.len() - i,
        {
            proof {
                Seq::lemma_take_succ_push(all, i as int);
                Seq::lemma_filter_push(all.take(i as int), i as int, hit_pred);
            }
            if crate::search::row_hit(&self.rows[i], &pat) {
                out_rows.push(render_hit_row(&self.rows[i], &cols));
            }
            i = i + 1;
        }
        proof {
            assert(all.take(self.rows@.len() as int) =~= all);
        }
        Ok(SearchOutput { columns: cols, header, rows: out_rows })
    }

    /// Timeline export. In-scope records default to the supported types; the
    /// "all objects" mode widens the scope to every discovered type. The
    /// deleted-inclusive mode adds, separately, the union of the descendants
    /// of the deleted-objects container and the records back-referenced to
    /// it, de-duplicated; without the container the addendum is empty.
    pub fn show_timeline(&self, all_objects: bool, include_deleted: bool) -> (r: TimelineReport)
        requires
            self.wf(),
        ensures
            ({
                let sup = (
                    self.schema.person_type_id,
                    self.schema.group_type_id,
                    self.schema.computer_type_id,
                );
                let scope = spec_scope_entries(
                    self.index.entries@,
                    spec_scope_ids(self.schema.types@, sup, all_objects),
                );
                let folded = spec_timeline_fold(
                    self.rows@,
                    scope,
                    self.map,
                    sup,
                    scope.len() as int,
                );
                &&& r.output.lines.deep_view() == folded.0
                &&& r.output.skipped == folded.1
                &&& (!include_deleted ==> r.deleted is None)
                &&& (include_deleted ==> (r.deleted matches Some(d)
                    && match spec_deleted_container_id(self.rows@, self.map) {
                    Some(cid) => {
                        let dscope = spec_deleted_scope(self.index.entries@, cid);
                        let dfolded = spec_timeline_fold(
                            self.rows@,
                            dscope,
                            self.map,
                            sup,
                            dscope.len() as int,
                        );
                        &&& d.lines.deep_view() == dfolded.0
                        &&& d.skipped == dfolded.1
                    },
                    None => d.lines@.len() == 0 && d.skipped == 0,
                }))
            }),
    {
        let sup = (
            self.schema.person_type_id,
            self.schema.group_type_id,
            self.schema.computer_type_id,
        );
        let mut ids: Vec<i32> = Vec::new();
        if all_objects {
            let mut t: usize = 0;
            while t < self.schema.types.len()
                invariant
                    t <= self.schema.types@.len(),
                    ids@.len() == t,
                    forall|k: int|
                        0 <= k < t ==> (#[trigger] ids@[k]) == self.schema.types@[k].record_id,
                decreases self.schema.types@.len() - t,
            {
                ids.push(self.schema.types[t].record_id);
                t = t + 1;
            }
            proof {
                assert(ids@ =~= spec_scope_ids(self.schema.types@, sup, all_objects));
            }
        } else {
            ids.push(sup.0);
            ids.push(sup.1);
            ids.push(sup.2);
            proof {
                assert(ids@ =~= spec_scope_ids(self.schema.types@, sup, all_objects));
            }
        }
        let scope = self.scope_entries(&ids);
        let output = timeline_for_entries(&self.rows, &scope, &self.map, sup);
        let deleted = if include_deleted {
            match crate::schema::find_named_record(&self.rows, &self.map, "Deleted Objects") {
                Some((_, container_id)) => {
                    let dscope = self.deleted_scope(container_id);
                    Some(timeline_for_entries(&self.rows, &dscope, &self.map, sup))
                },
                None => Some(TimelineOutput { lines: Vec::new(), skipped: 0 }),
            }
        } else {
            None
        };
        TimelineReport { output, deleted }
    }

    /// The indexed entries whose object type is in the given scope.
    fn scope_entries(&self, ids: &Vec<i32>) -> (r: Vec<IndexEntry>)
        requires
            self.wf(),
        ensures
            r@ == spec_scope_entries(self.index.entries@, ids@),
            forall|k: int| 0 <= k < r@.len() ==> (#[trigger] r@[k]).ptr.row < self.rows@.len(),
    {
        let entries = &self.index.entries;
        let ghost pred = |e: IndexEntry| e.type_id matches Some(t) && ids@.contains(t);
        let mut r: Vec<IndexEntry> = Vec::new();
        let mut i: usize = 0;
        proof {
            assert(entries@.take(0) =~= Seq::<IndexEntry>::empty());
            assert(Seq::<IndexEntry>::empty().filter(pred) =~= Seq::<IndexEntry>::empty()) by {
                reveal(Seq::filter);
            }
        }
        while i < entries.len()
            invariant
                self.wf(),
                i <= entries@.len(),
                entries == &self.index.entries,
                pred == (|e: IndexEntry| e.type_id matches Some(t) && ids@.contains(t)),
                r@ == entries@.take(i as int).filter(pred),
                forall|k: int| 0 <= k < r@.len() ==> (#[trigger] r@[k]).ptr.row < self.rows@.len(),
            decreases entries@.len() - i,
        {
            proof {
                Seq::lemma_take_succ_push(entries@, i as int);
                Seq::lemma_filter_push(entries@.take(i as int), entries@[i as int], pred);
            }
            let in_scope = match entries[i].type_id {
                Some(t) => crate::search::contains_col(ids, t),
                None => false,
            };
            if in_scope {
                r.push(entries[i]);
            }
            proof {
                assert(r@ =~= entries@.take(i as int + 1).filter(pred));
            }
            i = i + 1;
        }
        proof {
            assert(entries@.take(entries@.len() as int) =~= entries@);
        }
        r
    }

    /// The deleted-inclusive scope of the container, de-duplicated.
    fn deleted_scope(&self, container_id: i32) -> (r: Vec<IndexEntry>)
        requires
            self.wf(),
        ensures
            r@ == spec_deleted_scope(self.index.entries@, container_id),
            forall|k: int| 0 <= k < r@.len() ==> (#[trigger] r@[k]).ptr.row < self.rows@.len(),
    {
        let entries = &self.index.entries;
        let ghost desc_pred = |e: IndexEntry|
            spec_ancestor_chain(entries@, e.record_id, container_id, entries@.len() as nat);
        let mut desc: Vec<IndexEntry> = Vec::new();
        let mut i: usize = 0;
        proof {
            assert(entries@.take(0) =~= Seq::<IndexEntry>::empty());
            assert(Seq::<IndexEntry>::empty().filter(desc_pred) =~= Seq::<IndexEntry>::empty())
                by {
                reveal(Seq::filter);
            }
        }
        while i < entries.len()
            invariant
                i <= entries@.len(),
                entries == &self.index.entries,
                self.wf(),
                desc_pred == (|e: IndexEntry|
                    spec_ancestor_chain(
                        entries@,
                        e.record_id,
                        container_id,
                        entries@.len() as nat,
                    )),
                desc@ == entries@.take(i as int).filter(desc_pred),
                forall|k: int|
                    0 <= k < desc@.len() ==> (#[trigger] desc@[k]).ptr.row < self.rows@.len(),
            decreases entries@.len() - i,
        {
            proof {
                Seq::lemma_take_succ_push(entries@, i as int);
                Seq::lemma_filter_push(entries@.take(i as int), entries@[i as int], desc_pred);
            }
            if self.index.is_descendant_of(entries[i].record_id, container_id) {
                desc.push(entries[i]);
            }
            proof {
                assert(desc@ =~= entries@.take(i as int + 1).filter(desc_pred));
            }
            i = i + 1;
        }
        proof {
            assert(entries@.take(entries@.len() as int) =~= entries@);
        }
        let ghost extra_pred = |e: IndexEntry|
            e.deleted_from == Some(container_id) && !spec_descendants(
                entries@,
                container_id,
            ).contains(e);
        let mut extra: Vec<IndexEntry> = Vec::new();
        let mut i: usize = 0;
        proof {
            assert(entries@.take(0) =~= Seq::<IndexEntry>::empty());
            assert(Seq::<IndexEntry>::empty().filter(extra_pred) =~= Seq::<IndexEntry>::empty())
                by {
                reveal(Seq::filter);
            }
        }
        while i < entries.len()
            invariant
                i <= entries@.len(),
                entries == &self.index.entries,
                desc@ == spec_descendants(entries@, container_id),
                self.wf(),
                extra_pred == (|e: IndexEntry|
                    e.deleted_from == Some(container_id) && !spec_descendants(
                        entries@,
                        container_id,
                    ).contains(e)),
                extra@ == entries@.take(i as int).filter(extra_pred),
                forall|k: int|
                    0 <= k < extra@.len() ==> (#[trigger] extra@[k]).ptr.row < self.rows@.len(),
            decreases entries@.len() - i,
        {
            proof {
                Seq::lemma_take_succ_push(entries@, i as int);
                Seq::lemma_filter_push(entries@.take(i as int), entries@[i as int], extra_pred);
            }
            let back_referenced = match entries[i].deleted_from {
                Some(d) => d == container_id,
                None => false,
            };
            if back_referenced && !contains_entry(&desc, &entries[i]) {
                extra.push(entries[i]);
            }
            proof {
                assert(extra@ =~= entries@.take(i as int + 1).filter(extra_pred));
            }
            i = i + 1;
        }
        proof {
            assert(entries@.take(entries@.len() as int) =~= entries@);
        }
        let mut scope = desc;
        scope.append(&mut extra);
        scope
    }
}

/// Whether an entry sits in a list.
fn contains_entry(v: &Vec<IndexEntry>, e: &IndexEntry) -> (r: bool)
    ensures
        r == v@.contains(*e),
{
    let mut i: usize = 0;
    while i < v.len()
        invariant
            i <= v@.len(),
            forall|k: int| 0 <= k < i ==> v@[k] != *e,
        decreases v@.len() - i,
    {
        if v[i] == *e {
            return true;
        }
        i = i + 1;
    }
    false
}

} // verus!
