//! Schema and attribute-id resolution. The physical column layout is not
//! fixed: it is discovered per file by exact name match against the reserved
//! column names and the schema-dependent attribute names the engine
//! understands. The schema anchor is the first record whose secondary name
//! equals the literal "Schema"; type definitions are its children.

use vstd::prelude::*;
use vstd::string::StringExecFns;

use crate::cell::{spec_i32_of, spec_text_of, RawRow};
use crate::error::Error;

verus! {

/// One column of the raw table listing: name and numeric id.
#[derive(Debug)]
pub struct RawColumn {
    pub name: String,
    pub id: i32,
}

/// The first column with the given name, if any.
pub open spec fn spec_find_column(cols: Seq<RawColumn>, name: Seq<char>) -> Option<i32>
    decreases cols.len(),
{
    if cols.len() == 0 {
        None
    } else if cols[0].name@ == name {
        Some(cols[0].id)
    } else {
        spec_find_column(cols.drop_first(), name)
    }
}

/// The resolved column ids of every attribute the engine reads. The first
/// seven are reserved columns that every artifact must carry; the rest are
/// schema-dependent and may be absent.
#[derive(Clone, Copy, PartialEq, Eq, Structural, Debug)]
pub struct AttributeMap {
    pub record_id: i32,
    pub parent_id: i32,
    pub record_time: i32,
    pub ancestors: i32,
    pub object_category: i32,
    pub common_name: i32,
    pub rdn: i32,
    pub sid: Option<i32>,
    pub sam_account_name: Option<i32>,
    pub sam_account_type: Option<i32>,
    pub user_principal_name: Option<i32>,
    pub user_account_control: Option<i32>,
    pub last_logon: Option<i32>,
    pub last_logon_time_stamp: Option<i32>,
    pub account_expires: Option<i32>,
    pub password_last_set: Option<i32>,
    pub bad_pwd_time: Option<i32>,
    pub logon_count: Option<i32>,
    pub bad_pwd_count: Option<i32>,
    pub primary_group_id: Option<i32>,
    pub nt_hash: Option<i32>,
    pub lm_hash: Option<i32>,
    pub nt_pwd_history: Option<i32>,
    pub lm_pwd_history: Option<i32>,
    pub deleted_from: Option<i32>,
}

/// What resolving a column listing yields: `None` when a required reserved
/// column is absent.
pub open spec fn spec_resolve(cols: Seq<RawColumn>) -> Option<AttributeMap> {
    if spec_find_column(cols, "DNT_col"@) is Some && spec_find_column(cols, "PDNT_col"@) is Some
        && spec_find_column(cols, "time_col"@) is Some && spec_find_column(cols, "Ancestors_col"@)
        is Some && spec_find_column(cols, "ATTb590606"@) is Some && spec_find_column(
        cols,
        "ATTm3"@,
    ) is Some && spec_find_column(cols, "ATTm589825"@) is Some {
        Some(
            AttributeMap {
                record_id: spec_find_column(cols, "DNT_col"@)->Some_0,
                parent_id: spec_find_column(cols, "PDNT_col"@)->Some_0,
                record_time: spec_find_column(cols, "time_col"@)->Some_0,
                ancestors: spec_find_column(cols, "Ancestors_col"@)->Some_0,
                object_category: spec_find_column(cols, "ATTb590606"@)->Some_0,
                common_name: spec_find_column(cols, "ATTm3"@)->Some_0,
                rdn: spec_find_column(cols, "ATTm589825"@)->Some_0,
                sid: spec_find_column(cols, "ATTr589970"@),
                sam_account_name: spec_find_column(cols, "ATTm590045"@),
                sam_account_type: spec_find_column(cols, "ATTj590126"@),
                user_principal_name: spec_find_column(cols, "ATTm590480"@),
                user_account_control: spec_find_column(cols, "ATTj589832"@),
                last_logon: spec_find_column(cols, "ATTq589876"@),
                last_logon_time_stamp: spec_find_column(cols, "ATTq591520"@),
                account_expires: spec_find_column(cols, "ATTq589983"@),
                password_last_set: spec_find_column(cols, "ATTq589920"@),
                bad_pwd_time: spec_find_column(cols, "ATTq589873"@),
                logon_count: spec_find_column(cols, "ATTj589993"@),
                bad_pwd_count: spec_find_column(cols, "ATTj589836"@),
                primary_group_id: spec_find_column(cols, "ATTj589922"@),
                nt_hash: spec_find_column(cols, "ATTk589914"@),
                lm_hash: spec_find_column(cols, "ATTk589879"@),
                nt_pwd_history: spec_find_column(cols, "ATTk589918"@),
                lm_pwd_history: spec_find_column(cols, "ATTk589984"@),
                deleted_from: spec_find_column(cols, "ATTb590605"@),
            },
        )
    } else {
        None
    }
}

/// Find the first column with the given name.
pub fn find_column(cols: &Vec<RawColumn>, name: &str) -> (r: Option<i32>)
    ensures
        r == spec_find_column(cols@, name@),
{
    let target = String::from_str(name);
    let mut i: usize = 0;
    proof {
        assert(cols@.skip(0) =~= cols@);
    }
    while i < cols.len()
        invariant
            i <= cols@.len(),
            target@ == name@,
            spec_find_column(cols@, name@) == spec_find_column(cols@.skip(i as int), name@),
        decreases cols@.len() - i,
    {
        proof {
            assert(cols@.skip(i as int)[0] == cols@[i as int]);
            assert(cols@.skip(i as int).drop_first() =~= cols@.skip(i as int + 1));
        }
        if cols[i].name == target {
            return Some(cols[i].id);
        }
        i = i + 1;
    }
    proof {
        assert(cols@.skip(i as int).len() == 0);
    }
    None
}

impl AttributeMap {
    /// Resolve every attribute id against a column listing. Fails with
    /// `MissingColumn` when a required reserved column is absent.
    pub fn resolve(cols: &Vec<RawColumn>) -> (r: Result<AttributeMap, Error>)
        ensures
            (spec_resolve(cols@) matches Some(m) ==> r == Ok::<AttributeMap, Error>(m)),
            (spec_resolve(cols@) is None ==> (r matches Err(e) && e is MissingColumn)),
    {
        let record_id = match find_column(cols, "DNT_col") {
            Some(id) => id,
            None => {
                return Err(Error::MissingColumn { name: String::from_str("DNT_col") });
            },
        };
        let parent_id = match find_column(cols, "PDNT_col") {
            Some(id) => id,
            None => {
                return Err(Error::MissingColumn { name: String::from_str("PDNT_col") });
            },
        };
        let record_time = match find_column(cols, "time_col") {
            Some(id) => id,
            None => {
                return Err(Error::MissingColumn { name: String::from_str("time_col") });
            },
        };
        let ancestors = match find_column(cols, "Ancestors_col") {
            Some(id) => id,
            None => {
                return Err(Error::MissingColumn { name: String::from_str("Ancestors_col") });
            },
        };
        let object_category = match find_column(cols, "ATTb590606") {
            Some(id) => id,
            None => {
                return Err(Error::MissingColumn { name: String::from_str("ATTb590606") });
            },
        };
        let common_name = match find_column(cols, "ATTm3") {
            Some(id) => id,
            None => {
                return Err(Error::MissingColumn { name: String::from_str("ATTm3") });
            },
        };
        let rdn = match find_column(cols, "ATTm589825") {
            Some(id) => id,
            None => {
                return Err(Error::MissingColumn { name: String::from_str("ATTm589825") });
            },
        };
        Ok(
            AttributeMap {
                record_id,
                parent_id,
                record_time,
                ancestors,
                object_category,
                common_name,
                rdn,
                sid: find_column(cols, "ATTr589970"),
                sam_account_name: find_column(cols, "ATTm590045"),
                sam_account_type: find_column(cols, "ATTj590126"),
                user_principal_name: find_column(cols, "ATTm590480"),
                user_account_control: find_column(cols, "ATTj589832"),
                last_logon: find_column(cols, "ATTq589876"),
                last_logon_time_stamp: find_column(cols, "ATTq591520"),
                account_expires: find_column(cols, "ATTq589983"),
                password_last_set: find_column(cols, "ATTq589920"),
                bad_pwd_time: find_column(cols, "ATTq589873"),
                logon_count: find_column(cols, "ATTj589993"),
                bad_pwd_count: find_column(cols, "ATTj589836"),
                primary_group_id: find_column(cols, "ATTj589922"),
                nt_hash: find_column(cols, "ATTk589914"),
                lm_hash: find_column(cols, "ATTk589879"),
                nt_pwd_history: find_column(cols, "ATTk589918"),
                lm_pwd_history: find_column(cols, "ATTk589984"),
                deleted_from: find_column(cols, "ATTb590605"),
            },
        )
    }
}

/// Whether a row is the schema anchor: its secondary name decodes to the
/// literal "Schema". A row whose name cell is not text does not match.
pub open spec fn is_anchor_row(row: RawRow, rdn_col: int) -> bool {
    spec_text_of(row.spec_cell(rdn_col)) == Ok::<Option<Seq<char>>, ()>(Some("Schema"@))
}

/// The index of the first schema anchor row; the first match wins as the
/// documented tie-break.
pub open spec fn spec_anchor_index(rows: Seq<RawRow>, rdn_col: int) -> Option<int>
    decreases rows.len(),
{
    if rows.len() == 0 {
        None
    } else if is_anchor_row(rows[0], rdn_col) {
        Some(0)
    } else {
        match spec_anchor_index(rows.drop_first(), rdn_col) {
            Some(i) => Some(i + 1),
            None => None,
        }
    }
}

/// A located anchor index is a valid row index of an anchor row.
pub proof fn lemma_anchor_index_in_range(rows: Seq<RawRow>, rdn_col: int)
    ensures
        spec_anchor_index(rows, rdn_col) matches Some(i) ==> 0 <= i < rows.len()
            && is_anchor_row(rows[i], rdn_col),
    decreases rows.len(),
{
    if rows.len() > 0 && !is_anchor_row(rows[0], rdn_col) {
        lemma_anchor_index_in_range(rows.drop_first(), rdn_col);
    }
}

/// Locate the schema anchor record and its record id.
pub fn find_schema_anchor(rows: &Vec<RawRow>, map: &AttributeMap) -> (r: Result<
    (usize, i32),
    Error,
>)
    ensures
        (spec_anchor_index(rows@, map.rdn as int) matches Some(i) ==> {
            let id = spec_i32_of(rows@[i].spec_cell(map.record_id as int));
            &&& (id matches Ok(Some(v)) ==> r == Ok::<(usize, i32), Error>((i as usize, v)))
            &&& (id == Ok::<Option<i32>, ()>(None::<i32>) ==> (r matches Err(e)
                && e is ValueIsMissing))
            &&& (id is Err ==> r is Err)
        }),
        (spec_anchor_index(rows@, map.rdn as int) is None ==> (r matches Err(e)
            && e is MissingSchemaRecord)),
{
    let schema_name = String::from_str("Schema");
    proof {
        assert(rows@.skip(0) =~= rows@);
    }
    let mut i: usize = 0;
    while i < rows.len()
        invariant
            i <= rows@.len(),
            schema_name@ == "Schema"@,
            spec_anchor_index(rows@, map.rdn as int) == (match spec_anchor_index(
                rows@.skip(i as int),
                map.rdn as int,
            ) {
                Some(k) => Some(k + i),
                None => None::<int>,
            }),
        decreases rows@.len() - i,
    {
        proof {
            assert(rows@.skip(i as int)[0] == rows@[i as int]);
            assert(rows@.skip(i as int).drop_first() =~= rows@.skip(i as int + 1));
        }
        let is_anchor = match rows[i].text_at(map.rdn) {
            Ok(Some(name)) => name == schema_name,
            _ => false,
        };
        if is_anchor {
            return match rows[i].i32_at(map.record_id) {
                Ok(Some(id)) => Ok((i, id)),
                Ok(None) => Err(Error::ValueIsMissing),
                Err(e) => Err(e),
            };
        }
        i = i + 1;
    }
    proof {
        assert(rows@.skip(i as int).len() == 0);
    }
    Err(Error::MissingSchemaRecord)
}


/// Whether a row carries the given secondary name.
pub open spec fn is_named_row(row: RawRow, rdn_col: int, name: Seq<char>) -> bool {
    spec_text_of(row.spec_cell(rdn_col)) == Ok::<Option<Seq<char>>, ()>(Some(name))
}

/// The index of the first row with the given secondary name.
pub open spec fn spec_named_index(rows: Seq<RawRow>, rdn_col: int, name: Seq<char>) -> Option<int>
    decreases rows.len(),
{
    if rows.len() == 0 {
        None
    } else if is_named_row(rows[0], rdn_col, name) {
        Some(0)
    } else {
        match spec_named_index(rows.drop_first(), rdn_col, name) {
            Some(i) => Some(i + 1),
            None => None,
        }
    }
}

/// Locate the first record with the given secondary name, together with its
/// record id. `None` when no such record exists or its record id does not
/// decode.
pub fn find_named_record(rows: &Vec<RawRow>, map: &AttributeMap, name: &str) -> (r: Option<
    (usize, i32),
>)
    ensures
        (spec_named_index(rows@, map.rdn as int, name@) matches Some(i) ==> {
            let id = spec_i32_of(rows@[i].spec_cell(map.record_id as int));
            &&& (id matches Ok(Some(v)) ==> r == Some((i as usize, v)))
            &&& (!(id matches Ok(Some(v))) ==> r is None)
        }),
        (spec_named_index(rows@, map.rdn as int, name@) is None ==> r is None),
{
    let target = String::from_str(name);
    proof {
        assert(rows@.skip(0) =~= rows@);
    }
    let mut i: usize = 0;
    while i < rows.len()
        invariant
            i <= rows@.len(),
            target@ == name@,
            spec_named_index(rows@, map.rdn as int, name@) == (match spec_named_index(
                rows@.skip(i as int),
                map.rdn as int,
                name@,
            ) {
                Some(k) => Some(k + i),
                None => None::<int>,
            }),
        decreases rows@.len() - i,
    {
        proof {
            assert(rows@.skip(i as int)[0] == rows@[i as int]);
            assert(rows@.skip(i as int).drop_first() =~= rows@.skip(i as int + 1));
        }
        let found = match rows[i].text_at(map.rdn) {
            Ok(Some(n)) => n == target,
            _ => false,
        };
        if found {
            return match rows[i].i32_at(map.record_id) {
                Ok(Some(id)) => Some((i, id)),
                _ => None,
            };
        }
        i = i + 1;
    }
    proof {
        assert(rows@.skip(i as int).len() == 0);
    }
    None
}

/// A schema-declared object class: discovered as a child of the anchor.
#[derive(Debug)]
pub struct TypeDefinition {
    /// The class name (the child record's secondary name).
    pub name: String,
    /// The child record's own record id; used elsewhere as the object-type id.
    pub record_id: i32,
    /// The row the definition was found in.
    pub row: usize,
}

/// Whether a row is a usable type definition under the anchor: its parent is
/// the anchor's record id and its name and record id decode.
pub open spec fn is_type_def_row(row: RawRow, map: AttributeMap, anchor_id: i32) -> bool {
    &&& spec_i32_of(row.spec_cell(map.parent_id as int)) == Ok::<Option<i32>, ()>(
        Some(anchor_id),
    )
    &&& (spec_text_of(row.spec_cell(map.rdn as int)) matches Ok(o) && o is Some)
    &&& (spec_i32_of(row.spec_cell(map.record_id as int)) matches Ok(o) && o is Some)
}

/// The row indices of every type definition, in table order.
pub open spec fn spec_type_def_indices(rows: Seq<RawRow>, map: AttributeMap, anchor_id: i32) -> Seq<
    int,
> {
    Seq::new(rows.len(), |i: int| i).filter(|i: int| is_type_def_row(rows[i], map, anchor_id))
}

/// Whether an executable definition list mirrors the specified one.
pub open spec fn type_defs_match(
    defs: Seq<TypeDefinition>,
    rows: Seq<RawRow>,
    map: AttributeMap,
    anchor_id: i32,
) -> bool {
    let idxs = spec_type_def_indices(rows, map, anchor_id);
    &&& defs.len() == idxs.len()
    &&& forall|k: int|
        0 <= k < defs.len() ==> (#[trigger] defs[k]).row == idxs[k] && defs[k].name@
            == spec_text_of(rows[idxs[k]].spec_cell(map.rdn as int))->Ok_0->Some_0
            && defs[k].record_id == spec_i32_of(
            rows[idxs[k]].spec_cell(map.record_id as int),
        )->Ok_0->Some_0
}

/// Enumerate the type definitions: the children of the anchor, in table
/// order, with their names and record ids. Unknown names are tolerated here;
/// they serve exhaustive listings.
pub fn enumerate_type_defs(rows: &Vec<RawRow>, map: &AttributeMap, anchor_id: i32) -> (r: Vec<
    TypeDefinition,
>)
    ensures
        type_defs_match(r@, rows@, *map, anchor_id),
{
    let ghost idxs = spec_type_def_indices(rows@, *map, anchor_id);
    let ghost all = Seq::new(rows@.len(), |i: int| i);
    let ghost pred = |i: int| is_type_def_row(rows@[i], *map, anchor_id);
    let mut defs: Vec<TypeDefinition> = Vec::new();
    let mut i: usize = 0;
    proof {
        assert(all.take(0) =~= Seq::<int>::empty());
        assert(Seq::<int>::empty().filter(pred) =~= Seq::<int>::empty()) by {
            reveal(Seq::filter);
        }
    }
    while i < rows.len()
        invariant
            i <= rows@.len(),
            all == Seq::new(rows@.len(), |i: int| i),
            pred == (|i: int| is_type_def_row(rows@[i], *map, anchor_id)),
            defs@.len() == all.take(i as int).filter(pred).len(),
            forall|k: int|
                0 <= k < defs@.len() ==> (#[trigger] defs@[k]).row == all.take(i as int).filter(
                    pred,
                )[k] && defs@[k].name@ == spec_text_of(
                    rows@[all.take(i as int).filter(pred)[k]].spec_cell(map.rdn as int),
                )->Ok_0->Some_0 && defs@[k].record_id == spec_i32_of(
                    rows@[all.take(i as int).filter(pred)[k]].spec_cell(map.record_id as int),
                )->Ok_0->Some_0,
        decreases rows@.len() - i,
    {
        let parent = match rows[i].i32_at(map.parent_id) {
            Ok(Some(p)) => Some(p),
            _ => None,
        };
        let matched: Option<(String, i32)> = if let Some(p) = parent {
            if p == anchor_id {
                match (rows[i].text_at(map.rdn), rows[i].i32_at(map.record_id)) {
                    (Ok(Some(name)), Ok(Some(id))) => Some((name, id)),
                    _ => None,
                }
            } else {
                None
            }
        } else {
            None
        };
        proof {
            Seq::lemma_take_succ_push(all, i as int);
            Seq::lemma_filter_push(all.take(i as int), i as int, pred);
        }
        match matched {
            Some((name, id)) => {
                assert(pred(i as int));
                defs.push(TypeDefinition { name, record_id: id, row: i });
            },
            None => {
                assert(!pred(i as int));
            },
        }
        i = i + 1;
    }
    proof {
        assert(all.take(rows@.len() as int) =~= all);
    }
    defs
}

/// The record id of the first definition with the given name.
pub open spec fn spec_first_named(defs: Seq<TypeDefinition>, name: Seq<char>) -> Option<i32>
    decreases defs.len(),
{
    if defs.len() == 0 {
        None
    } else if defs[0].name@ == name {
        Some(defs[0].record_id)
    } else {
        spec_first_named(defs.drop_first(), name)
    }
}

/// Find the first type definition with the given name.
pub fn find_type_id(defs: &Vec<TypeDefinition>, name: &str) -> (r: Option<i32>)
    ensures
        r == spec_first_named(defs@, name@),
{
    let target = String::from_str(name);
    let mut i: usize = 0;
    proof {
        assert(defs@.skip(0) =~= defs@);
    }
    while i < defs.len()
        invariant
            i <= defs@.len(),
            target@ == name@,
            spec_first_named(defs@, name@) == spec_first_named(defs@.skip(i as int), name@),
        decreases defs@.len() - i,
    {
        proof {
            assert(defs@.skip(i as int)[0] == defs@[i as int]);
            assert(defs@.skip(i as int).drop_first() =~= defs@.skip(i as int + 1));
        }
        if defs[i].name == target {
            return Some(defs[i].record_id);
        }
        i = i + 1;
    }
    proof {
        assert(defs@.skip(i as int).len() == 0);
    }
    None
}


/// The record id of the first definition row, among the given row indices,
/// whose name is `name`.
pub open spec fn spec_type_by_name_list(
    rows: Seq<RawRow>,
    map: AttributeMap,
    idxs: Seq<int>,
    name: Seq<char>,
) -> Option<i32>
    decreases idxs.len(),
{
    if idxs.len() == 0 {
        None
    } else if spec_text_of(rows[idxs[0]].spec_cell(map.rdn as int))->Ok_0->Some_0 == name {
        Some(spec_i32_of(rows[idxs[0]].spec_cell(map.record_id as int))->Ok_0->Some_0)
    } else {
        spec_type_by_name_list(rows, map, idxs.drop_first(), name)
    }
}

/// A definition list that mirrors its row indices resolves names the same
/// way the rows do.
pub proof fn lemma_first_named_indices(
    rows: Seq<RawRow>,
    map: AttributeMap,
    defs: Seq<TypeDefinition>,
    idxs: Seq<int>,
    name: Seq<char>,
)
    requires
        defs.len() == idxs.len(),
        forall|k: int|
            0 <= k < defs.len() ==> (#[trigger] defs[k]).name@ == spec_text_of(
                rows[idxs[k]].spec_cell(map.rdn as int),
            )->Ok_0->Some_0 && defs[k].record_id == spec_i32_of(
                rows[idxs[k]].spec_cell(map.record_id as int),
            )->Ok_0->Some_0,
    ensures
        spec_first_named(defs, name) == spec_type_by_name_list(rows, map, idxs, name),
    decreases defs.len(),
{
    if defs.len() > 0 {
        assert(defs[0].name@ == spec_text_of(rows[idxs[0]].spec_cell(map.rdn as int))->Ok_0->Some_0);
        if defs[0].name@ != name {
            assert(forall|k: int|
                0 <= k < defs.drop_first().len() ==> (#[trigger] defs.drop_first()[k])
                    == defs[k + 1] && idxs.drop_first()[k] == idxs[k + 1]);
            lemma_first_named_indices(rows, map, defs.drop_first(), idxs.drop_first(), name);
        }
    }
}

/// Exactly when schema resolution succeeds: the anchor exists with a
/// decodable record id, it has children, and every supported well-known type
/// resolves among them.
pub open spec fn spec_schema_ok(rows: Seq<RawRow>, map: AttributeMap) -> bool {
    let a = spec_anchor_index(rows, map.rdn as int);
    &&& a is Some
    &&& (spec_i32_of(rows[a->Some_0].spec_cell(map.record_id as int)) matches Ok(o) && o is Some)
    &&& {
        let anchor_id = spec_i32_of(rows[a->Some_0].spec_cell(map.record_id as int))->Ok_0->Some_0;
        let idxs = spec_type_def_indices(rows, map, anchor_id);
        &&& idxs.len() > 0
        &&& spec_type_by_name_list(rows, map, idxs, "Person"@) is Some
        &&& spec_type_by_name_list(rows, map, idxs, "Group"@) is Some
        &&& spec_type_by_name_list(rows, map, idxs, "Computer"@) is Some
    }
}

/// The resolved schema: the anchor, every discovered type definition, and the
/// record ids of the supported well-known types.
#[derive(Debug)]
pub struct Schema {
    pub anchor_row: usize,
    pub anchor_id: i32,
    pub types: Vec<TypeDefinition>,
    pub person_type_id: i32,
    pub group_type_id: i32,
    pub computer_type_id: i32,
}

impl Schema {
    /// Resolve the schema against the data rows: locate the anchor, enumerate
    /// the type definitions, and resolve each supported well-known type, which
    /// must all exist.
    pub fn resolve(rows: &Vec<RawRow>, map: &AttributeMap) -> (r: Result<Schema, Error>)
        ensures
            (r matches Ok(s) ==> {
                &&& spec_anchor_index(rows@, map.rdn as int) == Some(s.anchor_row as int)
                &&& spec_i32_of(rows@[s.anchor_row as int].spec_cell(map.record_id as int))
                    == Ok::<Option<i32>, ()>(Some(s.anchor_id))
                &&& type_defs_match(s.types@, rows@, *map, s.anchor_id)
                &&& s.types@.len() > 0
                &&& spec_first_named(s.types@, "Person"@) == Some(s.person_type_id)
                &&& spec_first_named(s.types@, "Group"@) == Some(s.group_type_id)
                &&& spec_first_named(s.types@, "Computer"@) == Some(s.computer_type_id)
            }),
            (spec_anchor_index(rows@, map.rdn as int) is None ==> (r matches Err(e)
                && e is MissingSchemaRecord)),
            r is Ok <==> spec_schema_ok(rows@, *map),
    {
        let n = rows.len();
        proof {
            lemma_anchor_index_in_range(rows@, map.rdn as int);
            assert(rows@.len() == n as int);
        }
        let (anchor_row, anchor_id) = find_schema_anchor(rows, map)?;
        let types = enumerate_type_defs(rows, map, anchor_id);
        proof {
            let idxs = spec_type_def_indices(rows@, *map, anchor_id);
            lemma_first_named_indices(rows@, *map, types@, idxs, "Person"@);
            lemma_first_named_indices(rows@, *map, types@, idxs, "Group"@);
            lemma_first_named_indices(rows@, *map, types@, idxs, "Computer"@);
        }
        if types.len() == 0 {
            return Err(Error::SchemaRecordHasNoChildren);
        }
        let person_type_id = match find_type_id(&types, "Person") {
            Some(id) => id,
            None => {
                return Err(Error::MissingTypeDefinition { name: String::from_str("Person") });
            },
        };
        let group_type_id = match find_type_id(&types, "Group") {
            Some(id) => id,
            None => {
                return Err(Error::MissingTypeDefinition { name: String::from_str("Group") });
            },
        };
        let computer_type_id = match find_type_id(&types, "Computer") {
            Some(id) => id,
            None => {
                return Err(Error::MissingTypeDefinition { name: String::from_str("Computer") });
            },
        };
        Ok(
            Schema {
                anchor_row,
                anchor_id,
                types,
                person_type_id,
                group_type_id,
                computer_type_id,
            },
        )
    }
}

/// Schema resolution is deterministic and idempotent: the attribute map, the
/// anchor, and the type-definition set are each a function of the column
/// listing and the rows alone, so two resolutions of the same file agree.
pub proof fn lemma_schema_resolution_deterministic(
    cols: Seq<RawColumn>,
    rows: Seq<RawRow>,
    m1: AttributeMap,
    m2: AttributeMap,
    a1: int,
    a2: int,
)
    requires
        spec_resolve(cols) == Some(m1),
        spec_resolve(cols) == Some(m2),
        spec_anchor_index(rows, m1.rdn as int) == Some(a1),
        spec_anchor_index(rows, m2.rdn as int) == Some(a2),
    ensures
        m1 == m2,
        a1 == a2,
        spec_type_def_indices(rows, m1, 0) == spec_type_def_indices(rows, m2, 0),
{
}

} // verus!
