//! Typed directory objects: the closed set of supported object classes and
//! the per-record decoder that turns a raw row into the class's field set.
//! Decode failure of one record never aborts a bulk operation; the caller
//! counts the record as skipped and continues.

use vstd::prelude::*;
use vstd::string::StringExecFns;

use crate::cell::{spec_bytes_of, spec_i32_of, spec_text_of, spec_ticks_of, RawRow};
use crate::error::Error;
use crate::fmt::hex_of;
use crate::links::{spec_sources_of, LinkTable, MEMBER_LINK_BASE};
use crate::schema::AttributeMap;
use crate::sid::{sid_string, spec_sid_subs, spec_sid_valid, Sid};
use crate::timestamp::spec_rfc3339_of_seconds;
use crate::RecordPointer;

verus! {

/// The closed set of supported object classes. Unknown classes fall back to
/// generic handling rather than failing.
#[derive(Clone, Copy, PartialEq, Eq, Structural, Debug)]
pub enum ObjectType {
    Person,
    Group,
    Computer,
}

/// Whether a text attribute decodes (or is absent) at an optional column.
pub open spec fn text_ok(row: RawRow, col: Option<i32>) -> bool {
    match col {
        Some(c) => spec_text_of(row.spec_cell(c as int)) is Ok,
        None => true,
    }
}

/// The text value at an optional column.
pub open spec fn text_val(row: RawRow, col: Option<i32>) -> Option<Seq<char>> {
    match col {
        Some(c) => spec_text_of(row.spec_cell(c as int))->Ok_0,
        None => None,
    }
}

/// Whether an integer attribute decodes (or is absent) at an optional column.
pub open spec fn i32_ok(row: RawRow, col: Option<i32>) -> bool {
    match col {
        Some(c) => spec_i32_of(row.spec_cell(c as int)) is Ok,
        None => true,
    }
}

/// The integer value at an optional column.
pub open spec fn i32_val(row: RawRow, col: Option<i32>) -> Option<i32> {
    match col {
        Some(c) => spec_i32_of(row.spec_cell(c as int))->Ok_0,
        None => None,
    }
}

/// Whether a tick-count attribute decodes to a non-negative count (or is
/// absent) at an optional column.
pub open spec fn ticks_ok(row: RawRow, col: Option<i32>) -> bool {
    match col {
        Some(c) => match spec_ticks_of(row.spec_cell(c as int)) {
            Ok(Some(t)) => t >= 0,
            Ok(None) => true,
            Err(_) => false,
        },
        None => true,
    }
}

/// The tick count at an optional column.
pub open spec fn ticks_val(row: RawRow, col: Option<i32>) -> Option<i64> {
    match col {
        Some(c) => spec_ticks_of(row.spec_cell(c as int))->Ok_0,
        None => None,
    }
}

/// Whether a binary attribute decodes (or is absent) at an optional column.
pub open spec fn bytes_ok(row: RawRow, col: Option<i32>) -> bool {
    match col {
        Some(c) => spec_bytes_of(row.spec_cell(c as int)) is Ok,
        None => true,
    }
}

/// The bytes at an optional column.
pub open spec fn bytes_val(row: RawRow, col: Option<i32>) -> Option<Seq<u8>> {
    match col {
        Some(c) => spec_bytes_of(row.spec_cell(c as int))->Ok_0,
        None => None,
    }
}

/// Whether the security-identifier attribute decodes (or is absent).
pub open spec fn sid_cell_ok(row: RawRow, col: Option<i32>) -> bool {
    &&& bytes_ok(row, col)
    &&& (bytes_val(row, col) matches Some(b) ==> spec_sid_valid(b))
}

/// The rendered security identifier of a well-formed identifier blob.
pub open spec fn sid_render_of(b: Seq<u8>) -> Seq<char> {
    sid_string(b[0], crate::bytes::u48_be(b, 2) as u64, spec_sid_subs(b))
}

/// Whether an optional decoded string matches an optional specified text.
pub open spec fn opt_str_matches(o: Option<String>, v: Option<Seq<char>>) -> bool {
    match v {
        Some(t) => o matches Some(s) && s@ == t,
        None => o is None,
    }
}

/// Whether every attribute of the class's field set decodes on this row; a
/// record whose row fails this is reported and skipped by bulk operations.
pub open spec fn spec_object_ok(row: RawRow, map: AttributeMap) -> bool {
    &&& spec_i32_of(row.spec_cell(map.record_id as int)) matches Ok(o) && o is Some
    &&& spec_i32_of(row.spec_cell(map.parent_id as int)) matches Ok(p) && p is Some
    &&& spec_text_of(row.spec_cell(map.rdn as int)) is Ok
    &&& spec_text_of(row.spec_cell(map.common_name as int)) is Ok
    &&& ticks_ok(row, Some(map.record_time))
    &&& text_ok(row, map.sam_account_name)
    &&& text_ok(row, map.user_principal_name)
    &&& i32_ok(row, map.sam_account_type)
    &&& i32_ok(row, map.user_account_control)
    &&& i32_ok(row, map.logon_count)
    &&& i32_ok(row, map.bad_pwd_count)
    &&& i32_ok(row, map.primary_group_id)
    &&& sid_cell_ok(row, map.sid)
    &&& ticks_ok(row, map.last_logon)
    &&& ticks_ok(row, map.last_logon_time_stamp)
    &&& ticks_ok(row, map.account_expires)
    &&& ticks_ok(row, map.password_last_set)
    &&& ticks_ok(row, map.bad_pwd_time)
    &&& bytes_ok(row, map.nt_hash)
    &&& bytes_ok(row, map.lm_hash)
    &&& bytes_ok(row, map.nt_pwd_history)
    &&& bytes_ok(row, map.lm_pwd_history)
}

/// One decoded directory object of a supported class.
#[derive(Debug)]
pub struct TypedObject {
    pub object_type: ObjectType,
    pub ptr: RecordPointer,
    pub record_id: i32,
    pub parent_id: i32,
    /// The relative name.
    pub name: Option<String>,
    /// The common name.
    pub common_name: Option<String>,
    pub sam_account_name: Option<String>,
    pub user_principal_name: Option<String>,
    /// The rendered security identifier.
    pub sid: Option<String>,
    pub sam_account_type: Option<i32>,
    pub user_account_control: Option<i32>,
    pub logon_count: Option<i32>,
    pub bad_pwd_count: Option<i32>,
    pub primary_group_id: Option<i32>,
    /// Timestamps, rendered as RFC 3339.
    pub record_time: Option<String>,
    pub last_logon: Option<String>,
    pub last_logon_time_stamp: Option<String>,
    pub account_expires: Option<String>,
    pub password_last_set: Option<String>,
    pub bad_pwd_time: Option<String>,
    /// Password hashes, rendered as lower-case hexadecimal.
    pub nt_hash: Option<String>,
    pub lm_hash: Option<String>,
    pub nt_pwd_history: Option<String>,
    pub lm_pwd_history: Option<String>,
    /// The record ids of the groups whose membership lists this record.
    pub member_of: Vec<i32>,
}

/// Whether an optional rendered timestamp matches an optional tick count, at
/// the given tick length in seconds.
pub open spec fn opt_time_matches(o: Option<String>, v: Option<i64>, ticks_per_second: int) -> bool {
    match v {
        Some(t) => o matches Some(s) && s@ == spec_rfc3339_of_seconds(t as int / ticks_per_second),
        None => o is None,
    }
}

/// Whether an optional rendered hash matches optional bytes.
pub open spec fn opt_hex_matches(o: Option<String>, v: Option<Seq<u8>>) -> bool {
    match v {
        Some(b) => o matches Some(s) && s@ == hex_of(b),
        None => o is None,
    }
}

/// Whether a decoded object matches its row, field by field.
pub open spec fn object_matches(
    row: RawRow,
    map: AttributeMap,
    links: Seq<crate::links::LinkEntry>,
    o: TypedObject,
) -> bool {
    &&& Some(o.record_id) == spec_i32_of(row.spec_cell(map.record_id as int))->Ok_0
    &&& Some(o.parent_id) == spec_i32_of(row.spec_cell(map.parent_id as int))->Ok_0
    &&& opt_str_matches(o.name, spec_text_of(row.spec_cell(map.rdn as int))->Ok_0)
    &&& opt_str_matches(o.common_name, spec_text_of(row.spec_cell(map.common_name as int))->Ok_0)
    &&& opt_str_matches(o.sam_account_name, text_val(row, map.sam_account_name))
    &&& opt_str_matches(o.user_principal_name, text_val(row, map.user_principal_name))
    &&& (match bytes_val(row, map.sid) {
        Some(b) => o.sid matches Some(s) && s@ == sid_render_of(b),
        None => o.sid is None,
    })
    &&& o.sam_account_type == i32_val(row, map.sam_account_type)
    &&& o.user_account_control == i32_val(row, map.user_account_control)
    &&& o.logon_count == i32_val(row, map.logon_count)
    &&& o.bad_pwd_count == i32_val(row, map.bad_pwd_count)
    &&& o.primary_group_id == i32_val(row, map.primary_group_id)
    &&& opt_time_matches(o.record_time, ticks_val(row, Some(map.record_time)), 100000)
    &&& opt_time_matches(o.last_logon, ticks_val(row, map.last_logon), 10000000)
    &&& opt_time_matches(
        o.last_logon_time_stamp,
        ticks_val(row, map.last_logon_time_stamp),
        10000000,
    )
    &&& opt_time_matches(o.account_expires, ticks_val(row, map.account_expires), 10000000)
    &&& opt_time_matches(o.password_last_set, ticks_val(row, map.password_last_set), 10000000)
    &&& opt_time_matches(o.bad_pwd_time, ticks_val(row, map.bad_pwd_time), 10000000)
    &&& opt_hex_matches(o.nt_hash, bytes_val(row, map.nt_hash))
    &&& opt_hex_matches(o.lm_hash, bytes_val(row, map.lm_hash))
    &&& opt_hex_matches(o.nt_pwd_history, bytes_val(row, map.nt_pwd_history))
    &&& opt_hex_matches(o.lm_pwd_history, bytes_val(row, map.lm_pwd_history))
    &&& o.member_of@ == spec_sources_of(links, MEMBER_LINK_BASE, o.record_id)
}

/// Decode one text attribute at an optional column.
fn opt_text(row: &RawRow, col: Option<i32>) -> (r: Result<Option<String>, Error>)
    ensures
        (text_ok(*row, col) ==> (r matches Ok(p) && opt_str_matches(p, text_val(*row, col)))),
        (!text_ok(*row, col) ==> r is Err),
{
    match col {
        Some(c) => row.text_at(c),
        None => Ok(None),
    }
}

/// Decode one integer attribute at an optional column.
fn opt_i32(row: &RawRow, col: Option<i32>) -> (r: Result<Option<i32>, Error>)
    ensures
        (i32_ok(*row, col) ==> r == Ok::<Option<i32>, Error>(i32_val(*row, col))),
        (!i32_ok(*row, col) ==> r is Err),
{
    match col {
        Some(c) => row.i32_at(c),
        None => Ok(None),
    }
}

/// Decode and render one timestamp attribute at an optional column.
fn opt_time(row: &RawRow, col: Option<i32>, ticks_per_second: i64) -> (r: Result<
    Option<String>,
    Error,
>)
    requires
        ticks_per_second == 100000 || ticks_per_second == 10000000,
    ensures
        (ticks_ok(*row, col) ==> (r matches Ok(p) && opt_time_matches(
            p,
            ticks_val(*row, col),
            ticks_per_second as int,
        ))),
        (!ticks_ok(*row, col) ==> r is Err),
{
    match col {
        Some(c) => match row.ticks_at(c)? {
            Some(t) => {
                if t >= 0 {
                    Ok(Some(crate::timestamp::rfc3339_of_seconds((t / ticks_per_second) as u64)))
                } else {
                    Err(Error::IntegerConversionError {
                        value: crate::fmt::i64_to_dec(t),
                        intended_type: timestamp_label(),
                    })
                }
            },
            None => Ok(None),
        },
        None => Ok(None),
    }
}

fn timestamp_label() -> String {
    String::from_str("timestamp tick count")
}

/// Decode and render one hash attribute at an optional column.
fn opt_hex(row: &RawRow, col: Option<i32>) -> (r: Result<Option<String>, Error>)
    ensures
        (bytes_ok(*row, col) ==> (r matches Ok(p) && opt_hex_matches(p, bytes_val(*row, col)))),
        (!bytes_ok(*row, col) ==> r is Err),
{
    match col {
        Some(c) => row.hex_at(c),
        None => Ok(None),
    }
}

/// Decode and render the security-identifier attribute.
fn opt_sid(row: &RawRow, col: Option<i32>) -> (r: Result<Option<String>, Error>)
    ensures
        (sid_cell_ok(*row, col) ==> (r matches Ok(p) && match bytes_val(*row, col) {
            Some(b) => p matches Some(s) && s@ == sid_render_of(b),
            None => p is None,
        })),
        (!sid_cell_ok(*row, col) ==> r is Err),
{
    match col {
        Some(c) => match row.bytes_at(c)? {
            Some(bytes) => {
                let sid = Sid::parse(bytes.as_slice())?;
                Ok(Some(sid.render()))
            },
            None => Ok(None),
        },
        None => Ok(None),
    }
}

/// Decode one record into its class's field set. Fails exactly when some
/// attribute of the field set does not decode on this row.
pub fn decode_object(
    row: &RawRow,
    ptr: RecordPointer,
    object_type: ObjectType,
    map: &AttributeMap,
    links: &LinkTable,
) -> (r: Result<TypedObject, Error>)
    ensures
        (spec_object_ok(*row, *map) ==> (r matches Ok(o) && object_matches(
            *row,
            *map,
            links.entries@,
            o,
        ) && o.ptr == ptr && o.object_type == object_type)),
        (!spec_object_ok(*row, *map) ==> r is Err),
{
    let record_id = match row.i32_at(map.record_id)? {
        Some(v) => v,
        None => {
            return Err(Error::ValueIsMissing);
        },
    };
    let parent_id = match row.i32_at(map.parent_id)? {
        Some(v) => v,
        None => {
            return Err(Error::ValueIsMissing);
        },
    };
    let name = row.text_at(map.rdn)?;
    let common_name = row.text_at(map.common_name)?;
    let record_time = opt_time(row, Some(map.record_time), 100000)?;
    let sam_account_name = opt_text(row, map.sam_account_name)?;
    let user_principal_name = opt_text(row, map.user_principal_name)?;
    let sam_account_type = opt_i32(row, map.sam_account_type)?;
    let user_account_control = opt_i32(row, map.user_account_control)?;
    let logon_count = opt_i32(row, map.logon_count)?;
    let bad_pwd_count = opt_i32(row, map.bad_pwd_count)?;
    let primary_group_id = opt_i32(row, map.primary_group_id)?;
    let sid = opt_sid(row, map.sid)?;
    let last_logon = opt_time(row, map.last_logon, 10000000)?;
    let last_logon_time_stamp = opt_time(row, map.last_logon_time_stamp, 10000000)?;
    let account_expires = opt_time(row, map.account_expires, 10000000)?;
    let password_last_set = opt_time(row, map.password_last_set, 10000000)?;
    let bad_pwd_time = opt_time(row, map.bad_pwd_time, 10000000)?;
    let nt_hash = opt_hex(row, map.nt_hash)?;
    let lm_hash = opt_hex(row, map.lm_hash)?;
    let nt_pwd_history = opt_hex(row, map.nt_pwd_history)?;
    let lm_pwd_history = opt_hex(row, map.lm_pwd_history)?;
    let member_of = links.sources_of(MEMBER_LINK_BASE, record_id);
    Ok(
        TypedObject {
            object_type,
            ptr,
            record_id,
            parent_id,
            name,
            common_name,
            sam_account_name,
            user_principal_name,
            sid,
            sam_account_type,
            user_account_control,
            logon_count,
            bad_pwd_count,
            primary_group_id,
            record_time,
            last_logon,
            last_logon_time_stamp,
            account_expires,
            password_last_set,
            bad_pwd_time,
            nt_hash,
            lm_hash,
            nt_pwd_history,
            lm_pwd_history,
            member_of,
        },
    )
}

} // verus!
