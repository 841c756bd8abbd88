//! Timeline export: one body-file line per (record, present timestamp) pair.
//! The line carries a pseudo-inode derived from the record pointer, the
//! record's display name with the semantic timestamp spelled out, and the
//! timestamp in the slot that fits its meaning: access for logons,
//! modification for password changes, change for password failures and
//! expiry, creation for the record time. Absent attributes emit nothing;
//! unpopulated slots carry the placeholder -1.

use vstd::prelude::*;
use vstd::string::StringExecFns;

use crate::cell::{spec_text_of, RawRow};
use crate::error::Error;
use crate::fmt::{dec_of, dec_of_int, push_char, u32_to_dec};
use crate::index::IndexEntry;
use crate::objects::{text_ok, text_val, ticks_ok, ticks_val};
use crate::schema::AttributeMap;
use crate::timestamp::UNIX_EPOCH_OFFSET_SECONDS;
use crate::RecordPointer;

verus! {

/// The rendered body-file line:
/// `md5|name|inode|mode|uid|gid|size|atime|mtime|ctime|crtime`, with "0" for
/// the checksum, an empty mode, and zero uid, gid and size.
pub open spec fn bodyfile_line_spec(
    name: Seq<char>,
    inode: Seq<char>,
    atime: int,
    mtime: int,
    ctime: int,
    crtime: int,
) -> Seq<char> {
    seq!['0', '|'] + name + seq!['|'] + inode + seq!['|', '|', '0', '|', '0', '|', '0', '|']
        + dec_of_int(atime) + seq!['|'] + dec_of_int(mtime) + seq!['|'] + dec_of_int(ctime)
        + seq!['|'] + dec_of_int(crtime)
}

/// Relies on bodyfile's `Bodyfile3Line` rendering: the line is the pipe-joined
/// `md5|name|inode|mode|uid|gid|size|atime|mtime|ctime|crtime`, with the
/// fields exactly as handed over.
#[verifier::external_body]
fn render_bodyfile_line(
    name: &str,
    inode: &str,
    atime: i64,
    mtime: i64,
    ctime: i64,
    crtime: i64,
) -> (r: String)
    ensures
        r@ == bodyfile_line_spec(
            name@,
            inode@,
            atime as int,
            mtime as int,
            ctime as int,
            crtime as int,
        ),
{
    let line = bodyfile::Bodyfile3Line::from_values(
        "0".to_owned(), name.to_owned(), inode.to_owned(), "".to_owned(),
        0, 0, 0, atime, mtime, ctime, crtime,
    );
    format!("{}", line)
}

/// The event name: the record's display name with the semantic timestamp
/// spelled out.
pub open spec fn event_name(base: Seq<char>, label: Seq<char>) -> Seq<char> {
    base + seq![' ', '('] + label + seq![')']
}

/// Render the event name.
fn event_name_x(base: &str, label: &str) -> (r: String)
    ensures
        r@ == event_name(base@, label@),
{
    let mut s = String::new();
    s.append(base);
    push_char(&mut s, ' ');
    push_char(&mut s, '(');
    s.append(label);
    push_char(&mut s, ')');
    proof {
        assert(s@ =~= event_name(base@, label@));
    }
    s
}

/// Seconds since 1970-01-01T00:00:00Z of a tick count.
pub open spec fn spec_unix(t: int, ticks_per_second: int) -> int {
    t / ticks_per_second - UNIX_EPOCH_OFFSET_SECONDS
}

/// The lines one optional timestamp contributes: none when absent, otherwise
/// one line with the timestamp in the slot `slot` (access, modification,
/// change, creation in that order) and -1 elsewhere.
pub open spec fn opt_line(
    base: Seq<char>,
    rownum: u32,
    label: Seq<char>,
    v: Option<i64>,
    ticks_per_second: int,
    slot: int,
) -> Seq<Seq<char>> {
    match v {
        Some(t) => {
            let u = spec_unix(t as int, ticks_per_second);
            seq![
                bodyfile_line_spec(
                    event_name(base, label),
                    dec_of(rownum as nat),
                    if slot == 0 {
                        u
                    } else {
                        -1
                    },
                    if slot == 1 {
                        u
                    } else {
                        -1
                    },
                    if slot == 2 {
                        u
                    } else {
                        -1
                    },
                    if slot == 3 {
                        u
                    } else {
                        -1
                    },
                ),
            ]
        },
        None => Seq::empty(),
    }
}

/// The display name used on timeline lines: the account name when present,
/// else the relative name, else empty.
pub open spec fn spec_display_name(row: RawRow, map: AttributeMap) -> Seq<char> {
    match text_val(row, map.sam_account_name) {
        Some(s) => s,
        None => match spec_text_of(row.spec_cell(map.rdn as int))->Ok_0 {
            Some(t) => t,
            None => Seq::empty(),
        },
    }
}

/// Whether the display name decodes: the account name, and the relative name
/// only where the account name is absent.
pub open spec fn display_name_ok(row: RawRow, map: AttributeMap) -> bool {
    &&& text_ok(row, map.sam_account_name)
    &&& (text_val(row, map.sam_account_name) is None ==> spec_text_of(
        row.spec_cell(map.rdn as int),
    ) is Ok)
}

/// Whether everything the timeline reads decodes on this row.
pub open spec fn spec_timeline_ok(row: RawRow, map: AttributeMap) -> bool {
    &&& display_name_ok(row, map)
    &&& ticks_ok(row, Some(map.record_time))
    &&& ticks_ok(row, map.last_logon)
    &&& ticks_ok(row, map.last_logon_time_stamp)
    &&& ticks_ok(row, map.password_last_set)
    &&& ticks_ok(row, map.bad_pwd_time)
    &&& ticks_ok(row, map.account_expires)
}

/// The lines one record contributes: one per present timestamp. A record of
/// a supported type carries its full timestamp set; any other record falls
/// back to the generic single-timestamp projection from its record time.
pub open spec fn spec_record_lines(
    row: RawRow,
    map: AttributeMap,
    ptr: RecordPointer,
    known: bool,
) -> Seq<Seq<char>> {
    let base = spec_display_name(row, map);
    let created = opt_line(
        base,
        ptr.row,
        "record created"@,
        ticks_val(row, Some(map.record_time)),
        100000,
        3,
    );
    if known {
        created + opt_line(base, ptr.row, "last logon"@, ticks_val(row, map.last_logon), 10000000, 0)
            + opt_line(
            base,
            ptr.row,
            "last logon timestamp"@,
            ticks_val(row, map.last_logon_time_stamp),
            10000000,
            0,
        ) + opt_line(
            base,
            ptr.row,
            "password last set"@,
            ticks_val(row, map.password_last_set),
            10000000,
            1,
        ) + opt_line(base, ptr.row, "bad password time"@, ticks_val(row, map.bad_pwd_time), 10000000, 2)
            + opt_line(
            base,
            ptr.row,
            "account expires"@,
            ticks_val(row, map.account_expires),
            10000000,
            2,
        )
    } else {
        created
    }
}

/// Decode the display name of one row.
fn display_name(row: &RawRow, map: &AttributeMap) -> (r: Result<String, Error>)
    ensures
        (display_name_ok(*row, *map) ==> (r matches Ok(s) && s@ == spec_display_name(
            *row,
            *map,
        ))),
        (!display_name_ok(*row, *map) ==> r is Err),
{
    let sam = match map.sam_account_name {
        Some(c) => row.text_at(c)?,
        None => None,
    };
    match sam {
        Some(s) => Ok(s),
        None => match row.text_at(map.rdn)? {
            Some(t) => Ok(t),
            None => Ok(String::new()),
        },
    }
}

/// Decode one optional tick count, rejecting a negative count.
fn opt_ticks_nonneg(row: &RawRow, col: Option<i32>) -> (r: Result<Option<i64>, Error>)
    ensures
        (ticks_ok(*row, col) ==> r == Ok::<Option<i64>, Error>(ticks_val(*row, col))),
        (!ticks_ok(*row, col) ==> r is Err),
{
    match col {
        Some(c) => match row.ticks_at(c)? {
            Some(t) => {
                if t >= 0 {
                    Ok(Some(t))
                } else {
                    Err(Error::IntegerConversionError {
                        value: crate::fmt::i64_to_dec(t),
                        intended_type: String::from_str("timestamp tick count"),
                    })
                }
            },
            None => Ok(None),
        },
        None => Ok(None),
    }
}

/// Append the line of one optional timestamp.
fn push_opt_line(
    lines: &mut Vec<String>,
    base: &str,
    rownum: u32,
    label: &str,
    v: Option<i64>,
    ticks_per_second: i64,
    slot: u8,
)
    requires
        ticks_per_second == 100000 || ticks_per_second == 10000000,
        slot <= 3,
        (v matches Some(t) ==> t >= 0),
    ensures
        final(lines).deep_view() == old(lines).deep_view() + opt_line(
            base@,
            rownum,
            label@,
            v,
            ticks_per_second as int,
            slot as int,
        ),
{
    match v {
        Some(t) => {
            let u = t / ticks_per_second - 11644473600;
            let name = event_name_x(base, label);
            let inode = u32_to_dec(rownum);
            let atime: i64 = if slot == 0 { u } else { -1 };
            let mtime: i64 = if slot == 1 { u } else { -1 };
            let ctime: i64 = if slot == 2 { u } else { -1 };
            let crtime: i64 = if slot == 3 { u } else { -1 };
            let line = render_bodyfile_line(
                name.as_str(),
                inode.as_str(),
                atime,
                mtime,
                ctime,
                crtime,
            );
            lines.push(line);
            proof {
                assert(lines.deep_view() =~= old(lines).deep_view() + opt_line(
                    base@,
                    rownum,
                    label@,
                    v,
                    ticks_per_second as int,
                    slot as int,
                ));
            }
        },
        None => {
            proof {
                assert(lines.deep_view() =~= old(lines).deep_view() + opt_line(
                    base@,
                    rownum,
                    label@,
                    v,
                    ticks_per_second as int,
                    slot as int,
                ));
            }
        },
    }
}

/// The timeline lines of one record. Fails exactly when something the
/// timeline reads does not decode; the caller counts the record as skipped.
pub fn timeline_lines_for(
    row: &RawRow,
    map: &AttributeMap,
    ptr: RecordPointer,
    known: bool,
) -> (r: Result<Vec<String>, Error>)
    ensures
        (spec_timeline_ok(*row, *map) ==> (r matches Ok(ls) && ls.deep_view()
            == spec_record_lines(*row, *map, ptr, known))),
        (!spec_timeline_ok(*row, *map) ==> r is Err),
{
    let base = display_name(row, map)?;
    let record_time = opt_ticks_nonneg(row, Some(map.record_time))?;
    let last_logon = opt_ticks_nonneg(row, map.last_logon)?;
    let last_logon_ts = opt_ticks_nonneg(row, map.last_logon_time_stamp)?;
    let password_last_set = opt_ticks_nonneg(row, map.password_last_set)?;
    let bad_pwd_time = opt_ticks_nonneg(row, map.bad_pwd_time)?;
    let account_expires = opt_ticks_nonneg(row, map.account_expires)?;
    let mut lines: Vec<String> = Vec::new();
    proof {
        assert(lines.deep_view() =~= Seq::<Seq<char>>::empty());
    }
    push_opt_line(&mut lines, base.as_str(), ptr.row, "record created", record_time, 100000, 3);
    if known {
        push_opt_line(&mut lines, base.as_str(), ptr.row, "last logon", last_logon, 10000000, 0);
        push_opt_line(
            &mut lines,
            base.as_str(),
            ptr.row,
            "last logon timestamp",
            last_logon_ts,
            10000000,
            0,
        );
        push_opt_line(
            &mut lines,
            base.as_str(),
            ptr.row,
            "password last set",
            password_last_set,
            10000000,
            1,
        );
        push_opt_line(
            &mut lines,
            base.as_str(),
            ptr.row,
            "bad password time",
            bad_pwd_time,
            10000000,
            2,
        );
        push_opt_line(
            &mut lines,
            base.as_str(),
            ptr.row,
            "account expires",
            account_expires,
            10000000,
            2,
        );
    }
    proof {
        assert(lines.deep_view() =~= spec_record_lines(*row, *map, ptr, known));
    }
    Ok(lines)
}

/// Whether an entry's object type is one of the supported type ids.
pub open spec fn is_known_type(e: IndexEntry, sup: (i32, i32, i32)) -> bool {
    e.type_id == Some(sup.0) || e.type_id == Some(sup.1) || e.type_id == Some(sup.2)
}

/// What folding the first `n` in-scope entries yields: the lines in scope
/// order, and how many records were skipped over decode failures.
pub open spec fn spec_timeline_fold(
    rows: Seq<RawRow>,
    scope: Seq<IndexEntry>,
    map: AttributeMap,
    sup: (i32, i32, i32),
    n: int,
) -> (Seq<Seq<char>>, int)
    decreases n,
{
    if n <= 0 {
        (Seq::empty(), 0)
    } else {
        let prev = spec_timeline_fold(rows, scope, map, sup, n - 1);
        let e = scope[n - 1];
        if spec_timeline_ok(rows[e.ptr.row as int], map) {
            (prev.0 + spec_record_lines(rows[e.ptr.row as int], map, e.ptr, is_known_type(e, sup)), prev.1)
        } else {
            (prev.0, prev.1 + 1)
        }
    }
}

/// The timeline of a scope of records: the emitted lines and the skipped
/// count.
pub struct TimelineOutput {
    pub lines: Vec<String>,
    pub skipped: usize,
}

/// Fold the timeline over a scope of entries, in scope order. A record whose
/// row fails to decode is skipped and counted; the export completes.
pub fn timeline_for_entries(
    rows: &Vec<RawRow>,
    scope: &Vec<IndexEntry>,
    map: &AttributeMap,
    sup: (i32, i32, i32),
) -> (r: TimelineOutput)
    requires
        forall|k: int|
            0 <= k < scope@.len() ==> (#[trigger] scope@[k]).ptr.row < rows@.len(),
    ensures
        r.lines.deep_view() == spec_timeline_fold(rows@, scope@, *map, sup, scope@.len() as int).0,
        r.skipped == spec_timeline_fold(rows@, scope@, *map, sup, scope@.len() as int).1,
{
    let mut lines: Vec<String> = Vec::new();
    let mut skipped: usize = 0;
    let mut i: usize = 0;
    proof {
        assert(lines.deep_view() =~= Seq::<Seq<char>>::empty());
    }
    while i < scope.len()
        invariant
            i <= scope@.len(),
            skipped <= i,
            forall|k: int|
                0 <= k < scope@.len() ==> (#[trigger] scope@[k]).ptr.row < rows@.len(),
            lines.deep_view() == spec_timeline_fold(rows@, scope@, *map, sup, i as int).0,
            skipped == spec_timeline_fold(rows@, scope@, *map, sup, i as int).1,
        decreases scope@.len() - i,
    {
        let e = scope[i];
        let known = match e.type_id {
            Some(t) => t == sup.0 || t == sup.1 || t == sup.2,
            None => false,
        };
        match timeline_lines_for(&rows[e.ptr.row as usize], map, e.ptr, known) {
            Ok(mut chunk) => {
                let ghost prev = lines.deep_view();
                let ghost chunk_view = chunk.deep_view();
                lines.append(&mut chunk);
                proof {
                    assert(lines.deep_view() =~= prev + chunk_view);
                }
            },
            Err(_) => {
                skipped = skipped + 1;
            },
        }
        i = i + 1;
    }
    TimelineOutput { lines, skipped }
}

} // verus!
