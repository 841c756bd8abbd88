//! The security-descriptor side table and the descriptor decoder. A 64-bit
//! descriptor id maps to a raw self-relative binary blob: revision, control
//! flags, offsets to the owner and group identifiers and to the access
//! control list. The blob must fully decode or the operation fails with a
//! typed error that preserves the blob, encoded, for offline inspection.

use vstd::prelude::*;
use vstd::string::StringExecFns;

use crate::bytes::{read_u16_le, read_u32_le, u16_le, u32_le, u48_be};
use crate::cell::{spec_bytes_of, spec_wide_i64_of, RawRow};
use crate::error::Error;
use crate::schema::{find_column, spec_find_column, RawColumn};
use crate::sid::{spec_sid_subs, spec_sid_valid, Sid};

verus! {

/// What the base64 encoding of a byte string is. Relied upon only through
/// `base64_encode`.
pub uninterp spec fn base64_of(bytes: Seq<u8>) -> Seq<char>;

/// Relies on base64's standard alphabet engine with padding: the encoding is
/// a function of the input bytes alone, four output characters per three
/// input bytes, rounded up.
#[verifier::external_body]
fn base64_encode(bytes: &[u8]) -> (r: String)
    ensures
        r@ == base64_of(bytes@),
        r@.len() == 4 * ((bytes@.len() + 2) / 3),
{
    base64::Engine::encode(&base64::engine::general_purpose::STANDARD, bytes)
}

/// A copy of `b[from..to]`.
pub fn sub_bytes(b: &[u8], from: usize, to: usize) -> (r: Vec<u8>)
    requires
        from <= to <= b@.len(),
    ensures
        r@ == b@.subrange(from as int, to as int),
{
    let mut r: Vec<u8> = Vec::new();
    let mut i: usize = from;
    while i < to
        invariant
            from <= i <= to <= b@.len(),
            r@ == b@.subrange(from as int, i as int),
        decreases to - i,
    {
        r.push(b[i]);
        i = i + 1;
        assert(r@ =~= b@.subrange(from as int, i as int));
    }
    r
}

/// One decoded access-control entry.
#[derive(Debug)]
pub struct Ace {
    pub ace_type: u8,
    /// Inheritance and audit flags.
    pub flags: u8,
    pub mask: u32,
    pub trustee: Sid,
}

/// A decoded security descriptor.
#[derive(Debug)]
pub struct SecurityDescriptor {
    pub revision: u8,
    pub control: u16,
    pub owner: Sid,
    pub group: Sid,
    /// The access-control entries of the discretionary list, in blob order;
    /// empty when the control flags carry none.
    pub aces: Vec<Ace>,
}

/// Whether a security identifier sits at `off` within the blob.
pub open spec fn sid_ok_at(b: Seq<u8>, off: int) -> bool {
    &&& 0 <= off
    &&& off + 8 <= b.len()
    &&& spec_sid_valid(b.subrange(off, b.len() as int))
}

/// Whether a decoded identifier matches the one at `off`.
pub open spec fn sid_matches_at(b: Seq<u8>, off: int, s: Sid) -> bool {
    let sub = b.subrange(off, b.len() as int);
    &&& s.revision == sub[0]
    &&& s.authority == u48_be(sub, 2)
    &&& s.sub_authorities@ == spec_sid_subs(sub)
}

/// Whether an access-control entry sits at `p`: type (1 byte), flags
/// (1 byte), entry size (16-bit), access mask (32-bit), then the trustee
/// identifier, all inside the declared size.
pub open spec fn spec_ace_ok_at(b: Seq<u8>, p: int) -> bool {
    &&& 0 <= p
    &&& p + 8 <= b.len()
    &&& u16_le(b, p + 2) >= 20
    &&& p + u16_le(b, p + 2) <= b.len()
    &&& spec_sid_valid(b.subrange(p + 8, p + u16_le(b, p + 2)))
}

/// Whether a decoded entry matches the one at `p`.
pub open spec fn ace_matches_at(b: Seq<u8>, p: int, a: Ace) -> bool {
    let sub = b.subrange(p + 8, p + u16_le(b, p + 2));
    &&& a.ace_type == b[p]
    &&& a.flags == b[p + 1]
    &&& a.mask == u32_le(b, p + 4)
    &&& a.trustee.revision == sub[0]
    &&& a.trustee.authority == u48_be(sub, 2)
    &&& a.trustee.sub_authorities@ == spec_sid_subs(sub)
}

/// The offsets of `count` consecutive access-control entries from `p`, when
/// all of them are well-formed.
pub open spec fn spec_ace_offsets(b: Seq<u8>, p: int, count: int) -> Option<Seq<int>>
    decreases count,
{
    if count <= 0 {
        Some(Seq::empty())
    } else if spec_ace_ok_at(b, p) {
        match spec_ace_offsets(b, p + u16_le(b, p + 2), count - 1) {
            Some(rest) => Some(seq![p] + rest),
            None => None,
        }
    } else {
        None
    }
}

/// Whether the control flags carry a discretionary access-control list.
pub open spec fn spec_has_dacl(b: Seq<u8>) -> bool {
    (u16_le(b, 2) / 4) % 2 == 1
}

/// Whether the whole blob decodes: header, owner and group identifiers, and,
/// when present, the list header and each of its entries.
pub open spec fn spec_sd_ok(b: Seq<u8>) -> bool {
    &&& b.len() >= 20
    &&& b[0] == 1
    &&& sid_ok_at(b, u32_le(b, 4))
    &&& sid_ok_at(b, u32_le(b, 8))
    &&& (spec_has_dacl(b) ==> {
        let dacl = u32_le(b, 16);
        &&& dacl + 8 <= b.len()
        &&& spec_ace_offsets(b, dacl + 8, u16_le(b, dacl + 4)) is Some
    })
}

/// The entry offsets of the blob's list: empty when it carries none.
pub open spec fn spec_sd_ace_offsets(b: Seq<u8>) -> Seq<int> {
    if spec_has_dacl(b) {
        spec_ace_offsets(b, u32_le(b, 16) + 8, u16_le(b, u32_le(b, 16) + 4))->Some_0
    } else {
        Seq::empty()
    }
}

/// Whether a decoded descriptor matches the blob.
pub open spec fn sd_matches(b: Seq<u8>, sd: SecurityDescriptor) -> bool {
    let offs = spec_sd_ace_offsets(b);
    &&& sd.revision == b[0]
    &&& sd.control == u16_le(b, 2)
    &&& sid_matches_at(b, u32_le(b, 4), sd.owner)
    &&& sid_matches_at(b, u32_le(b, 8), sd.group)
    &&& sd.aces@.len() == offs.len()
    &&& forall|k: int| 0 <= k < offs.len() ==> ace_matches_at(b, offs[k], #[trigger] sd.aces@[k])
}

/// The typed decode failure: the blob is preserved, encoded, in the error.
fn decode_error(b: &[u8]) -> (e: Error)
    ensures
        e matches Error::DescriptorDecodeError { encoded } && encoded@ == base64_of(b@),
{
    Error::DescriptorDecodeError { encoded: base64_encode(b) }
}

/// Decode one security descriptor blob. Any structural inconsistency fails
/// with a typed error carrying the encoded blob; no partial structure is
/// ever returned.
pub fn parse_security_descriptor(b: &[u8]) -> (r: Result<SecurityDescriptor, Error>)
    ensures
        (spec_sd_ok(b@) ==> (r matches Ok(sd) && sd_matches(b@, sd))),
        (!spec_sd_ok(b@) ==> (r matches Err(e) && e matches Error::DescriptorDecodeError {
            encoded,
        } && encoded@ == base64_of(b@))),
{
    let n = b.len();
    if n < 20 {
        return Err(decode_error(b));
    }
    let revision = b[0];
    if revision != 1 {
        return Err(decode_error(b));
    }
    let control = read_u16_le(b, 2);
    let owner_off = read_u32_le(b, 4);
    let group_off = read_u32_le(b, 8);
    let owner = match parse_sid_at(b, owner_off) {
        Some(s) => s,
        None => {
            return Err(decode_error(b));
        },
    };
    let group = match parse_sid_at(b, group_off) {
        Some(s) => s,
        None => {
            return Err(decode_error(b));
        },
    };
    let has_dacl = (control / 4) % 2 == 1;
    let mut aces: Vec<Ace> = Vec::new();
    if has_dacl {
        let dacl_off = read_u32_le(b, 16);
        if !(dacl_off as u64 + 8 <= n as u64) {
            return Err(decode_error(b));
        }
        let dacl = dacl_off as usize;
        let count = read_u16_le(b, dacl + 4) as usize;
        let ghost p0 = dacl + 8;
        let mut p: usize = dacl + 8;
        let mut k: usize = 0;
        let ghost collected: Seq<int> = Seq::empty();
        let mut collected = Ghost(collected);
        proof {
            assert(collected@ + spec_ace_offsets(b@, p as int, (count - k) as int)->Some_0
                =~= spec_ace_offsets(b@, p as int, (count - k) as int)->Some_0);
        }
        while k < count
            invariant
                k <= count,
                p <= b@.len(),
                n == b@.len(),
                n >= 20,
                spec_has_dacl(b@),
                p0 == u32_le(b@, 16) + 8,
                count == u16_le(b@, u32_le(b@, 16) + 4),
                collected@.len() == k,
                aces@.len() == k,
                forall|j: int|
                    0 <= j < k ==> ace_matches_at(b@, collected@[j], #[trigger] aces@[j]),
                (spec_ace_offsets(b@, p as int, (count - k) as int) matches Some(rest)
                    ==> spec_ace_offsets(b@, p0 as int, count as int) == Some(collected@ + rest)),
                (spec_ace_offsets(b@, p as int, (count - k) as int) is None ==> spec_ace_offsets(
                    b@,
                    p0 as int,
                    count as int,
                ) is None),
            decreases count - k,
        {
            if p > n - 8 {
                proof {
                    assert(!spec_ace_ok_at(b@, p as int));
                    assert(spec_ace_offsets(b@, p as int, (count - k) as int) is None);
                    assert(!spec_sd_ok(b@));
                }
                return Err(decode_error(b));
            }
            let size = read_u16_le(b, p + 2) as usize;
            if size < 20 || size > n || p > n - size {
                proof {
                    assert(!spec_ace_ok_at(b@, p as int));
                    assert(spec_ace_offsets(b@, p as int, (count - k) as int) is None);
                    assert(!spec_sd_ok(b@));
                }
                return Err(decode_error(b));
            }
            let sid_bytes = sub_bytes(b, p + 8, p + size);
            let trustee = match Sid::parse(sid_bytes.as_slice()) {
                Ok(s) => s,
                Err(_) => {
                    proof {
                        assert(!spec_ace_ok_at(b@, p as int));
                        assert(spec_ace_offsets(b@, p as int, (count - k) as int) is None);
                        assert(!spec_sd_ok(b@));
                    }
                    return Err(decode_error(b));
                },
            };
            let ace = Ace { ace_type: b[p], flags: b[p + 1], mask: read_u32_le(b, p + 4), trustee };
            proof {
                assert(spec_ace_ok_at(b@, p as int));
                assert(ace_matches_at(b@, p as int, ace));
            }
            aces.push(ace);
            let ghost old_collected = collected@;
            proof {
                collected@ = collected@.push(p as int);
            }
            let ghost rest_now = spec_ace_offsets(b@, (p + size) as int, (count - k - 1) as int);
            proof {
                if rest_now is Some {
                    assert(spec_ace_offsets(b@, p as int, (count - k) as int) == Some(
                        seq![p as int] + rest_now->Some_0,
                    ));
                    assert(old_collected + (seq![p as int] + rest_now->Some_0) =~= collected@
                        + rest_now->Some_0);
                } else {
                    assert(spec_ace_offsets(b@, p as int, (count - k) as int) is None);
                }
            }
            p = p + size;
            k = k + 1;
        }
        proof {
            assert(spec_ace_offsets(b@, p as int, 0) == Some(Seq::<int>::empty()));
            assert(collected@ + Seq::<int>::empty() =~= collected@);
            assert(spec_ace_offsets(b@, p0 as int, count as int) == Some(collected@));
        }
    }
    Ok(SecurityDescriptor { revision, control, owner, group, aces })
}

/// Decode the security identifier at `off`, when the offset is in range and
/// the identifier is well-formed.
fn parse_sid_at(b: &[u8], off: u32) -> (r: Option<Sid>)
    ensures
        (sid_ok_at(b@, off as int) ==> (r matches Some(s) && sid_matches_at(b@, off as int, s))),
        (!sid_ok_at(b@, off as int) ==> r is None),
{
    let n = b.len();
    if !(off as u64 + 8 <= n as u64) {
        return None;
    }
    let sub = sub_bytes(b, off as usize, n);
    match Sid::parse(sub.as_slice()) {
        Ok(s) => Some(s),
        Err(_) => None,
    }
}

/// The resolved column ids of the descriptor side table.
#[derive(Clone, Copy, PartialEq, Eq, Structural, Debug)]
pub struct SdColumns {
    pub sd_id: i32,
    pub sd_value: i32,
}

/// What resolving the descriptor table's column listing yields.
pub open spec fn spec_resolve_sd_columns(cols: Seq<RawColumn>) -> Option<SdColumns> {
    if spec_find_column(cols, "sd_id"@) is Some && spec_find_column(cols, "sd_value"@) is Some {
        Some(
            SdColumns {
                sd_id: spec_find_column(cols, "sd_id"@)->Some_0,
                sd_value: spec_find_column(cols, "sd_value"@)->Some_0,
            },
        )
    } else {
        None
    }
}

impl SdColumns {
    /// Resolve the descriptor table's reserved columns by name.
    pub fn resolve(cols: &Vec<RawColumn>) -> (r: Result<SdColumns, Error>)
        ensures
            (spec_resolve_sd_columns(cols@) matches Some(c) ==> r == Ok::<SdColumns, Error>(c)),
            (spec_resolve_sd_columns(cols@) is None ==> (r matches Err(e) && e is MissingColumn)),
    {
        let sd_id = match find_column(cols, "sd_id") {
            Some(id) => id,
            None => {
                return Err(Error::MissingColumn { name: String::from_str("sd_id") });
            },
        };
        let sd_value = match find_column(cols, "sd_value") {
            Some(id) => id,
            None => {
                return Err(Error::MissingColumn { name: String::from_str("sd_value") });
            },
        };
        Ok(SdColumns { sd_id, sd_value })
    }
}

/// The (id, blob) pair a descriptor row yields, when both decode.
pub open spec fn spec_sd_row(row: RawRow, cols: SdColumns) -> Option<(i64, Seq<u8>)> {
    match (spec_wide_i64_of(row.spec_cell(cols.sd_id as int)), spec_bytes_of(
        row.spec_cell(cols.sd_value as int),
    )) {
        (Ok(Some(id)), Ok(Some(blob))) => Some((id, blob)),
        _ => None,
    }
}

/// What scanning the first `n` descriptor rows yields.
pub open spec fn spec_sd_scan(rows: Seq<RawRow>, cols: SdColumns, n: int) -> Seq<(i64, Seq<u8>)>
    decreases n,
{
    if n <= 0 {
        Seq::empty()
    } else {
        match spec_sd_row(rows[n - 1], cols) {
            Some(e) => spec_sd_scan(rows, cols, n - 1).push(e),
            None => spec_sd_scan(rows, cols, n - 1),
        }
    }
}

/// The blob of a descriptor id: the last stored pair wins, mirroring a keyed
/// store filled in table order.
pub open spec fn spec_sd_blob(entries: Seq<(i64, Vec<u8>)>, id: i64) -> Option<Seq<u8>>
    decreases entries.len(),
{
    if entries.len() == 0 {
        None
    } else if entries.last().0 == id {
        Some(entries.last().1@)
    } else {
        spec_sd_blob(entries.drop_last(), id)
    }
}

/// The descriptor side table: raw blobs keyed by descriptor id.
#[derive(Debug)]
pub struct SdTable {
    pub descriptors: Vec<(i64, Vec<u8>)>,
    /// Rows the scan skipped for want of a decodable id or blob.
    pub skipped: usize,
}

impl SdTable {
    /// Scan the descriptor table once and index its blobs.
    pub fn new(rows: &Vec<RawRow>, cols: &SdColumns) -> (r: SdTable)
        ensures
            ({
                let scanned = spec_sd_scan(rows@, *cols, rows@.len() as int);
                &&& r.descriptors@.len() == scanned.len()
                &&& forall|k: int|
                    0 <= k < scanned.len() ==> (#[trigger] r.descriptors@[k]).0 == scanned[k].0
                        && r.descriptors@[k].1@ == scanned[k].1
                &&& r.skipped == rows@.len() - scanned.len()
            }),
    {
        let mut descriptors: Vec<(i64, Vec<u8>)> = Vec::new();
        let mut i: usize = 0;
        while i < rows.len()
            invariant
                i <= rows@.len(),
                descriptors@.len() <= i,
                ({
                    let scanned = spec_sd_scan(rows@, *cols, i as int);
                    &&& descriptors@.len() == scanned.len()
                    &&& forall|k: int|
                        0 <= k < scanned.len() ==> (#[trigger] descriptors@[k]).0 == scanned[k].0
                            && descriptors@[k].1@ == scanned[k].1
                }),
            decreases rows@.len() - i,
        {
            let id = match rows[i].wide_i64_at(cols.sd_id) {
                Ok(Some(v)) => Some(v),
                _ => None,
            };
            let blob = match rows[i].bytes_at(cols.sd_value) {
                Ok(Some(v)) => Some(v),
                _ => None,
            };
            if let (Some(id), Some(blob)) = (id, blob) {
                assert(spec_sd_row(rows@[i as int], *cols) matches Some(e) && e.0 == id && e.1
                    == blob@);
                descriptors.push((id, blob));
            } else {
                assert(spec_sd_row(rows@[i as int], *cols) is None);
            }
            i = i + 1;
        }
        let skipped = rows.len() - descriptors.len();
        SdTable { descriptors, skipped }
    }

    /// Decode the descriptor with the given id: `None` when the id is not
    /// stored, otherwise the decoded structure or the typed decode failure.
    pub fn descriptor(&self, sd_id: i64) -> (r: Option<Result<SecurityDescriptor, Error>>)
        ensures
            (spec_sd_blob(self.descriptors@, sd_id) matches Some(blob) ==> (r matches Some(res) && {
                &&& (spec_sd_ok(blob) ==> (res matches Ok(sd) && sd_matches(blob, sd)))
                &&& (!spec_sd_ok(blob) ==> (res matches Err(e)
                    && e matches Error::DescriptorDecodeError { encoded } && encoded@ == base64_of(
                    blob,
                )))
            })),
            (spec_sd_blob(self.descriptors@, sd_id) is None ==> r is None),
    {
        let n = self.descriptors.len();
        let mut i: usize = n;
        proof {
            assert(self.descriptors@.take(n as int) =~= self.descriptors@);
        }
        while i > 0
            invariant
                i <= self.descriptors@.len(),
                spec_sd_blob(self.descriptors@, sd_id) == spec_sd_blob(
                    self.descriptors@.take(i as int),
                    sd_id,
                ),
            decreases i,
        {
            proof {
                assert(self.descriptors@.take(i as int).last() == self.descriptors@[i as int - 1]);
                assert(self.descriptors@.take(i as int).drop_last() =~= self.descriptors@.take(
                    i as int - 1,
                ));
            }
            if self.descriptors[i - 1].0 == sd_id {
                return Some(parse_security_descriptor(self.descriptors[i - 1].1.as_slice()));
            }
            i = i - 1;
        }
        proof {
            assert(self.descriptors@.take(0) =~= Seq::<(i64, Vec<u8>)>::empty());
        }
        None
    }
}

} // verus!
