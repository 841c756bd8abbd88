//! Security identifiers. The on-disk layout is: revision (1 byte),
//! sub-authority count (1 byte), 48-bit big-endian authority, then the
//! sub-authorities, each a 32-bit integer. All but the last sub-authority are
//! little-endian; the final one is big-endian. That asymmetry is a quirk of
//! the file format that this decoder preserves deliberately.

use vstd::prelude::*;

use crate::bytes::{
    lemma_u32_be_of_bytes, lemma_u32_le_of_bytes, lemma_u48_be_of_bytes, read_u32_be, read_u32_le,
    read_u48_be, u32_be, u32_le, u48_be,
};
use crate::error::Error;
use crate::fmt::{dec_of, hex_encode, push_char, u32_to_dec, u64_to_dec};
use vstd::string::StringExecFns;

verus! {

/// A decoded security identifier.
#[derive(Debug)]
pub struct Sid {
    pub revision: u8,
    /// 48-bit identifier authority.
    pub authority: u64,
    pub sub_authorities: Vec<u32>,
}

/// Whether a blob is long enough for its declared sub-authority count, with
/// at least one sub-authority.
pub open spec fn spec_sid_valid(b: Seq<u8>) -> bool {
    &&& b.len() >= 8
    &&& b[1] >= 1
    &&& b.len() >= 8 + 4 * (b[1] as int)
}

/// Sub-authority `i` of `n`: little-endian, except the final one.
pub open spec fn spec_sid_sub(b: Seq<u8>, n: int, i: int) -> int {
    if i < n - 1 {
        u32_le(b, 8 + 4 * i)
    } else {
        u32_be(b, 8 + 4 * i)
    }
}

/// All sub-authorities of a valid blob.
pub open spec fn spec_sid_subs(b: Seq<u8>) -> Seq<u32> {
    Seq::new((b[1] as nat), |i: int| spec_sid_sub(b, b[1] as int, i) as u32)
}

/// The rendered form: `S-<revision>-<authority>-<sub1>-...-<subN>`.
pub open spec fn subs_str(subs: Seq<u32>) -> Seq<char>
    decreases subs.len(),
{
    if subs.len() == 0 {
        Seq::empty()
    } else {
        subs_str(subs.drop_last()) + seq!['-'] + dec_of(subs.last() as nat)
    }
}

/// The rendered form of a security identifier.
pub open spec fn sid_string(revision: u8, authority: u64, subs: Seq<u32>) -> Seq<char> {
    seq!['S', '-'] + dec_of(revision as nat) + seq!['-'] + dec_of(authority as nat) + subs_str(
        subs,
    )
}

impl Sid {
    /// Decode a security identifier blob. A blob shorter than its declared
    /// sub-authority count demands fails, and never yields a partial value.
    pub fn parse(b: &[u8]) -> (r: Result<Sid, Error>)
        ensures
            (spec_sid_valid(b@) ==> (r matches Ok(s) && s.revision == b@[0] && s.authority
                == u48_be(b@, 2) && s.sub_authorities@ == spec_sid_subs(b@))),
            (!spec_sid_valid(b@) ==> (r matches Err(e) && e is InvalidValueDetected)),
    {
        let n = b.len();
        if n < 8 {
            return Err(sid_error(b));
        }
        let revision = b[0];
        let count = b[1] as usize;
        if count < 1 || n < 8 + 4 * count {
            return Err(sid_error(b));
        }
        let authority = read_u48_be(b, 2);
        let mut subs: Vec<u32> = Vec::new();
        let mut i: usize = 0;
        while i < count - 1
            invariant
                spec_sid_valid(b@),
                count == b@[1] as int,
                i <= count - 1,
                count <= b@.len(),
                8 + 4 * count <= b@.len(),
                subs@.len() == i,
                forall|k: int|
                    0 <= k < i ==> subs@[k] == spec_sid_sub(b@, count as int, k) as u32,
            decreases count - i,
        {
            let v = read_u32_le(b, 8 + 4 * i);
            subs.push(v);
            i = i + 1;
        }
        let last = read_u32_be(b, 8 + 4 * (count - 1));
        subs.push(last);
        proof {
            assert(subs@ =~= spec_sid_subs(b@));
        }
        Ok(Sid { revision, authority, sub_authorities: subs })
    }

    /// Render as `S-<revision>-<authority>-<sub1>-...-<subN>`.
    pub fn render(&self) -> (r: String)
        ensures
            r@ == sid_string(self.revision, self.authority, self.sub_authorities@),
    {
        let mut s = String::new();
        push_char(&mut s, 'S');
        push_char(&mut s, '-');
        let rev = u64_to_dec(self.revision as u64);
        s.append(rev.as_str());
        push_char(&mut s, '-');
        let auth = u64_to_dec(self.authority);
        s.append(auth.as_str());
        proof {
            assert(s@ =~= seq!['S', '-'] + dec_of(self.revision as nat) + seq!['-'] + dec_of(
                self.authority as nat,
            ));
        }
        let ghost prefix = s@;
        let mut i: usize = 0;
        while i < self.sub_authorities.len()
            invariant
                i <= self.sub_authorities@.len(),
                s@ == prefix + subs_str(self.sub_authorities@.take(i as int)),
            decreases self.sub_authorities@.len() - i,
        {
            push_char(&mut s, '-');
            let d = u32_to_dec(self.sub_authorities[i]);
            s.append(d.as_str());
            i = i + 1;
            proof {
                let t = self.sub_authorities@.take(i as int);
                assert(t.drop_last() =~= self.sub_authorities@.take(i as int - 1));
                assert(t.last() == self.sub_authorities@[i as int - 1]);
                assert(s@ =~= prefix + subs_str(t));
            }
        }
        proof {
            assert(self.sub_authorities@.take(self.sub_authorities@.len() as int)
                =~= self.sub_authorities@);
        }
        s
    }

    /// The derived numeric identifier: the final sub-authority component.
    pub fn rid(&self) -> (r: Option<u32>)
        ensures
            (self.sub_authorities@.len() > 0 ==> r == Some(self.sub_authorities@.last())),
            (self.sub_authorities@.len() == 0 ==> r is None),
    {
        let n = self.sub_authorities.len();
        if n > 0 {
            Some(self.sub_authorities[n - 1])
        } else {
            None
        }
    }
}

/// The decode error for a malformed security identifier blob.
fn sid_error(b: &[u8]) -> (e: Error)
    ensures
        e is InvalidValueDetected,
{
    Error::InvalidValueDetected {
        value: hex_encode(b),
        expected: String::from_str("security identifier"),
    }
}

/// Byte `i` of the encoding of a security identifier, per the layout above.
pub open spec fn spec_sid_encode_byte(
    revision: u8,
    authority: u64,
    subs: Seq<u32>,
    i: int,
) -> u8 {
    if i == 0 {
        revision
    } else if i == 1 {
        subs.len() as u8
    } else if i == 2 {
        ((authority / 0x10000000000) % 256) as u8
    } else if i == 3 {
        ((authority / 0x100000000) % 256) as u8
    } else if i == 4 {
        ((authority / 0x1000000) % 256) as u8
    } else if i == 5 {
        ((authority / 0x10000) % 256) as u8
    } else if i == 6 {
        ((authority / 0x100) % 256) as u8
    } else if i == 7 {
        (authority % 256) as u8
    } else {
        let k = (i - 8) / 4;
        let j = (i - 8) % 4;
        let s = subs[k] as int;
        if k < subs.len() - 1 {
            if j == 0 {
                (s % 256) as u8
            } else if j == 1 {
                ((s / 256) % 256) as u8
            } else if j == 2 {
                ((s / 65536) % 256) as u8
            } else {
                ((s / 16777216) % 256) as u8
            }
        } else {
            if j == 3 {
                (s % 256) as u8
            } else if j == 2 {
                ((s / 256) % 256) as u8
            } else if j == 1 {
                ((s / 65536) % 256) as u8
            } else {
                ((s / 16777216) % 256) as u8
            }
        }
    }
}

/// The encoding of a security identifier, per the layout above.
pub open spec fn spec_sid_encode(revision: u8, authority: u64, subs: Seq<u32>) -> Seq<u8> {
    Seq::new((8 + 4 * subs.len()) as nat, |i: int| spec_sid_encode_byte(revision, authority, subs, i))
}

/// Decoding inverts encoding: a blob carrying authority `A` and
/// sub-authorities `s1..sn` per the layout above decodes to exactly those
/// components, so the rendered string is `S-<revision>-<A>-<s1>-...-<sn>`.
pub proof fn lemma_sid_round_trip(revision: u8, authority: u64, subs: Seq<u32>)
    requires
        authority < 0x1000000000000,
        1 <= subs.len() <= 255,
    ensures
        spec_sid_valid(spec_sid_encode(revision, authority, subs)),
        spec_sid_encode(revision, authority, subs)[0] == revision,
        u48_be(spec_sid_encode(revision, authority, subs), 2) == authority,
        spec_sid_subs(spec_sid_encode(revision, authority, subs)) == subs,
{
    let enc = spec_sid_encode(revision, authority, subs);
    let n = subs.len() as int;
    assert(enc.len() == 8 + 4 * n);
    assert(enc[1] == n as u8);
    assert(spec_sid_valid(enc));
    lemma_u48_be_of_bytes(enc, 2, authority);
    assert forall|i: int| 0 <= i < n implies spec_sid_sub(enc, n, i) == subs[i] as int by {
        lemma_sid_sub_round_trip(revision, authority, subs, i);
    }
    assert(spec_sid_subs(enc) =~= subs);
}

proof fn lemma_sid_sub_round_trip(revision: u8, authority: u64, subs: Seq<u32>, i: int)
    requires
        1 <= subs.len() <= 255,
        0 <= i < subs.len(),
    ensures
        spec_sid_sub(spec_sid_encode(revision, authority, subs), subs.len() as int, i) == subs[i] as int,
{
    let enc = spec_sid_encode(revision, authority, subs);
    let n = subs.len() as int;
    let off = 8 + 4 * i;
    assert((4 * i + 0) / 4 == i && (4 * i + 0) % 4 == 0 && (4 * i + 1) / 4 == i && (4 * i + 1) % 4
        == 1 && (4 * i + 2) / 4 == i && (4 * i + 2) % 4 == 2 && (4 * i + 3) / 4 == i && (4 * i + 3)
        % 4 == 3) by (nonlinear_arith)
        requires
            0 <= i,
    ;
    if i < n - 1 {
        lemma_u32_le_of_bytes(enc, off, subs[i]);
    } else {
        lemma_u32_be_of_bytes(enc, off, subs[i]);
    }
}

} // verus!
