//! Typed cell values as the table reader hands them over, and the fallible
//! primitive decoders. An absent (null) cell decodes to `None` for every
//! target type; a variant mismatch is an error, never a silent cast.

use vstd::prelude::*;
use vstd::string::StringExecFns;

use crate::error::Error;
use crate::fmt::{dec_of_int, hex_of, hex_encode, i64_to_dec};

verus! {

/// One raw cell, as streamed by the table reader.
#[derive(Debug)]
pub enum CellValue {
    /// Absent value.
    Null,
    I16(i16),
    I32(i32),
    I64(i64),
    /// 64-bit currency: carries tick counts of the timestamp columns.
    Currency(i64),
    Text(String),
    LargeText(String),
    Binary(Vec<u8>),
    LargeBinary(Vec<u8>),
}

/// What decoding a cell to a 32-bit integer yields: the 32/64-bit integer
/// variants are accepted, a 64-bit value out of range is a conversion error,
/// null is absent, any other variant is a decode error.
pub open spec fn spec_i32_of(v: CellValue) -> Result<Option<i32>, ()> {
    match v {
        CellValue::I32(x) => Ok(Some(x)),
        CellValue::I64(x) => if i32::MIN <= x <= i32::MAX {
            Ok(Some(x as i32))
        } else {
            Err(())
        },
        CellValue::Null => Ok(None),
        _ => Err(()),
    }
}

/// What decoding a cell to a 64-bit integer yields.
pub open spec fn spec_i64_of(v: CellValue) -> Result<Option<i64>, ()> {
    match v {
        CellValue::I32(x) => Ok(Some(x as i64)),
        CellValue::I64(x) => Ok(Some(x)),
        CellValue::Null => Ok(None),
        _ => Err(()),
    }
}

/// What decoding a cell to a 64-bit integer with every integer variant
/// accepted yields: descriptor ids are stored under varying widths.
pub open spec fn spec_wide_i64_of(v: CellValue) -> Result<Option<i64>, ()> {
    match v {
        CellValue::I16(x) => Ok(Some(x as i64)),
        CellValue::I32(x) => Ok(Some(x as i64)),
        CellValue::I64(x) => Ok(Some(x)),
        CellValue::Currency(x) => Ok(Some(x)),
        CellValue::Null => Ok(None),
        _ => Err(()),
    }
}

/// What decoding a cell to text yields: short and large text uniformly.
pub open spec fn spec_text_of(v: CellValue) -> Result<Option<Seq<char>>, ()> {
    match v {
        CellValue::Text(s) => Ok(Some(s@)),
        CellValue::LargeText(s) => Ok(Some(s@)),
        CellValue::Null => Ok(None),
        _ => Err(()),
    }
}

/// What decoding a cell to raw bytes yields: short and large binary.
pub open spec fn spec_bytes_of(v: CellValue) -> Result<Option<Seq<u8>>, ()> {
    match v {
        CellValue::Binary(b) => Ok(Some(b@)),
        CellValue::LargeBinary(b) => Ok(Some(b@)),
        CellValue::Null => Ok(None),
        _ => Err(()),
    }
}

/// What decoding a cell to a tick count yields: the currency variant only.
pub open spec fn spec_ticks_of(v: CellValue) -> Result<Option<i64>, ()> {
    match v {
        CellValue::Currency(x) => Ok(Some(x)),
        CellValue::Null => Ok(None),
        _ => Err(()),
    }
}

/// The display text of a cell: integers in decimal, text as itself, binary in
/// hexadecimal, an absent cell as the empty string.
pub open spec fn cell_display_spec(v: CellValue) -> Seq<char> {
    match v {
        CellValue::Null => Seq::empty(),
        CellValue::I16(x) => dec_of_int(x as int),
        CellValue::I32(x) => dec_of_int(x as int),
        CellValue::I64(x) => dec_of_int(x as int),
        CellValue::Currency(x) => dec_of_int(x as int),
        CellValue::Text(s) => s@,
        CellValue::LargeText(s) => s@,
        CellValue::Binary(b) => hex_of(b@),
        CellValue::LargeBinary(b) => hex_of(b@),
    }
}

/// A byte-for-byte copy of a byte slice.
pub fn copy_bytes(v: &[u8]) -> (r: Vec<u8>)
    ensures
        r@ == v@,
{
    let mut r: Vec<u8> = Vec::new();
    let mut i: usize = 0;
    while i < v.len()
        invariant
            i <= v@.len(),
            r@ == v@.subrange(0, i as int),
        decreases v@.len() - i,
    {
        r.push(v[i]);
        i = i + 1;
        assert(r@ =~= v@.subrange(0, i as int));
    }
    assert(r@ =~= v@);
    r
}

/// Decode a 32-bit integer cell.
pub fn cell_as_i32(v: &CellValue) -> (r: Result<Option<i32>, Error>)
    ensures
        (spec_i32_of(*v) matches Ok(o) ==> r == Ok::<Option<i32>, Error>(o)),
        (spec_i32_of(*v) is Err ==> r is Err),
        (v matches CellValue::I64(x) && !(i32::MIN <= *x <= i32::MAX) ==> (r matches Err(e)
            && e is IntegerConversionError)),
        (!(v is I32 || v is I64 || v is Null) ==> (r matches Err(e)
            && e is InvalidValueDetected)),
{
    match v {
        CellValue::I32(x) => Ok(Some(*x)),
        CellValue::I64(x) => {
            if i32::MIN as i64 <= *x && *x <= i32::MAX as i64 {
                Ok(Some(*x as i32))
            } else {
                Err(Error::IntegerConversionError {
                    value: i64_to_dec(*x),
                    intended_type: String::from_str("32-bit integer"),
                })
            }
        },
        CellValue::Null => Ok(None),
        _ => Err(Error::InvalidValueDetected {
            value: cell_display(v),
            expected: String::from_str("32-bit integer"),
        }),
    }
}

/// Decode a 64-bit integer cell.
pub fn cell_as_i64(v: &CellValue) -> (r: Result<Option<i64>, Error>)
    ensures
        (spec_i64_of(*v) matches Ok(o) ==> r == Ok::<Option<i64>, Error>(o)),
        (spec_i64_of(*v) is Err ==> (r matches Err(e) && e is InvalidValueDetected)),
{
    match v {
        CellValue::I32(x) => Ok(Some(*x as i64)),
        CellValue::I64(x) => Ok(Some(*x)),
        CellValue::Null => Ok(None),
        _ => Err(Error::InvalidValueDetected {
            value: cell_display(v),
            expected: String::from_str("64-bit integer"),
        }),
    }
}

/// Decode a text cell.
pub fn cell_as_text(v: &CellValue) -> (r: Result<Option<String>, Error>)
    ensures
        (spec_text_of(*v) matches Ok(o) ==> r matches Ok(p) && match o {
            Some(t) => p matches Some(s) && s@ == t,
            None => p is None,
        }),
        (spec_text_of(*v) is Err ==> (r matches Err(e) && e is InvalidValueDetected)),
{
    match v {
        CellValue::Text(s) => Ok(Some(s.clone())),
        CellValue::LargeText(s) => Ok(Some(s.clone())),
        CellValue::Null => Ok(None),
        _ => Err(Error::InvalidValueDetected {
            value: cell_display(v),
            expected: String::from_str("text"),
        }),
    }
}

/// Decode a binary cell to its raw bytes.
pub fn cell_as_bytes(v: &CellValue) -> (r: Result<Option<Vec<u8>>, Error>)
    ensures
        (spec_bytes_of(*v) matches Ok(o) ==> r matches Ok(p) && match o {
            Some(b) => p matches Some(w) && w@ == b,
            None => p is None,
        }),
        (spec_bytes_of(*v) is Err ==> (r matches Err(e) && e is InvalidValueDetected)),
{
    match v {
        CellValue::Binary(b) => Ok(Some(copy_bytes(b.as_slice()))),
        CellValue::LargeBinary(b) => Ok(Some(copy_bytes(b.as_slice()))),
        CellValue::Null => Ok(None),
        _ => Err(Error::InvalidValueDetected {
            value: cell_display(v),
            expected: String::from_str("binary"),
        }),
    }
}

/// Decode a hash or other binary cell to lower-case hexadecimal.
pub fn cell_as_hex(v: &CellValue) -> (r: Result<Option<String>, Error>)
    ensures
        (spec_bytes_of(*v) matches Ok(o) ==> r matches Ok(p) && match o {
            Some(b) => p matches Some(s) && s@ == hex_of(b),
            None => p is None,
        }),
        (spec_bytes_of(*v) is Err ==> (r matches Err(e) && e is InvalidValueDetected)),
{
    match v {
        CellValue::Binary(b) => Ok(Some(hex_encode(b.as_slice()))),
        CellValue::LargeBinary(b) => Ok(Some(hex_encode(b.as_slice()))),
        CellValue::Null => Ok(None),
        _ => Err(Error::InvalidValueDetected {
            value: cell_display(v),
            expected: String::from_str("binary"),
        }),
    }
}

/// Decode a tick-count cell.
pub fn cell_as_ticks(v: &CellValue) -> (r: Result<Option<i64>, Error>)
    ensures
        (spec_ticks_of(*v) matches Ok(o) ==> r == Ok::<Option<i64>, Error>(o)),
        (spec_ticks_of(*v) is Err ==> (r matches Err(e) && e is InvalidValueDetected)),
{
    match v {
        CellValue::Currency(x) => Ok(Some(*x)),
        CellValue::Null => Ok(None),
        _ => Err(Error::InvalidValueDetected {
            value: cell_display(v),
            expected: String::from_str("currency"),
        }),
    }
}

/// Render a cell to its display text.
pub fn cell_display(v: &CellValue) -> (r: String)
    ensures
        r@ == cell_display_spec(*v),
{
    match v {
        CellValue::Null => String::new(),
        CellValue::I16(x) => i64_to_dec(*x as i64),
        CellValue::I32(x) => i64_to_dec(*x as i64),
        CellValue::I64(x) => i64_to_dec(*x),
        CellValue::Currency(x) => i64_to_dec(*x),
        CellValue::Text(s) => s.clone(),
        CellValue::LargeText(s) => s.clone(),
        CellValue::Binary(b) => hex_encode(b.as_slice()),
        CellValue::LargeBinary(b) => hex_encode(b.as_slice()),
    }
}

/// One raw row: cells keyed by column id. A column that does not occur in the
/// row is read as an absent cell.
#[derive(Debug)]
pub struct RawRow {
    pub cells: Vec<(i32, CellValue)>,
}

/// The cell a row holds for a column id: the first entry with that id, or an
/// absent cell when there is none.
pub open spec fn cell_in(cells: Seq<(i32, CellValue)>, id: int) -> CellValue
    decreases cells.len(),
{
    if cells.len() == 0 {
        CellValue::Null
    } else if cells[0].0 == id {
        cells[0].1
    } else {
        cell_in(cells.drop_first(), id)
    }
}

impl RawRow {
    /// The cell this row holds for a column id.
    pub open spec fn spec_cell(self, id: int) -> CellValue {
        cell_in(self.cells@, id)
    }

    /// The position of the cell that `spec_cell` denotes, when one occurs.
    fn cell_index(&self, id: i32) -> (r: Option<usize>)
        ensures
            (r matches Some(j) ==> j < self.cells@.len() && self.cells@[j as int].1
                == self.spec_cell(id as int)),
            (r is None ==> self.spec_cell(id as int) is Null),
    {
        let mut i: usize = 0;
        proof {
            assert(self.cells@.skip(0) =~= self.cells@);
        }
        while i < self.cells.len()
            invariant
                i <= self.cells@.len(),
                cell_in(self.cells@, id as int) == cell_in(
                    self.cells@.skip(i as int),
                    id as int,
                ),
            decreases self.cells@.len() - i,
        {
            proof {
                assert(self.cells@.skip(i as int)[0] == self.cells@[i as int]);
                assert(self.cells@.skip(i as int).drop_first() =~= self.cells@.skip(i as int + 1));
            }
            if self.cells[i].0 == id {
                return Some(i);
            }
            i = i + 1;
        }
        proof {
            assert(self.cells@.skip(i as int).len() == 0);
        }
        None
    }

    /// The cell of one column, when the row carries one.
    pub fn cell_ref(&self, id: i32) -> (r: Option<&CellValue>)
        ensures
            (r matches Some(c) ==> *c == self.spec_cell(id as int)),
            (r is None ==> self.spec_cell(id as int) is Null),
    {
        match self.cell_index(id) {
            Some(j) => Some(&self.cells[j].1),
            None => None,
        }
    }

    /// Decode one column of this row as a 32-bit integer.
    pub fn i32_at(&self, id: i32) -> (r: Result<Option<i32>, Error>)
        ensures
            (spec_i32_of(self.spec_cell(id as int)) matches Ok(o) ==> r == Ok::<
                Option<i32>,
                Error,
            >(o)),
            (spec_i32_of(self.spec_cell(id as int)) is Err ==> r is Err),
    {
        match self.cell_index(id) {
            Some(j) => cell_as_i32(&self.cells[j].1),
            None => Ok(None),
        }
    }

    /// Decode one column of this row as a 64-bit integer.
    pub fn i64_at(&self, id: i32) -> (r: Result<Option<i64>, Error>)
        ensures
            (spec_i64_of(self.spec_cell(id as int)) matches Ok(o) ==> r == Ok::<
                Option<i64>,
                Error,
            >(o)),
            (spec_i64_of(self.spec_cell(id as int)) is Err ==> r is Err),
    {
        match self.cell_index(id) {
            Some(j) => cell_as_i64(&self.cells[j].1),
            None => Ok(None),
        }
    }

    /// Decode one column of this row as a 64-bit integer, accepting every
    /// integer variant.
    pub fn wide_i64_at(&self, id: i32) -> (r: Result<Option<i64>, Error>)
        ensures
            (spec_wide_i64_of(self.spec_cell(id as int)) matches Ok(o) ==> r == Ok::<
                Option<i64>,
                Error,
            >(o)),
            (spec_wide_i64_of(self.spec_cell(id as int)) is Err ==> r is Err),
    {
        match self.cell_index(id) {
            Some(j) => match &self.cells[j].1 {
                CellValue::I16(x) => Ok(Some(*x as i64)),
                CellValue::I32(x) => Ok(Some(*x as i64)),
                CellValue::I64(x) => Ok(Some(*x)),
                CellValue::Currency(x) => Ok(Some(*x)),
                CellValue::Null => Ok(None),
                v => Err(Error::InvalidValueDetected {
                    value: cell_display(v),
                    expected: String::from_str("integer"),
                }),
            },
            None => Ok(None),
        }
    }

    /// Decode one column of this row as text.
    pub fn text_at(&self, id: i32) -> (r: Result<Option<String>, Error>)
        ensures
            (spec_text_of(self.spec_cell(id as int)) matches Ok(o) ==> r matches Ok(p) && match o {
                Some(t) => p matches Some(s) && s@ == t,
                None => p is None,
            }),
            (spec_text_of(self.spec_cell(id as int)) is Err ==> r is Err),
    {
        match self.cell_index(id) {
            Some(j) => cell_as_text(&self.cells[j].1),
            None => Ok(None),
        }
    }

    /// Decode one column of this row as raw bytes.
    pub fn bytes_at(&self, id: i32) -> (r: Result<Option<Vec<u8>>, Error>)
        ensures
            (spec_bytes_of(self.spec_cell(id as int)) matches Ok(o) ==> r matches Ok(p) && match o {
                Some(b) => p matches Some(w) && w@ == b,
                None => p is None,
            }),
            (spec_bytes_of(self.spec_cell(id as int)) is Err ==> r is Err),
    {
        match self.cell_index(id) {
            Some(j) => cell_as_bytes(&self.cells[j].1),
            None => Ok(None),
        }
    }

    /// Decode one column of this row as a lower-case hexadecimal string.
    pub fn hex_at(&self, id: i32) -> (r: Result<Option<String>, Error>)
        ensures
            (spec_bytes_of(self.spec_cell(id as int)) matches Ok(o) ==> r matches Ok(p) && match o {
                Some(b) => p matches Some(s) && s@ == hex_of(b),
                None => p is None,
            }),
            (spec_bytes_of(self.spec_cell(id as int)) is Err ==> r is Err),
    {
        match self.cell_index(id) {
            Some(j) => cell_as_hex(&self.cells[j].1),
            None => Ok(None),
        }
    }

    /// Decode one column of this row as a tick count.
    pub fn ticks_at(&self, id: i32) -> (r: Result<Option<i64>, Error>)
        ensures
            (spec_ticks_of(self.spec_cell(id as int)) matches Ok(o) ==> r == Ok::<
                Option<i64>,
                Error,
            >(o)),
            (spec_ticks_of(self.spec_cell(id as int)) is Err ==> r is Err),
    {
        match self.cell_index(id) {
            Some(j) => cell_as_ticks(&self.cells[j].1),
            None => Ok(None),
        }
    }

    /// The display text of one column of this row.
    pub fn display_at(&self, id: i32) -> (r: String)
        ensures
            r@ == cell_display_spec(self.spec_cell(id as int)),
    {
        match self.cell_index(id) {
            Some(j) => cell_display(&self.cells[j].1),
            None => String::new(),
        }
    }
}

} // verus!
