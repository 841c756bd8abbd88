//! A typed view on one raw row: attribute getters that pick the resolved
//! column and decode it, without holding data of their own.

use vstd::prelude::*;

use crate::cell::{
    spec_i32_of, spec_text_of, spec_ticks_of, CellValue, RawRow,
};
use crate::error::Error;
use crate::schema::AttributeMap;
use crate::timestamp::{DatabaseTime, WindowsFileTime};

verus! {

/// Anything that offers the typed view of a data-table record.
pub trait AsDataTableRecord {
    /// The row the view reads.
    fn raw_row(&self) -> &RawRow;
}

/// A typed view on a record; it holds references, not data.
#[derive(Clone, Copy)]
pub struct DataTableRecord<'d> {
    pub row: &'d RawRow,
    pub map: &'d AttributeMap,
}

impl<'d> AsDataTableRecord for DataTableRecord<'d> {
    fn raw_row(&self) -> &RawRow {
        self.row
    }
}

impl<'d> DataTableRecord<'d> {
    /// View a row through the resolved attribute map.
    pub fn new(row: &'d RawRow, map: &'d AttributeMap) -> (r: DataTableRecord<'d>)
        ensures
            r.row == row,
            r.map == map,
    {
        DataTableRecord { row, map }
    }

    /// The raw cell of one column, when the row carries one.
    pub fn get(&self, column_id: i32) -> (r: Option<&CellValue>)
        ensures
            (r matches Some(c) ==> *c == self.row.spec_cell(column_id as int)),
            (r is None ==> self.row.spec_cell(column_id as int) is Null),
    {
        self.row.cell_ref(column_id)
    }

    /// The record id; it is mandatory.
    pub fn ds_record_id(&self) -> (r: Result<i32, Error>)
        ensures
            (spec_i32_of(self.row.spec_cell(self.map.record_id as int)) matches Ok(o) ==> match o {
                Some(v) => r == Ok::<i32, Error>(v),
                None => (r matches Err(e) && e is ValueIsMissing),
            }),
            (spec_i32_of(self.row.spec_cell(self.map.record_id as int)) is Err ==> r is Err),
    {
        match self.row.i32_at(self.map.record_id)? {
            Some(v) => Ok(v),
            None => Err(Error::ValueIsMissing),
        }
    }

    /// The parent record id; it is mandatory.
    pub fn ds_parent_record_id(&self) -> (r: Result<i32, Error>)
        ensures
            (spec_i32_of(self.row.spec_cell(self.map.parent_id as int)) matches Ok(o) ==> match o {
                Some(v) => r == Ok::<i32, Error>(v),
                None => (r matches Err(e) && e is ValueIsMissing),
            }),
            (spec_i32_of(self.row.spec_cell(self.map.parent_id as int)) is Err ==> r is Err),
    {
        match self.row.i32_at(self.map.parent_id)? {
            Some(v) => Ok(v),
            None => Err(Error::ValueIsMissing),
        }
    }

    /// The record time, in 10-microsecond units since the epoch.
    pub fn ds_record_time_opt(&self) -> (r: Result<Option<DatabaseTime>, Error>)
        ensures
            (spec_ticks_of(self.row.spec_cell(self.map.record_time as int)) matches Ok(o)
                ==> match o {
                Some(t) => {
                    &&& (t >= 0 ==> (r matches Ok(p) && p matches Some(d) && d.spec_units() == t))
                    &&& (t < 0 ==> r is Err)
                },
                None => r == Ok::<Option<DatabaseTime>, Error>(None::<DatabaseTime>),
            }),
            (spec_ticks_of(self.row.spec_cell(self.map.record_time as int)) is Err ==> r is Err),
    {
        match self.row.ticks_at(self.map.record_time)? {
            Some(t) => Ok(Some(DatabaseTime::from_units(t)?)),
            None => Ok(None),
        }
    }

    /// The ancestry counter column.
    pub fn ds_ancestors_opt(&self) -> (r: Result<Option<i32>, Error>)
        ensures
            (spec_i32_of(self.row.spec_cell(self.map.ancestors as int)) matches Ok(o) ==> r == Ok::<
                Option<i32>,
                Error,
            >(o)),
            (spec_i32_of(self.row.spec_cell(self.map.ancestors as int)) is Err ==> r is Err),
    {
        self.row.i32_at(self.map.ancestors)
    }

    /// The object-type id (the record id of the object's type definition).
    pub fn ds_object_type_id_opt(&self) -> (r: Result<Option<i32>, Error>)
        ensures
            (spec_i32_of(self.row.spec_cell(self.map.object_category as int)) matches Ok(o) ==> r
                == Ok::<Option<i32>, Error>(o)),
            (spec_i32_of(self.row.spec_cell(self.map.object_category as int)) is Err ==> r is Err),
    {
        self.row.i32_at(self.map.object_category)
    }

    /// The common name.
    pub fn ds_object_name_opt(&self) -> (r: Result<Option<String>, Error>)
        ensures
            (spec_text_of(self.row.spec_cell(self.map.common_name as int)) matches Ok(o)
                ==> r matches Ok(p) && match o {
                Some(t) => p matches Some(s) && s@ == t,
                None => p is None,
            }),
            (spec_text_of(self.row.spec_cell(self.map.common_name as int)) is Err ==> r is Err),
    {
        self.row.text_at(self.map.common_name)
    }

    /// The secondary (relative) name; it is mandatory for type definitions.
    pub fn ds_object_name2(&self) -> (r: Result<String, Error>)
        ensures
            (spec_text_of(self.row.spec_cell(self.map.rdn as int)) matches Ok(o) ==> match o {
                Some(t) => (r matches Ok(s) && s@ == t),
                None => (r matches Err(e) && e is ValueIsMissing),
            }),
            (spec_text_of(self.row.spec_cell(self.map.rdn as int)) is Err ==> r is Err),
    {
        match self.row.text_at(self.map.rdn)? {
            Some(s) => Ok(s),
            None => Err(Error::ValueIsMissing),
        }
    }

    /// A timestamp attribute, in 100-nanosecond ticks since the epoch, read
    /// from an optional column.
    pub fn file_time_at(&self, column: Option<i32>) -> (r: Result<Option<WindowsFileTime>, Error>)
        ensures
            (column is None ==> r == Ok::<Option<WindowsFileTime>, Error>(
                None::<WindowsFileTime>,
            )),
            (column matches Some(col) ==> match spec_ticks_of(self.row.spec_cell(col as int)) {
                Ok(Some(t)) => {
                    &&& (t >= 0 ==> (r matches Ok(p) && p matches Some(w) && w.spec_ticks() == t))
                    &&& (t < 0 ==> r is Err)
                },
                Ok(None) => r == Ok::<Option<WindowsFileTime>, Error>(None::<WindowsFileTime>),
                Err(_) => r is Err,
            }),
    {
        match column {
            Some(col) => match self.row.ticks_at(col)? {
                Some(t) => Ok(Some(WindowsFileTime::from_ticks(t)?)),
                None => Ok(None),
            },
            None => Ok(None),
        }
    }
}

} // verus!
