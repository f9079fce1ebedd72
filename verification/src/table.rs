//! The tuple table: an owned snapshot of one call's result rows.
//!
//! A table starts positioned before its first row (`current == -1`); calling
//! [`SpiTupleTable::first`] moves to row 0, and [`SpiTupleTable::next`]
//! yields the decoded row at the position and advances it, one row per step,
//! until the rows are consumed.  Typed extraction by 1-based ordinal reads
//! the field at the current position: reading an unpositioned table is an
//! error, reading past the last row or outside the columns is no value.
//!
//! The table owns its rows, copied out of the process-wide result slot at
//! construction, so no later engine call can change them, and their storage
//! is released exactly once, when the table is dropped.

use vstd::prelude::*;

use crate::datum::Datum;
use crate::datum::DatumView;
use crate::datum::FromDatum;
use crate::engine::MAX_ROWS;
use crate::engine::ResultSet;
use crate::engine::TupleDesc;
use crate::engine::TupleDescView;
use crate::engine::rows_wf;
use crate::row::SpiHeapTupleData;
use crate::row::SpiHeapTupleDataEntryView;
use crate::row::SpiHeapTupleDataView;
use crate::status::SpiError;
use crate::status::SpiOk;

verus! {

/// The decoded view of one raw row under a descriptor: each entry carries
/// the row's optional value and the column's type identifier.
pub open spec fn spec_decoded_row(desc: TupleDescView, row: Seq<Option<DatumView>>) -> SpiHeapTupleDataView {
    SpiHeapTupleDataView {
        desc: desc,
        entries: Seq::new(
            row.len(),
            |i: int| SpiHeapTupleDataEntryView { datum: row[i], type_oid: desc.oids[i] },
        ),
    }
}

/// A snapshot of a statement's result rows, with a position for iteration.
#[derive(Debug)]
pub struct SpiTupleTable {
    /// The success status the call that produced this table ended with.
    pub status_code: SpiOk,
    /// The shared column descriptor; a call that returned no result table
    /// has none.
    pub desc: Option<TupleDesc>,
    /// The snapshot rows; empty when there is no descriptor.
    pub rows: Vec<Vec<Option<Datum>>>,
    /// What the row-count slot reported.
    pub size: usize,
    /// The position: `-1` before the first row, then the 0-based row index.
    pub current: i64,
}

/// The mathematical value of a [`SpiTupleTable`].
#[verifier::ext_equal]
pub struct SpiTupleTableView {
    pub status: SpiOk,
    pub desc: Option<TupleDescView>,
    pub rows: Seq<Seq<Option<DatumView>>>,
    pub size: int,
    pub current: int,
}

impl View for SpiTupleTable {
    type V = SpiTupleTableView;

    open spec fn view(&self) -> SpiTupleTableView {
        SpiTupleTableView {
            status: self.status_code,
            desc: match self.desc {
                Some(d) => Some(d@),
                None => None,
            },
            rows: self.rows.deep_view(),
            size: self.size as int,
            current: self.current as int,
        }
    }
}

impl SpiTupleTableView {
    /// A table is well formed when its rows fit its descriptor, its size is
    /// the row count wherever there is a descriptor, and its position lies
    /// between "before the first row" and "past the last row".
    pub open spec fn wf(self) -> bool {
        &&& match self.desc {
            Some(d) => d.wf() && rows_wf(self.rows, d.ncols()) && self.size == self.rows.len(),
            None => self.rows.len() == 0,
        }
        &&& 0 <= self.size <= MAX_ROWS
        &&& -1 <= self.current <= self.size
    }

    /// The raw value and type identifier at `(current row, ordinal)`, or
    /// nothing when the position is past the rows, there is no descriptor,
    /// or the ordinal lies outside the columns.
    pub open spec fn raw_field(self, ordinal: int) -> Option<(Option<DatumView>, u32)> {
        if !(0 <= self.current < self.size) {
            None
        } else {
            match self.desc {
                None => None,
                Some(d) => {
                    if 1 <= ordinal <= d.ncols() && self.current < self.rows.len() {
                        Some((self.rows[self.current][ordinal - 1], d.oids[ordinal - 1]))
                    } else {
                        None
                    }
                },
            }
        }
    }

    /// Whether `v` is what typed extraction at this ordinal yields: no value
    /// where no raw field resolves or the field is null, and otherwise
    /// exactly the decoding of the raw value under the column's type
    /// identifier.
    pub open spec fn decoded_field_is<T: FromDatum>(self, ordinal: int, v: Option<T>) -> bool {
        match self.raw_field(ordinal) {
            None => v is None,
            Some((dopt, oid)) => match dopt {
                None => v is None,
                Some(dv) => {
                    &&& (v is Some <==> T::decodable(dv, oid))
                    &&& (v is Some ==> v->0.decodes_from(dv, oid))
                },
            },
        }
    }

    /// The table repositioned to its first row.
    pub open spec fn spec_first(self) -> SpiTupleTableView {
        SpiTupleTableView { current: 0, ..self }
    }

    /// One iteration step: the decoded row at the position and the advanced
    /// table, or no row and the table unchanged once the position is out of
    /// the rows.
    pub open spec fn spec_next(self) -> (SpiTupleTableView, Option<SpiHeapTupleDataView>) {
        if 0 <= self.current < self.size && self.desc is Some && self.current < self.rows.len() {
            (
                SpiTupleTableView { current: self.current + 1, ..self },
                Some(spec_decoded_row(self.desc->0, self.rows[self.current])),
            )
        } else {
            (self, None)
        }
    }

    /// Every decoded row that iteration still yields from this position on.
    pub open spec fn spec_remaining(self) -> Seq<SpiHeapTupleDataView>
        decreases self.size - self.current,
        when self.current >= -1
    {
        if 0 <= self.current < self.size && self.desc is Some && self.current < self.rows.len() {
            seq![spec_decoded_row(self.desc->0, self.rows[self.current])] + (SpiTupleTableView {
                current: self.current + 1,
                ..self
            }).spec_remaining()
        } else {
            Seq::empty()
        }
    }
}

/// From any position, iteration yields exactly the rows from the position to
/// the last one, each decoded, in order.
pub proof fn lemma_remaining_rows(t: SpiTupleTableView)
    requires
        t.wf(),
        t.desc is Some,
        0 <= t.current,
    ensures
        t.spec_remaining() =~= Seq::new(
            (if t.current <= t.size {
                (t.size - t.current) as nat
            } else {
                0
            }),
            |i: int| spec_decoded_row(t.desc->0, t.rows[t.current + i]),
        ),
    decreases t.size - t.current,
{
    if 0 <= t.current < t.size && t.current < t.rows.len() {
        let stepped = SpiTupleTableView { current: t.current + 1, ..t };
        lemma_remaining_rows(stepped);
    }
}

/// Positioning on the first row and then iterating consumes exactly one
/// decoded row per raw row — all `size` of them, in order — and positioning
/// again restarts at row 0.
pub proof fn lemma_first_then_iterate(t: SpiTupleTableView)
    requires
        t.wf(),
        t.desc is Some,
    ensures
        t.spec_first().spec_remaining().len() == t.size,
        t.spec_first().spec_remaining() =~= Seq::new(
            t.size as nat,
            |i: int| spec_decoded_row(t.desc->0, t.rows[i]),
        ),
        t.spec_first().spec_first() == t.spec_first(),
{
    lemma_remaining_rows(t.spec_first());
}

impl SpiTupleTable {
    /// Builds a table from what the result and row-count slots held after a
    /// call: the rows under their descriptor, or no descriptor at all when
    /// the call produced no result table.  The position starts before the
    /// first row.
    pub fn from_result(status_code: SpiOk, result: Option<ResultSet>, processed: usize) -> (t:
        SpiTupleTable)
        requires
            match result {
                Some(rs) => rs@.wf() && processed == rs.rows@.len(),
                None => processed <= MAX_ROWS,
            },
        ensures
            t@.wf(),
            t@.status == status_code,
            t@.current == -1,
            t@.size == processed,
            match result {
                Some(rs) => t@.desc == Some(rs@.desc) && t@.rows == rs@.rows,
                None => t@.desc is None && t@.rows.len() == 0,
            },
    {
        match result {
            Some(rs) => SpiTupleTable {
                status_code,
                desc: Some(rs.desc),
                rows: rs.rows,
                size: processed,
                current: -1,
            },
            None => {
                let t = SpiTupleTable {
                    status_code,
                    desc: None,
                    rows: Vec::new(),
                    size: processed,
                    current: -1,
                };
                proof {
                    assert(t@.rows =~= Seq::<Seq<Option<DatumView>>>::empty());
                }
                t
            },
        }
    }

    /// Moves the position to the first row and returns the table, enabling
    /// chained access.  On an empty table the position is then already past
    /// the end.
    pub fn first(self) -> (t: SpiTupleTable)
        ensures
            t@ == self@.spec_first(),
    {
        let mut t = self;
        t.current = 0;
        t
    }

    /// How many rows were processed.
    pub fn len(&self) -> (n: usize)
        ensures
            n == self@.size,
    {
        self.size
    }

    /// Whether no rows were processed.
    pub fn is_empty(&self) -> (r: bool)
        ensures
            r == (self@.size == 0),
    {
        self.size == 0
    }

    /// Decodes the field at a 1-based ordinal of the current row.
    ///
    /// A table that was never positioned is rejected with
    /// [`SpiError::Unpositioned`].  A position past the last row, an ordinal
    /// outside `1 ..= column count`, and a null field all yield no value
    /// rather than an error.
    pub fn get_datum<T: FromDatum>(&self, ordinal: i32) -> (r: Result<Option<T>, SpiError>)
        requires
            self@.wf(),
        ensures
            self@.current < 0 ==> r === Err::<Option<T>, SpiError>(SpiError::Unpositioned),
            self@.current >= 0 ==> (r matches Ok(v) && self@.decoded_field_is(ordinal as int, v)),
    {
        if self.current < 0 {
            return Err(SpiError::Unpositioned);
        }
        let cur = self.current as usize;
        if cur >= self.size {
            return Ok(None);
        }
        let desc = match &self.desc {
            Some(d) => d,
            None => {
                return Ok(None);
            },
        };
        if ordinal < 1 {
            return Ok(None);
        }
        let ord = ordinal as usize;
        if ord > desc.natts() {
            return Ok(None);
        }
        let oid = desc.oids[ord - 1];
        let row = &self.rows[cur];
        match &row[ord - 1] {
            Some(d) => Ok(T::from_datum(d, false, oid)),
            None => {
                let sentinel = Datum::null_sentinel();
                Ok(T::from_datum(&sentinel, true, oid))
            },
        }
    }

    /// Decodes ordinal 1 of the current row.
    pub fn get_one<A: FromDatum>(&self) -> (r: Result<Option<A>, SpiError>)
        requires
            self@.wf(),
        ensures
            self@.current < 0 ==> r === Err::<Option<A>, SpiError>(SpiError::Unpositioned),
            self@.current >= 0 ==> (r matches Ok(a) && self@.decoded_field_is(1, a)),
    {
        self.get_datum(1)
    }

    /// Decodes ordinals 1 and 2 of the current row.
    pub fn get_two<A: FromDatum, B: FromDatum>(&self) -> (r: Result<
        (Option<A>, Option<B>),
        SpiError,
    >)
        requires
            self@.wf(),
        ensures
            self@.current < 0 ==> r === Err::<(Option<A>, Option<B>), SpiError>(
                SpiError::Unpositioned,
            ),
            self@.current >= 0 ==> (r matches Ok((a, b)) && self@.decoded_field_is(1, a)
                && self@.decoded_field_is(2, b)),
    {
        let a = self.get_datum::<A>(1)?;
        let b = self.get_datum::<B>(2)?;
        Ok((a, b))
    }

    /// Decodes ordinals 1, 2, and 3 of the current row.
    pub fn get_three<A: FromDatum, B: FromDatum, C: FromDatum>(&self) -> (r: Result<
        (Option<A>, Option<B>, Option<C>),
        SpiError,
    >)
        requires
            self@.wf(),
        ensures
            self@.current < 0 ==> r === Err::<(Option<A>, Option<B>, Option<C>), SpiError>(
                SpiError::Unpositioned,
            ),
            self@.current >= 0 ==> (r matches Ok((a, b, c)) && self@.decoded_field_is(1, a)
                && self@.decoded_field_is(2, b) && self@.decoded_field_is(3, c)),
    {
        let a = self.get_datum::<A>(1)?;
        let b = self.get_datum::<B>(2)?;
        let c = self.get_datum::<C>(3)?;
        Ok((a, b, c))
    }

    /// Materializes the full decoded row at the current position, decoding
    /// every column; no value when the position is out of the rows or the
    /// table has no descriptor.
    pub fn get_heap_tuple(&self) -> (r: Option<SpiHeapTupleData>)
        requires
            self@.wf(),
        ensures
            match self@.spec_next().1 {
                Some(hv) => r matches Some(h) && h@ == hv,
                None => r is None,
            },
    {
        if self.current < 0 {
            return None;
        }
        let cur = self.current as usize;
        if cur >= self.size {
            return None;
        }
        let desc = match &self.desc {
            Some(d) => d,
            None => {
                return None;
            },
        };
        let h = SpiHeapTupleData::new(desc, &self.rows[cur]);
        proof {
            assert(h@.entries =~= spec_decoded_row(desc@, self@.rows[self@.current]).entries);
        }
        Some(h)
    }

    /// One iteration step: the decoded row at the current position, with the
    /// position advanced past it.  Before a [`Self::first`] call, and after
    /// the last row, there is nothing to yield; iteration restarts only by
    /// positioning again.
    pub fn next(&mut self) -> (r: Option<SpiHeapTupleData>)
        requires
            old(self)@.wf(),
        ensures
            final(self)@.wf(),
            final(self)@ == old(self)@.spec_next().0,
            match old(self)@.spec_next().1 {
                Some(hv) => r matches Some(h) && h@ == hv,
                None => r is None,
            },
    {
        let r = self.get_heap_tuple();
        match r {
            Some(h) => {
                self.current = self.current + 1;
                Some(h)
            },
            None => None,
        }
    }
}

} // verus!
