//! A decoded view of one result row.
//!
//! [`SpiHeapTupleData`] maps each 1-based ordinal to a [`SpiHeapTupleDataEntry`]:
//! the raw value of that field, or nothing where the field is null, paired
//! with the column's runtime type identifier.  Entries can be read by
//! ordinal or by name, and replaced in the decoded row only — writing back
//! to the engine's result set is not what this type is for.

use vstd::prelude::*;

use crate::datum::Datum;
use crate::datum::DatumView;
use crate::datum::FromDatum;
use crate::datum::IntoDatum;
use crate::engine::TupleDesc;
use crate::engine::TupleDescView;
use crate::status::SpiError;

verus! {

/// One field of a decoded row: its raw value, if any, and its column's
/// runtime type identifier.
#[derive(Debug)]
pub struct SpiHeapTupleDataEntry {
    pub datum: Option<Datum>,
    pub type_oid: u32,
}

/// The mathematical value of a [`SpiHeapTupleDataEntry`].
#[verifier::ext_equal]
pub struct SpiHeapTupleDataEntryView {
    pub datum: Option<DatumView>,
    pub type_oid: u32,
}

impl View for SpiHeapTupleDataEntry {
    type V = SpiHeapTupleDataEntryView;

    open spec fn view(&self) -> SpiHeapTupleDataEntryView {
        SpiHeapTupleDataEntryView { datum: self.datum.deep_view(), type_oid: self.type_oid }
    }
}

impl SpiHeapTupleDataEntry {
    /// Decodes the stored raw value under the stored type identifier; a null
    /// yields no value.
    pub fn value<T: FromDatum>(&self) -> (r: Option<T>)
        ensures
            match self@.datum {
                None => r is None,
                Some(dv) => {
                    &&& (r is Some <==> T::decodable(dv, self@.type_oid))
                    &&& (r is Some ==> r->0.decodes_from(dv, self@.type_oid))
                },
            },
    {
        match self.datum.as_ref() {
            Some(datum) => T::from_datum(datum, false, self.type_oid),
            None => None,
        }
    }
}

/// The 1-based ordinal of the first column with this name, or `-1` when no
/// column carries it.
pub open spec fn first_col_ordinal(names: Seq<Seq<char>>, name: Seq<char>) -> int
    decreases names.len(),
{
    if names.len() == 0 {
        -1
    } else if names[0] == name {
        1
    } else {
        let rest = first_col_ordinal(names.drop_first(), name);
        if rest < 0 {
            -1
        } else {
            1 + rest
        }
    }
}

/// What a scan establishes pins the first matching column down: a match at
/// `i` with no earlier match is the first match, and no match at all means
/// there is none.
pub proof fn lemma_first_col_ordinal(names: Seq<Seq<char>>, name: Seq<char>, i: int)
    requires
        0 <= i < names.len(),
        names[i] == name,
        forall|k: int| 0 <= k < i ==> names[k] != name,
    ensures
        first_col_ordinal(names, name) == i + 1,
    decreases names.len(),
{
    if names[0] == name {
        assert(i == 0);
    } else {
        assert(names.drop_first()[i - 1] == names[i]);
        assert(forall|k: int| 0 <= k < i - 1 ==> #[trigger] names.drop_first()[k] == names[k + 1]);
        lemma_first_col_ordinal(names.drop_first(), name, i - 1);
    }
}

/// No match anywhere means no first match.
pub proof fn lemma_first_col_ordinal_none(names: Seq<Seq<char>>, name: Seq<char>)
    requires
        forall|k: int| 0 <= k < names.len() ==> names[k] != name,
    ensures
        first_col_ordinal(names, name) == -1,
    decreases names.len(),
{
    if names.len() > 0 {
        assert(forall|k: int|
            0 <= k < names.drop_first().len() ==> #[trigger] names.drop_first()[k] == names[k + 1]);
        lemma_first_col_ordinal_none(names.drop_first(), name);
    }
}

/// Resolves a field name to its 1-based ordinal through a column descriptor.
pub fn fnumber(desc: &TupleDesc, name: &str) -> (r: Option<usize>)
    ensures
        match r {
            Some(ordinal) => 1 <= ordinal && ordinal as int == first_col_ordinal(
                desc@.names,
                name@,
            ),
            None => first_col_ordinal(desc@.names, name@) == -1,
        },
{
    let q: String = name.to_owned();
    let n = desc.names.len();
    let mut j: usize = 0;
    while j < n
        invariant
            n == desc@.names.len(),
            q@ == name@,
            j <= n,
            forall|k: int| 0 <= k < j ==> (#[trigger] desc@.names[k]) != name@,
        decreases n - j,
    {
        if desc.names[j] == q {
            proof {
                lemma_first_col_ordinal(desc@.names, name@, j as int);
            }
            return Some(j + 1);
        }
        j = j + 1;
    }
    proof {
        lemma_first_col_ordinal_none(desc@.names, name@);
    }
    None
}

/// The decoded fields of one row, keyed by 1-based ordinal.
#[derive(Debug)]
pub struct SpiHeapTupleData {
    pub desc: TupleDesc,
    pub entries: Vec<SpiHeapTupleDataEntry>,
}

/// The mathematical value of a [`SpiHeapTupleData`].
#[verifier::ext_equal]
pub struct SpiHeapTupleDataView {
    pub desc: TupleDescView,
    pub entries: Seq<SpiHeapTupleDataEntryView>,
}

impl View for SpiHeapTupleData {
    type V = SpiHeapTupleDataView;

    open spec fn view(&self) -> SpiHeapTupleDataView {
        SpiHeapTupleDataView { desc: self.desc@, entries: self.entries.deep_view() }
    }
}

impl DeepView for SpiHeapTupleDataEntry {
    type V = SpiHeapTupleDataEntryView;

    open spec fn deep_view(&self) -> SpiHeapTupleDataEntryView {
        self.view()
    }
}

impl SpiHeapTupleDataView {
    /// A decoded row is well formed when it has exactly one entry per
    /// column of its descriptor.
    pub open spec fn wf(self) -> bool {
        self.desc.wf() && self.entries.len() == self.desc.ncols()
    }

    /// Whether the decoded row carries this raw row's values under this
    /// descriptor: entry `i` holds the row's value and the descriptor's type
    /// identifier for column `i + 1`.
    pub open spec fn decodes(self, desc: TupleDescView, row: Seq<Option<DatumView>>) -> bool {
        &&& self.desc == desc
        &&& self.entries.len() == row.len()
        &&& forall|i: int|
            0 <= i < row.len() ==> (#[trigger] self.entries[i]) == (SpiHeapTupleDataEntryView {
                datum: row[i],
                type_oid: desc.oids[i],
            })
    }
}

impl SpiHeapTupleData {
    /// Builds the decoded row for one raw row under its shared descriptor,
    /// decoding every column.
    pub fn new(desc: &TupleDesc, row: &Vec<Option<Datum>>) -> (r: SpiHeapTupleData)
        requires
            desc@.wf(),
            row.deep_view().len() == desc@.ncols(),
        ensures
            r@.wf(),
            r@.decodes(desc@, row.deep_view()),
    {
        let ghost rowv = row.deep_view();
        let mut entries: Vec<SpiHeapTupleDataEntry> = Vec::new();
        let n = row.len();
        let mut j: usize = 0;
        while j < n
            invariant
                n == row@.len(),
                rowv == row.deep_view(),
                desc@.wf(),
                rowv.len() == desc@.ncols(),
                j <= n,
                entries@.len() == j,
                forall|k: int|
                    0 <= k < j ==> (#[trigger] entries@[k])@ == (SpiHeapTupleDataEntryView {
                        datum: rowv[k],
                        type_oid: desc@.oids[k],
                    }),
            decreases n - j,
        {
            let datum: Option<Datum> = match &row[j] {
                Some(d) => Some(d.clone()),
                None => None,
            };
            entries.push(SpiHeapTupleDataEntry { datum, type_oid: desc.oids[j] });
            j = j + 1;
        }
        let r = SpiHeapTupleData { desc: crate::engine::clone_desc(desc), entries };
        proof {
            assert(r@.entries =~= entries.deep_view());
        }
        r
    }

    /// The entry at a 1-based ordinal, or [`SpiError::Noattribute`] when the
    /// ordinal lies outside `1 ..= column count`.
    pub fn by_ordinal(&self, ordinal: usize) -> (r: Result<&SpiHeapTupleDataEntry, SpiError>)
        ensures
            1 <= ordinal <= self@.entries.len() ==> (r matches Ok(e) && e@ == self@.entries[ordinal
                - 1]),
            !(1 <= ordinal <= self@.entries.len()) ==> r === Err(SpiError::Noattribute),
    {
        if ordinal < 1 || ordinal > self.entries.len() {
            Err(SpiError::Noattribute)
        } else {
            Ok(&self.entries[ordinal - 1])
        }
    }

    /// The entry under a field name, resolved once to the first matching
    /// ordinal, or [`SpiError::Noattribute`] when no column carries the name.
    pub fn by_name(&self, name: &str) -> (r: Result<&SpiHeapTupleDataEntry, SpiError>)
        requires
            self@.wf(),
        ensures
            ({
                let ordinal = first_col_ordinal(self@.desc.names, name@);
                if ordinal >= 1 {
                    r matches Ok(e) && e@ == self@.entries[ordinal - 1]
                } else {
                    r === Err(SpiError::Noattribute)
                }
            }),
    {
        match fnumber(&self.desc, name) {
            Some(ordinal) => {
                proof {
                    assert(first_col_ordinal(self@.desc.names, name@) <= self@.desc.names.len())
                        by {
                        lemma_first_col_ordinal_len(self@.desc.names, name@);
                    }
                }
                self.by_ordinal(ordinal)
            },
            None => Err(SpiError::Noattribute),
        }
    }

    /// A mutable borrow of the entry at a 1-based ordinal, or
    /// [`SpiError::Noattribute`] when the ordinal lies outside
    /// `1 ..= column count`.  The row afterwards holds whatever the caller
    /// leaves behind the borrow, at that ordinal alone.
    pub fn by_ordinal_mut(&mut self, ordinal: usize) -> (r: Result<
        &mut SpiHeapTupleDataEntry,
        SpiError,
    >)
        ensures
            match r {
                Ok(e) => {
                    &&& 1 <= ordinal <= old(self)@.entries.len()
                    &&& final(self)@.desc == old(self)@.desc
                    &&& final(self)@.entries == old(self)@.entries.update(ordinal - 1, final(e)@)
                },
                Err(err) => {
                    &&& !(1 <= ordinal <= old(self)@.entries.len())
                    &&& err == SpiError::Noattribute
                    &&& *final(self) == *old(self)
                },
            },
    {
        let n = self.entries.len();
        if ordinal < 1 || ordinal > n {
            Err(SpiError::Noattribute)
        } else {
            Ok(&mut self.entries[ordinal - 1])
        }
    }

    /// A mutable borrow of the entry under a field name, resolved once to
    /// the first matching ordinal, or [`SpiError::Noattribute`] when no
    /// column carries the name.
    pub fn by_name_mut(&mut self, name: &str) -> (r: Result<
        &mut SpiHeapTupleDataEntry,
        SpiError,
    >)
        requires
            old(self)@.wf(),
        ensures
            ({
                let ordinal = first_col_ordinal(old(self)@.desc.names, name@);
                match r {
                    Ok(e) => {
                        &&& ordinal >= 1
                        &&& final(self)@.desc == old(self)@.desc
                        &&& final(self)@.entries == old(self)@.entries.update(
                            ordinal - 1,
                            final(e)@,
                        )
                    },
                    Err(err) => {
                        &&& ordinal < 1
                        &&& err == SpiError::Noattribute
                        &&& *final(self) == *old(self)
                    },
                }
            }),
    {
        match fnumber(&self.desc, name) {
            Some(ordinal) => {
                proof {
                    lemma_first_col_ordinal_len(self@.desc.names, name@);
                }
                self.by_ordinal_mut(ordinal)
            },
            None => Err(SpiError::Noattribute),
        }
    }

    /// Replaces the entry at a 1-based ordinal: afterwards it holds exactly
    /// the encoding of `datum` and the type's identifier — in this decoded
    /// row only, never in the engine's result set.
    pub fn set_by_ordinal<T: IntoDatum + FromDatum>(&mut self, ordinal: usize, datum: T) -> (r:
        Result<(), SpiError>)
        requires
            old(self)@.wf(),
        ensures
            final(self)@.wf(),
            final(self)@.desc == old(self)@.desc,
            1 <= ordinal <= old(self)@.entries.len() ==> {
                &&& r === Ok::<(), SpiError>(())
                &&& final(self)@.entries == old(self)@.entries.update(
                    ordinal - 1,
                    (SpiHeapTupleDataEntryView {
                        datum: datum.encoded(),
                        type_oid: T::type_oid_spec(),
                    }),
                )
            },
            !(1 <= ordinal <= old(self)@.entries.len()) ==> r === Err(SpiError::Noattribute)
                && final(self)@ == old(self)@,
    {
        let n = self.entries.len();
        if ordinal < 1 || ordinal > n {
            Err(SpiError::Noattribute)
        } else {
            let ghost oldv = self@;
            let entry = SpiHeapTupleDataEntry { datum: datum.into_datum(), type_oid: T::type_oid() };
            let ghost entryv = entry@;
            self.entries.remove(ordinal - 1);
            self.entries.insert(ordinal - 1, entry);
            proof {
                assert(self@.entries =~= oldv.entries.update(ordinal - 1, entryv));
            }
            Ok(())
        }
    }

    /// Replaces the entry under a field name, resolved once to the first
    /// matching ordinal.
    pub fn set_by_name<T: IntoDatum + FromDatum>(&mut self, name: &str, datum: T) -> (r: Result<
        (),
        SpiError,
    >)
        requires
            old(self)@.wf(),
        ensures
            final(self)@.wf(),
            final(self)@.desc == old(self)@.desc,
            ({
                let ordinal = first_col_ordinal(old(self)@.desc.names, name@);
                if ordinal >= 1 {
                    &&& r === Ok::<(), SpiError>(())
                    &&& final(self)@.entries == old(self)@.entries.update(
                        ordinal - 1,
                        (SpiHeapTupleDataEntryView {
                            datum: datum.encoded(),
                            type_oid: T::type_oid_spec(),
                        }),
                    )
                } else {
                    r === Err(SpiError::Noattribute) && final(self)@ == old(self)@
                }
            }),
    {
        match fnumber(&self.desc, name) {
            Some(ordinal) => {
                proof {
                    lemma_first_col_ordinal_len(self@.desc.names, name@);
                }
                self.set_by_ordinal(ordinal, datum)
            },
            None => Err(SpiError::Noattribute),
        }
    }

    /// Decodes the field at a 1-based ordinal, or no value where the ordinal
    /// does not resolve.
    pub fn get_datum<T: FromDatum>(&self, ordinal: usize) -> (r: Option<T>)
        ensures
            ({
                if 1 <= ordinal <= self@.entries.len() {
                    match self@.entries[ordinal - 1].datum {
                        None => r is None,
                        Some(dv) => {
                            &&& (r is Some <==> T::decodable(
                                dv,
                                self@.entries[ordinal - 1].type_oid,
                            ))
                            &&& (r is Some ==> r->0.decodes_from(
                                dv,
                                self@.entries[ordinal - 1].type_oid,
                            ))
                        },
                    }
                } else {
                    r is None
                }
            }),
    {
        match self.by_ordinal(ordinal) {
            Ok(entry) => entry.value(),
            Err(_) => None,
        }
    }
}

/// A first matching ordinal never exceeds the number of columns.
pub proof fn lemma_first_col_ordinal_len(names: Seq<Seq<char>>, name: Seq<char>)
    ensures
        first_col_ordinal(names, name) <= names.len(),
    decreases names.len(),
{
    if names.len() > 0 && names[0] != name {
        lemma_first_col_ordinal_len(names.drop_first(), name);
    }
}

} // verus!
