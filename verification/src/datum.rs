//! Raw engine values and typed decoding.
//!
//! A [`Datum`] is one raw value as the engine interface hands it over,
//! untyped: what it means is decided by the runtime type identifier that
//! accompanies it.  Decoding a datum into a concrete Rust type goes through
//! the [`FromDatum`] trait, keyed by that identifier; encoding an argument
//! goes through [`IntoDatum`].

use vstd::prelude::*;

verus! {

/// Type identifier of a four-byte signed integer column.
pub const INT4OID: u32 = 23;

/// Type identifier of an eight-byte signed integer column.
pub const INT8OID: u32 = 20;

/// Type identifier of a boolean column.
pub const BOOLOID: u32 = 16;

/// Type identifier of a variable-length text column.
pub const TEXTOID: u32 = 25;

/// Type identifier of a fixed-length name column.
pub const NAMEOID: u32 = 19;

/// One raw value of the engine interface.
///
/// The engine passes integral values directly and variable-length values by
/// reference; this layer holds either shape as an owned value.  A `Datum`
/// alone does not say what it means: pair it with a type identifier and
/// decode it through [`FromDatum`].
#[derive(Debug)]
pub enum Datum {
    /// A value the engine passes directly, sign-extended to eight bytes.
    Int(i64),
    /// A variable-length text value.
    Text(String),
    /// A boolean value.
    Bool(bool),
}

/// The mathematical value of a [`Datum`].
#[verifier::ext_equal]
pub enum DatumView {
    Int(int),
    Text(Seq<char>),
    Bool(bool),
}

impl View for Datum {
    type V = DatumView;

    open spec fn view(&self) -> DatumView {
        match self {
            Datum::Int(v) => DatumView::Int(*v as int),
            Datum::Text(s) => DatumView::Text(s@),
            Datum::Bool(b) => DatumView::Bool(*b),
        }
    }
}

impl DeepView for Datum {
    type V = DatumView;

    open spec fn deep_view(&self) -> DatumView {
        self.view()
    }
}

impl Clone for Datum {
    /// A clone carries the same mathematical value.
    fn clone(&self) -> (r: Self)
        ensures
            r@ == self@,
    {
        match self {
            Datum::Int(v) => Datum::Int(*v),
            Datum::Text(s) => Datum::Text(s.clone()),
            Datum::Bool(b) => Datum::Bool(*b),
        }
    }
}

impl Datum {
    /// The value slot the layer passes for an absent argument: the engine
    /// defines it as the zero datum, and the null flag alone decides that the
    /// argument is null.
    pub fn null_sentinel() -> (r: Datum)
        ensures
            r@ == DatumView::Int(0),
    {
        Datum::Int(0)
    }
}

/// A type that can be decoded from a raw datum and its runtime type
/// identifier.
pub trait FromDatum: Sized {
    /// Whether `self` is the decoding of the value `datum` under type
    /// identifier `oid`.  For every decodable pair there is exactly one such
    /// `self`, up to the mathematical value.
    spec fn decodes_from(&self, datum: DatumView, oid: u32) -> bool;

    /// Whether the value `datum` decodes at all under `oid`.
    spec fn decodable(datum: DatumView, oid: u32) -> bool;

    /// Decodes a raw value.  A null decodes to no value; a non-null decodes
    /// to the value the pair `(datum, oid)` names, or to no value where the
    /// pair names none.
    fn from_datum(datum: &Datum, is_null: bool, oid: u32) -> (r: Option<Self>)
        ensures
            is_null ==> r is None,
            !is_null ==> (r is Some <==> Self::decodable(datum@, oid)),
            !is_null && r is Some ==> r->0.decodes_from(datum@, oid),
    ;
}

/// A type that can be encoded as a raw datum for argument binding.
pub trait IntoDatum: Sized {
    /// The exact encoding of `self`, as a mathematical value: no value means
    /// `self` encodes the null argument.
    spec fn encoded(&self) -> Option<DatumView>;

    /// The runtime type identifier of this type's columns.
    spec fn type_oid_spec() -> u32;

    /// Encodes `self` as a raw datum; the result is exactly the encoding,
    /// no value where `self` encodes null.
    fn into_datum(self) -> (r: Option<Datum>)
        ensures
            r.deep_view() == self.encoded(),
    ;

    /// The runtime type identifier of this type's columns.
    fn type_oid() -> (r: u32)
        ensures
            r == Self::type_oid_spec(),
    ;
}

impl FromDatum for i32 {
    open spec fn decodes_from(&self, datum: DatumView, oid: u32) -> bool {
        oid == INT4OID && datum == DatumView::Int(*self as int)
    }

    open spec fn decodable(datum: DatumView, oid: u32) -> bool {
        oid == INT4OID && (datum matches DatumView::Int(v) && i32::MIN <= v <= i32::MAX)
    }

    fn from_datum(datum: &Datum, is_null: bool, oid: u32) -> (r: Option<Self>)
        ensures
            is_null ==> r is None,
            !is_null ==> (r is Some <==> Self::decodable(datum@, oid)),
            !is_null && r is Some ==> r->0.decodes_from(datum@, oid),
    {
        if is_null || oid != INT4OID {
            None
        } else {
            match datum {
                Datum::Int(v) => {
                    if i32::MIN as i64 <= *v && *v <= i32::MAX as i64 {
                        Some(*v as i32)
                    } else {
                        None
                    }
                },
                _ => None,
            }
        }
    }
}

impl IntoDatum for i32 {
    open spec fn encoded(&self) -> Option<DatumView> {
        Some(DatumView::Int(*self as int))
    }

    open spec fn type_oid_spec() -> u32 {
        INT4OID
    }

    fn into_datum(self) -> (r: Option<Datum>)
        ensures
            r.deep_view() == self.encoded(),
    {
        Some(Datum::Int(self as i64))
    }

    fn type_oid() -> (r: u32)
        ensures
            r == Self::type_oid_spec(),
    {
        INT4OID
    }
}

impl FromDatum for i64 {
    open spec fn decodes_from(&self, datum: DatumView, oid: u32) -> bool {
        oid == INT8OID && datum == DatumView::Int(*self as int)
    }

    open spec fn decodable(datum: DatumView, oid: u32) -> bool {
        oid == INT8OID && (datum matches DatumView::Int(_))
    }

    fn from_datum(datum: &Datum, is_null: bool, oid: u32) -> (r: Option<Self>)
        ensures
            is_null ==> r is None,
            !is_null ==> (r is Some <==> Self::decodable(datum@, oid)),
            !is_null && r is Some ==> r->0.decodes_from(datum@, oid),
    {
        if is_null || oid != INT8OID {
            None
        } else {
            match datum {
                Datum::Int(v) => Some(*v),
                _ => None,
            }
        }
    }
}

impl IntoDatum for i64 {
    open spec fn encoded(&self) -> Option<DatumView> {
        Some(DatumView::Int(*self as int))
    }

    open spec fn type_oid_spec() -> u32 {
        INT8OID
    }

    fn into_datum(self) -> (r: Option<Datum>)
        ensures
            r.deep_view() == self.encoded(),
    {
        Some(Datum::Int(self))
    }

    fn type_oid() -> (r: u32)
        ensures
            r == Self::type_oid_spec(),
    {
        INT8OID
    }
}

impl FromDatum for bool {
    open spec fn decodes_from(&self, datum: DatumView, oid: u32) -> bool {
        oid == BOOLOID && datum == DatumView::Bool(*self)
    }

    open spec fn decodable(datum: DatumView, oid: u32) -> bool {
        oid == BOOLOID && (datum matches DatumView::Bool(_))
    }

    fn from_datum(datum: &Datum, is_null: bool, oid: u32) -> (r: Option<Self>)
        ensures
            is_null ==> r is None,
            !is_null ==> (r is Some <==> Self::decodable(datum@, oid)),
            !is_null && r is Some ==> r->0.decodes_from(datum@, oid),
    {
        if is_null || oid != BOOLOID {
            None
        } else {
            match datum {
                Datum::Bool(b) => Some(*b),
                _ => None,
            }
        }
    }
}

impl IntoDatum for bool {
    open spec fn encoded(&self) -> Option<DatumView> {
        Some(DatumView::Bool(*self))
    }

    open spec fn type_oid_spec() -> u32 {
        BOOLOID
    }

    fn into_datum(self) -> (r: Option<Datum>)
        ensures
            r.deep_view() == self.encoded(),
    {
        Some(Datum::Bool(self))
    }

    fn type_oid() -> (r: u32)
        ensures
            r == Self::type_oid_spec(),
    {
        BOOLOID
    }
}

impl FromDatum for String {
    open spec fn decodes_from(&self, datum: DatumView, oid: u32) -> bool {
        oid == TEXTOID && datum == DatumView::Text(self@)
    }

    open spec fn decodable(datum: DatumView, oid: u32) -> bool {
        oid == TEXTOID && (datum matches DatumView::Text(_))
    }

    fn from_datum(datum: &Datum, is_null: bool, oid: u32) -> (r: Option<Self>)
        ensures
            is_null ==> r is None,
            !is_null ==> (r is Some <==> Self::decodable(datum@, oid)),
            !is_null && r is Some ==> r->0.decodes_from(datum@, oid),
    {
        if is_null || oid != TEXTOID {
            None
        } else {
            match datum {
                Datum::Text(s) => Some(s.clone()),
                _ => None,
            }
        }
    }
}

impl IntoDatum for String {
    open spec fn encoded(&self) -> Option<DatumView> {
        Some(DatumView::Text(self@))
    }

    open spec fn type_oid_spec() -> u32 {
        TEXTOID
    }

    fn into_datum(self) -> (r: Option<Datum>)
        ensures
            r.deep_view() == self.encoded(),
    {
        Some(Datum::Text(self))
    }

    fn type_oid() -> (r: u32)
        ensures
            r == Self::type_oid_spec(),
    {
        TEXTOID
    }
}

} // verus!
