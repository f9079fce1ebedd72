//! Argument binding for parameterized statements.
//!
//! The engine interface takes arguments as three parallel sequences: type
//! identifiers, raw value slots, and one null-flag byte per slot.  A
//! distinguished byte says "argument present", another says "argument is
//! null"; the value slot of a null argument carries the engine-defined zero
//! sentinel and is never read back.  Decoding mirrors the encoding, so a null
//! argument arrives on the other side as an actual null, never as a sentinel
//! value of its type.

use vstd::prelude::*;

use crate::datum::Datum;
use crate::datum::DatumView;

verus! {

/// The null-flag byte that marks an argument as present (an ASCII space).
pub const FLAG_PRESENT: u8 = 32;

/// The null-flag byte that marks an argument as null (an ASCII `n`).
pub const FLAG_NULL: u8 = 110;

/// The type-identifier sequence of an argument list.
pub open spec fn arg_types(args: Seq<(u32, Option<DatumView>)>) -> Seq<u32> {
    Seq::new(args.len(), |i: int| args[i].0)
}

/// The value-slot sequence of an argument list: the argument's datum where
/// present, the zero sentinel where null.
pub open spec fn arg_values(args: Seq<(u32, Option<DatumView>)>) -> Seq<DatumView> {
    Seq::new(
        args.len(),
        |i: int|
            match args[i].1 {
                Some(d) => d,
                None => DatumView::Int(0),
            },
    )
}

/// The null-flag sequence of an argument list.
pub open spec fn arg_nulls(args: Seq<(u32, Option<DatumView>)>) -> Seq<u8> {
    Seq::new(
        args.len(),
        |i: int|
            if args[i].1 is Some {
                FLAG_PRESENT
            } else {
                FLAG_NULL
            },
    )
}

/// What the engine reads back from parallel value and flag sequences: no
/// value where the flag byte says null, the value slot otherwise.
pub open spec fn decoded_args(values: Seq<DatumView>, nulls: Seq<u8>) -> Seq<
    Option<DatumView>,
>
    recommends
        values.len() == nulls.len(),
{
    Seq::new(
        values.len(),
        |i: int|
            if nulls[i] == FLAG_NULL {
                None
            } else {
                Some(values[i])
            },
    )
}

/// Null arguments survive the parallel-sequence encoding: decoding the
/// sequences built from an argument list yields exactly the original
/// optional values.  In particular a null argument decodes to null, not to
/// the sentinel that sits in its value slot.
pub proof fn lemma_arg_binding_round_trip(args: Seq<(u32, Option<DatumView>)>)
    ensures
        decoded_args(arg_values(args), arg_nulls(args)) == Seq::new(
            args.len(),
            |i: int| args[i].1,
        ),
{
    assert(decoded_args(arg_values(args), arg_nulls(args)) =~= Seq::new(
        args.len(),
        |i: int| args[i].1,
    ));
}

/// Builds the three parallel argument sequences for the engine interface.
pub fn build_args(args: Vec<(u32, Option<Datum>)>) -> (r: (Vec<u32>, Vec<Datum>, Vec<u8>))
    ensures
        r.0@ == arg_types(args.deep_view()),
        r.1.deep_view() == arg_values(args.deep_view()),
        r.2@ == arg_nulls(args.deep_view()),
{
    let ghost argsv = args.deep_view();
    let mut argtypes: Vec<u32> = Vec::new();
    let mut datums: Vec<Datum> = Vec::new();
    let mut nulls: Vec<u8> = Vec::new();
    let n = args.len();
    let mut j: usize = 0;
    while j < n
        invariant
            n == args.len(),
            argsv == args.deep_view(),
            j <= n,
            argtypes@.len() == j,
            datums@.len() == j,
            nulls@.len() == j,
            forall|k: int| 0 <= k < j ==> argtypes@[k] == arg_types(argsv)[k],
            forall|k: int| 0 <= k < j ==> (#[trigger] datums@[k])@ == arg_values(argsv)[k],
            forall|k: int| 0 <= k < j ==> nulls@[k] == arg_nulls(argsv)[k],
        decreases n - j,
    {
        let (argtype, datum) = &args[j];
        proof {
            assert(argsv[j as int] == (args@[j as int].0, args@[j as int].1.deep_view()));
        }
        argtypes.push(*argtype);
        match datum {
            Some(d) => {
                datums.push(d.clone());
                nulls.push(FLAG_PRESENT);
            },
            None => {
                datums.push(Datum::null_sentinel());
                nulls.push(FLAG_NULL);
            },
        }
        j = j + 1;
    }
    proof {
        assert(argtypes@ =~= arg_types(argsv));
        assert(datums.deep_view() =~= arg_values(argsv));
        assert(nulls@ =~= arg_nulls(argsv));
    }
    (argtypes, datums, nulls)
}

} // verus!
