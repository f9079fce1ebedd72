//! The engine's fixed-length name type.
//!
//! The engine stores identifiers in a fixed 64-byte field: the name's ASCII
//! bytes, terminated and padded by NUL bytes.  [`Name`] holds such a field
//! as a value and converts it to and from text.

use vstd::prelude::*;
use vstd::string::StrSliceExecFns;

use crate::datum::Datum;
use crate::datum::DatumView;
use crate::datum::FromDatum;
use crate::datum::IntoDatum;
use crate::datum::NAMEOID;

verus! {

/// The engine's name fields are exactly this long, NUL included.
pub const NAME_BYTES_LEN: usize = 64;

/// The raw bytes of one name field.
pub type NameBytes = [u8; NAME_BYTES_LEN];

/// One fixed-length engine name.
///
/// Every `Name` upholds the field's shape as the engine guarantees it: the
/// bytes include a NUL terminator, and the content before the first NUL is
/// ASCII — so reading one character per content byte is exactly the text the
/// bytes spell.  Values enter only through [`Name::from_bytes`] and the
/// [`FromDatum`] gate, which reject anything else.
pub struct Name(NameBytes);

impl View for Name {
    type V = Seq<u8>;

    closed spec fn view(&self) -> Seq<u8> {
        self.0@
    }
}

/// The shape the engine guarantees of a name field, and this type upholds:
/// a NUL terminator within the field, and ASCII content before it.
pub open spec fn name_field_wf(bytes: Seq<u8>) -> bool {
    &&& first_nul(bytes) < bytes.len()
    &&& forall|i: int| 0 <= i < first_nul(bytes) ==> (#[trigger] bytes[i]) < 128
}

/// The index of the first NUL byte, or the length when there is none.
pub open spec fn first_nul(bytes: Seq<u8>) -> int
    decreases bytes.len(),
{
    if bytes.len() == 0 {
        0
    } else if bytes[0] == 0 {
        0
    } else {
        1 + first_nul(bytes.drop_first())
    }
}

/// A NUL at `j` with none before it is the first NUL.
pub proof fn lemma_first_nul_at(bytes: Seq<u8>, j: int)
    requires
        0 <= j < bytes.len(),
        bytes[j] == 0,
        forall|k: int| 0 <= k < j ==> bytes[k] != 0,
    ensures
        first_nul(bytes) == j,
    decreases bytes.len(),
{
    if bytes[0] != 0 {
        assert(forall|k: int|
            0 <= k < bytes.drop_first().len() ==> #[trigger] bytes.drop_first()[k] == bytes[k + 1]);
        lemma_first_nul_at(bytes.drop_first(), j - 1);
    }
}

/// No NUL anywhere puts the first NUL at the length.
pub proof fn lemma_first_nul_none(bytes: Seq<u8>)
    requires
        forall|k: int| 0 <= k < bytes.len() ==> bytes[k] != 0,
    ensures
        first_nul(bytes) == bytes.len(),
    decreases bytes.len(),
{
    if bytes.len() > 0 {
        assert(forall|k: int|
            0 <= k < bytes.drop_first().len() ==> #[trigger] bytes.drop_first()[k] == bytes[k + 1]);
        lemma_first_nul_none(bytes.drop_first());
    }
}

/// The name field that holds a text: its characters' code points as bytes,
/// then NUL padding.
pub open spec fn name_bytes_of(s: Seq<char>) -> Seq<u8> {
    Seq::new(
        NAME_BYTES_LEN as nat,
        |i: int|
            if i < s.len() {
                s[i] as u8
            } else {
                0
            },
    )
}

/// The text a name field holds: its bytes before the first NUL, as
/// characters.
pub open spec fn name_text_of(bytes: Seq<u8>) -> Seq<char> {
    Seq::new(first_nul(bytes) as nat, |i: int| bytes[i] as char)
}

/// Whether a text fits a name field's content bytes: every character a
/// nonzero ASCII code point.
pub open spec fn name_text_ok(s: Seq<char>) -> bool {
    forall|i: int| 0 <= i < s.len() ==> ((#[trigger] s[i]) as int > 0 && (s[i] as int) < 128)
}

/// Relies on `String::push`: appends exactly the one character.
#[verifier::external_body]
fn push_char(s: &mut String, c: char)
    ensures
        final(s)@ == old(s)@.push(c),
{
    s.push(c);
}

impl Name {
    #[verifier::type_invariant]
    spec fn type_inv(self) -> bool {
        name_field_wf(self.0@)
    }

    /// Takes a raw name field as a `Name`, when it has the guaranteed shape:
    /// a NUL terminator somewhere in the field and ASCII content before it.
    pub fn from_bytes(bytes: NameBytes) -> (r: Option<Name>)
        ensures
            r is Some <==> name_field_wf(bytes@),
            r matches Some(n) ==> n@ == bytes@,
    {
        let mut j: usize = 0;
        while j < NAME_BYTES_LEN
            invariant
                j <= NAME_BYTES_LEN,
                bytes@.len() == NAME_BYTES_LEN,
                forall|k: int| 0 <= k < j ==> (#[trigger] bytes@[k]) != 0,
                forall|k: int| 0 <= k < j ==> (#[trigger] bytes@[k]) < 128,
            decreases NAME_BYTES_LEN - j,
        {
            let b = bytes[j];
            if b == 0 {
                proof {
                    lemma_first_nul_at(bytes@, j as int);
                }
                return Some(Name(bytes));
            }
            if b >= 128 {
                proof {
                    if name_field_wf(bytes@) {
                        lemma_first_nul_ge(bytes@, j as int);
                    }
                }
                return None;
            }
            j = j + 1;
        }
        proof {
            lemma_first_nul_none(bytes@);
        }
        None
    }

    /// The name's text: its bytes before the first NUL, read as characters.
    /// The content is ASCII — the type upholds that — so this is exactly the
    /// text the bytes spell.
    pub fn as_str(&self) -> (r: String)
        ensures
            r@ == name_text_of(self@),
            name_text_ok(r@),
    {
        proof {
            use_type_invariant(self);
        }
        let mut out = String::new();
        let mut j: usize = 0;
        while j < NAME_BYTES_LEN
            invariant
                j <= NAME_BYTES_LEN,
                self@.len() == NAME_BYTES_LEN,
                name_field_wf(self@),
                out@.len() == j,
                forall|k: int| 0 <= k < j ==> self@[k] != 0,
                forall|k: int| 0 <= k < j ==> out@[k] == (self@[k] as char),
            decreases NAME_BYTES_LEN - j,
        {
            let b = self.0[j];
            if b == 0 {
                proof {
                    lemma_first_nul_at(self@, j as int);
                    assert(out@ =~= name_text_of(self@));
                }
                return out;
            }
            push_char(&mut out, b as char);
            j = j + 1;
        }
        proof {
            lemma_first_nul_none(self@);
            assert(out@ =~= name_text_of(self@));
        }
        out
    }
}

/// No NUL anywhere up to and including `j` puts the first NUL past `j`.
proof fn lemma_first_nul_ge(bytes: Seq<u8>, j: int)
    requires
        0 <= j < bytes.len(),
        forall|k: int| 0 <= k <= j ==> (#[trigger] bytes[k]) != 0,
    ensures
        first_nul(bytes) > j,
    decreases j,
{
    if j > 0 {
        assert(forall|k: int|
            0 <= k < bytes.drop_first().len() ==> #[trigger] bytes.drop_first()[k] == bytes[k + 1]);
        lemma_first_nul_ge(bytes.drop_first(), j - 1);
    } else {
        lemma_first_nul_nonneg(bytes.drop_first());
    }
}

/// A first-NUL index is never negative.
proof fn lemma_first_nul_nonneg(bytes: Seq<u8>)
    ensures
        first_nul(bytes) >= 0,
    decreases bytes.len(),
{
    if bytes.len() > 0 && bytes[0] != 0 {
        lemma_first_nul_nonneg(bytes.drop_first());
    }
}

impl FromDatum for Name {
    /// A name decodes from a text datum under the name type identifier when
    /// the text fits the field with its terminator: fewer than 64
    /// characters, each a nonzero ASCII code point.
    open spec fn decodable(datum: DatumView, oid: u32) -> bool {
        &&& oid == NAMEOID
        &&& (datum matches DatumView::Text(s) && s.len() < NAME_BYTES_LEN && name_text_ok(s))
    }

    open spec fn decodes_from(&self, datum: DatumView, oid: u32) -> bool {
        &&& Self::decodable(datum, oid)
        &&& (datum matches DatumView::Text(s) && self@ == name_bytes_of(s))
    }

    fn from_datum(datum: &Datum, is_null: bool, oid: u32) -> (r: Option<Self>)
        ensures
            is_null ==> r is None,
            !is_null ==> (r is Some <==> Self::decodable(datum@, oid)),
            !is_null && r is Some ==> r->0.decodes_from(datum@, oid),
    {
        if is_null || oid != NAMEOID {
            return None;
        }
        match datum {
            Datum::Text(s) => {
                let st = s.as_str();
                if !st.is_ascii() {
                    proof {
                        if name_text_ok(s@) {
                            assert forall|i: int|
                                0 <= i < s@.len() implies '\0' <= #[trigger] s@[i]
                                <= '\u{7f}' by {
                                assert((s@[i]) as int > 0 && ((s@[i]) as int) < 128);
                            }
                            assert(vstd::utf8::is_ascii_chars(s@));
                        }
                    }
                    return None;
                }
                let n = st.unicode_len();
                if n >= NAME_BYTES_LEN {
                    return None;
                }
                let mut bytes: NameBytes = [0; NAME_BYTES_LEN];
                let mut j: usize = 0;
                while j < n
                    invariant
                        j <= n,
                        n == st@.len(),
                        st@ == s@,
                        datum@ == DatumView::Text(s@),
                        vstd::string::is_ascii(st),
                        n < NAME_BYTES_LEN,
                        bytes@.len() == NAME_BYTES_LEN,
                        forall|k: int| 0 <= k < j ==> bytes@[k] == (s@[k] as u8),
                        forall|k: int| 0 <= k < j ==> ((#[trigger] s@[k]) as int > 0 && ((s@[k]) as int) < 128),
                        forall|k: int| j <= k < NAME_BYTES_LEN ==> bytes@[k] == 0,
                    decreases n - j,
                {
                    let b = st.get_ascii(j);
                    if b == 0 {
                        proof {
                            assert(vstd::utf8::is_ascii_chars(s@));
                            assert('\0' <= s@[j as int] <= '\u{7f}');
                            assert((s@[j as int]) as u8 == 0);
                            assert(((s@[j as int]) as int) == 0);
                            assert(!name_text_ok(s@));
                            assert(datum@ == DatumView::Text(s@));
                            assert(!Self::decodable(datum@, oid));
                        }
                        return None;
                    }
                    bytes[j] = b;
                    j = j + 1;
                }
                proof {
                    assert forall|k: int| 0 <= k < n implies (#[trigger] bytes@[k]) != 0
                        && bytes@[k] < 128 by {
                        assert(bytes@[k] == (s@[k] as u8));
                        assert((s@[k]) as int > 0 && ((s@[k]) as int) < 128);
                    }
                    lemma_first_nul_at(bytes@, n as int);
                    assert(name_field_wf(bytes@));
                }
                let name = Name(bytes);
                proof {
                    assert(name@ =~= name_bytes_of(s@));
                }
                Some(name)
            },
            _ => None,
        }
    }
}

impl IntoDatum for Name {
    open spec fn encoded(&self) -> Option<DatumView> {
        Some(DatumView::Text(name_text_of(self@)))
    }

    open spec fn type_oid_spec() -> u32 {
        NAMEOID
    }

    fn into_datum(self) -> (r: Option<Datum>)
        ensures
            r.deep_view() == self.encoded(),
    {
        Some(Datum::Text(self.as_str()))
    }

    fn type_oid() -> (r: u32)
        ensures
            r == Self::type_oid_spec(),
    {
        NAMEOID
    }
}

} // verus!
