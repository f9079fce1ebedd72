//! Cursors: named, resumable handles over server-side queries.
//!
//! A [`SpiCursor`] refers to an open portal by its name.  Fetching advances
//! the portal forward and hands the retrieved rows over as a fresh tuple
//! table; [`SpiCursor::into_name`] gives the name up without closing the
//! portal, so a later, independent connection scope of the same transaction
//! can re-acquire it with [`crate::client::SpiClient::find_cursor`] and
//! continue where it left off; [`SpiCursor::close`] consumes the cursor and
//! releases the portal at once.  A cursor never closed goes away with the
//! engine's transaction, outside this layer.

use vstd::prelude::*;

use crate::client::SpiClient;
use crate::client::spec_enter;
use crate::client::spec_exit;
use crate::client::spec_result_table;
use crate::engine::EngineView;
use crate::engine::lemma_portal_index_is;
use crate::engine::spec_cursor_close;
use crate::engine::spec_cursor_fetch;
use crate::status::SpiError;
use crate::status::SpiOk;
use crate::table::SpiTupleTable;
use vstd::arithmetic::div_mod::lemma_basic_div;
use vstd::arithmetic::div_mod::lemma_div_plus_one;
use vstd::arithmetic::div_mod::lemma_mod_sub_multiples_vanish;
use vstd::arithmetic::div_mod::lemma_small_mod;

verus! {

/// The batches that repeated forward fetches of size `b` cut a row sequence
/// into: full batches of `b`, then whatever is left.
pub open spec fn spec_fetch_batches<A>(rows: Seq<A>, b: int) -> Seq<Seq<A>>
    decreases rows.len(),
    when b >= 1
{
    if rows.len() == 0 {
        Seq::empty()
    } else if rows.len() <= b {
        seq![rows]
    } else {
        seq![rows.take(b)] + spec_fetch_batches(rows.skip(b), b)
    }
}

/// Fetching a query of `R` rows in batches of `B` yields exactly
/// `ceil(R / B)` batches; they concatenate, without overlap, to the full
/// result in order; and the final batch has `R mod B` rows — or `B`, when
/// `B` divides `R`.
pub proof fn lemma_cursor_batches<A>(rows: Seq<A>, b: int)
    requires
        b >= 1,
    ensures
        spec_fetch_batches(rows, b).len() == (rows.len() + b - 1) / b,
        spec_fetch_batches(rows, b).flatten() == rows,
        rows.len() > 0 ==> spec_fetch_batches(rows, b).last().len() == (
        if rows.len() as int % b == 0 {
            b as int
        } else {
            rows.len() as int % b
        }),
    decreases rows.len(),
{
    let batches = spec_fetch_batches(rows, b);
    let n = rows.len() as int;
    if n == 0 {
        assert(((0 + b - 1) / b) == 0) by {
            lemma_basic_div(b - 1, b);
        }
        assert(batches.flatten() =~= rows);
    } else if n <= b {
        assert(batches.len() == 1);
        assert((n + b - 1) / b == 1) by {
            lemma_div_plus_one(n - 1, b);
            lemma_basic_div(n - 1, b);
            assert(1 + (n - 1) / b == (b + (n - 1)) / b);
            assert(n + b - 1 == b + (n - 1));
        }
        batches.lemma_flatten_one_element();
        assert(batches.flatten() == rows);
        if n < b {
            lemma_small_mod(n as nat, b as nat);
        } else {
            assert(n % b == 0) by {
                lemma_mod_sub_multiples_vanish(n, b);
                lemma_small_mod(0nat, b as nat);
                assert((-b + n) % b == 0);
            }
        }
    } else {
        let rest = rows.skip(b);
        lemma_cursor_batches(rest, b);
        assert(batches == seq![rows.take(b)] + spec_fetch_batches(rest, b));
        assert((n + b - 1) / b == 1 + (n - b + b - 1) / b) by {
            lemma_div_plus_one(n - b + b - 1 - b, b);
            assert(1 + (n - 1 - b) / b == (b + (n - 1 - b)) / b);
            assert(b + (n - 1 - b) == n - 1);
            lemma_div_plus_one(n - 1, b);
            assert(1 + (n - 1) / b == (b + (n - 1)) / b);
        }
        assert(batches.flatten() == rows) by {
            assert(batches.first() == rows.take(b));
            assert(batches.drop_first() =~= spec_fetch_batches(rest, b));
            assert(batches.flatten() == rows.take(b) + spec_fetch_batches(rest, b).flatten());
            assert(rows.take(b) + rest =~= rows);
        }
        assert(n % b == (n - b) % b) by {
            lemma_mod_sub_multiples_vanish(n, b);
        }
        assert(batches.last() == spec_fetch_batches(rest, b).last());
    }
}

/// Each forward fetch takes exactly the next batch: from position `pos`, a
/// fetch of `b` rows returns the head of the remaining rows' batch sequence
/// and leaves the rest of it for the fetches after.
pub proof fn lemma_fetch_takes_next_batch<A>(rows: Seq<A>, pos: int, b: int)
    requires
        0 <= pos < rows.len(),
        b >= 1,
    ensures
        ({
            let k = if b <= rows.len() - pos {
                b
            } else {
                rows.len() - pos
            };
            spec_fetch_batches(rows.skip(pos), b) == seq![rows.subrange(pos, pos + k)]
                + spec_fetch_batches(rows.skip(pos + k), b)
        }),
{
    let rem = rows.skip(pos);
    let k = if b <= rows.len() - pos {
        b
    } else {
        rows.len() - pos
    };
    if rem.len() <= b {
        assert(k == rows.len() - pos);
        assert(rem =~= rows.subrange(pos, pos + k));
        assert(rows.skip(pos + k).len() == 0);
        assert(spec_fetch_batches(rows.skip(pos + k), b) =~= Seq::<Seq<A>>::empty());
        assert(seq![rows.subrange(pos, pos + k)] + Seq::<Seq<A>>::empty() =~= seq![rem]);
    } else {
        assert(k == b);
        assert(rem.take(b) =~= rows.subrange(pos, pos + b));
        assert(rem.skip(b) =~= rows.skip(pos + b));
    }
}

/// A named portal survives connection scope boundaries: entering or leaving
/// a scope leaves every open portal in place, name and position included —
/// so a cursor re-acquired by name in a later scope of the same transaction
/// continues fetching from where it left off.
pub proof fn lemma_cursor_survives_scopes(e: EngineView, name: Seq<char>)
    requires
        e.wf(),
        e.has_portal(name),
    ensures
        spec_enter(e).has_portal(name),
        spec_exit(e).has_portal(name),
        spec_enter(e).portal_at(name) == e.portal_at(name),
        spec_exit(e).portal_at(name) == e.portal_at(name),
{
    let i = e.portal_index(name);
    assert(0 <= i < e.portals.len() && e.portals[i].name == name);
    let en = spec_enter(e);
    let ex = spec_exit(e);
    assert(en.portals == e.portals);
    assert(ex.portals == e.portals);
    assert(en.has_portal(name));
    assert(ex.has_portal(name));
    let j = en.portal_index(name);
    assert(0 <= j < e.portals.len() && e.portals[j].name == name);
    lemma_portal_index_is(e, name, j);
    assert(en.portal_at(name) == e.portals[j]);
    let m = ex.portal_index(name);
    assert(0 <= m < e.portals.len() && e.portals[m].name == name);
    lemma_portal_index_is(e, name, m);
    assert(ex.portal_at(name) == e.portals[m]);
    lemma_portal_index_is(e, name, i);
}

/// Closing a cursor and then fetching by its name is an error, never a
/// crash: the closed portal is gone, and a fetch for a name no portal
/// carries reports just that.
pub proof fn lemma_fetch_after_close(e: EngineView, name: Seq<char>, count: int)
    requires
        e.wf(),
    ensures
        !spec_cursor_close(e, name).has_portal(name),
        spec_cursor_fetch(spec_cursor_close(e, name), name, count).1 == false,
{
    crate::engine::lemma_close_removes(e, name);
}

/// A handle on an open portal, by name.
#[derive(Debug)]
pub struct SpiCursor {
    /// The engine-assigned or caller-chosen portal name.
    pub name: String,
}

impl View for SpiCursor {
    type V = Seq<char>;

    open spec fn view(&self) -> Seq<char> {
        self.name@
    }
}

impl SpiCursor {
    /// Fetches up to `count` rows forward from the cursor and returns them
    /// as a fresh tuple table — fewer than `count` once the cursor nears its
    /// end, and none at all past it.  Fetching from a cursor whose portal is
    /// gone, closed or never opened, is a [`SpiError::CursorNotFound`]
    /// error, never a crash.
    pub fn fetch(&mut self, client: &mut SpiClient, count: i64) -> (r: Result<
        SpiTupleTable,
        SpiError,
    >)
        requires
            old(client).wf(),
        ensures
            final(client).wf(),
            final(self)@ == old(self)@,
            ({
                let (e2, found) = spec_cursor_fetch(old(client)@, old(self)@, count as int);
                &&& final(client)@ == (EngineView { slot: None, ..e2 })
                &&& match r {
                    Ok(t) => found && t@ == spec_result_table(SpiOk::Fetch, e2) && t@.wf(),
                    Err(e) => !found && e == SpiError::CursorNotFound,
                }
            }),
    {
        let ghost oldv = client@;
        client.engine.clear_slot();
        proof {
            crate::engine::lemma_fetch_ignores_slot(oldv, self@, count as int);
        }
        let found = client.engine.cursor_fetch(self.name.as_str(), true, count);
        if !found {
            return Err(SpiError::CursorNotFound);
        }
        let (slot, processed) = client.engine.take_result();
        let t = SpiTupleTable::from_result(SpiOk::Fetch, slot, processed);
        proof {
            assert(t@ =~~= spec_result_table(
                SpiOk::Fetch,
                spec_cursor_fetch(oldv, self@, count as int).0,
            ));
        }
        Ok(t)
    }

    /// Consumes the cursor and returns the portal's name without closing it,
    /// so a later scope of the same transaction can find it again and keep
    /// fetching from where this one stopped.
    pub fn into_name(self) -> (r: String)
        ensures
            r@ == self@,
    {
        self.name
    }

    /// Consumes the cursor and releases its portal at once.  Closing is not
    /// mandatory: a portal still open at the end of the engine's transaction
    /// is closed by the engine.
    pub fn close(self, client: &mut SpiClient)
        requires
            old(client).wf(),
        ensures
            final(client).wf(),
            final(client)@ == spec_cursor_close(old(client)@, self@),
            !final(client)@.has_portal(self@),
    {
        let ghost oldv = client@;
        let _ = client.engine.cursor_close(self.name.as_str());
        proof {
            let e2 = spec_cursor_close(oldv, self@);
            if oldv.has_portal(self@) {
                let pi = oldv.portal_index(self@);
                if e2.has_portal(self@) {
                    let j = e2.portal_index(self@);
                    let oj = if j < pi {
                        j
                    } else {
                        j + 1
                    };
                    assert(e2.portals[j] == oldv.portals[oj]);
                    assert(oldv.portals[oj].name == oldv.portals[pi].name);
                    assert(false);
                }
            }
        }
    }
}

} // verus!
