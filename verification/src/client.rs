//! Connection scopes and query execution.
//!
//! [`Spi`] manages connection scopes over an explicit [`Engine`] value:
//! every successful enter of a scope is matched by exactly one exit, scopes
//! nest, and a value produced inside a scope is moved out — ownership is the
//! copy into the caller's context.  [`SpiClient`] stands for "currently
//! connected": it owns the engine for the duration of a scope and issues
//! statements, opens cursors, and finds them by name.

use vstd::prelude::*;
use vstd::string::StringExecFns;

use crate::args::build_args;
use crate::args::decoded_args;
use crate::args::lemma_arg_binding_round_trip;
use crate::cursor::SpiCursor;
use crate::datum::Datum;
use crate::datum::DatumView;
use crate::engine::Engine;
use crate::engine::EngineView;
use crate::engine::spec_cursor_open;
use crate::engine::spec_execute;
use crate::status::SpiError;
use crate::status::SpiOk;
use crate::status::check_status;
use crate::status::err_of_code;
use crate::status::ok_of_code;
use crate::status::recognized;
use crate::table::SpiTupleTable;
use crate::table::SpiTupleTableView;

verus! {

/// The engine state one scope deeper.
pub open spec fn spec_enter(e: EngineView) -> EngineView {
    EngineView { depth: e.depth + 1, ..e }
}

/// The engine state one scope shallower.
pub open spec fn spec_exit(e: EngineView) -> EngineView {
    EngineView { depth: e.depth - 1, ..e }
}

/// The mathematical value of an optional argument list.
pub open spec fn args_view(args: Option<Vec<(u32, Option<Datum>)>>) -> Option<
    Seq<(u32, Option<DatumView>)>,
> {
    match args {
        Some(v) => Some(v.deep_view()),
        None => None,
    }
}

/// The optional datums of an optional argument list; no list binds no
/// arguments.
pub open spec fn spec_args_datums(args: Option<Seq<(u32, Option<DatumView>)>>) -> Seq<
    Option<DatumView>,
> {
    match args {
        Some(a) => Seq::new(a.len(), |i: int| a[i].1),
        None => Seq::empty(),
    }
}

/// The row limit handed to the engine; no limit is the engine's zero.
pub open spec fn spec_limit_of(limit: Option<i64>) -> int {
    match limit {
        Some(l) => l as int,
        None => 0,
    }
}

/// The tuple table built from the result and row-count slots after a call.
pub open spec fn spec_result_table(status: SpiOk, e: EngineView) -> SpiTupleTableView {
    SpiTupleTableView {
        status: status,
        desc: match e.slot {
            Some(rs) => Some(rs.desc),
            None => None,
        },
        rows: match e.slot {
            Some(rs) => rs.rows,
            None => Seq::empty(),
        },
        size: e.processed,
        current: -1,
    }
}

/// Clearing the result slot beforehand does not change what an execute call
/// does: the slot is write-only to the call.
pub proof fn lemma_execute_ignores_slot(
    e: EngineView,
    text: Seq<char>,
    args: Seq<Option<DatumView>>,
    limit: int,
)
    ensures
        spec_execute(EngineView { slot: None, ..e }, text, args, limit) == spec_execute(
            e,
            text,
            args,
            limit,
        ),
{
    let cleared = EngineView { slot: None, ..e };
    let (r1, c1) = spec_execute(cleared, text, args, limit);
    let (r2, c2) = spec_execute(e, text, args, limit);
    assert(r1 =~~= r2);
}

/// The full effect of one statement issued through a connected client:
/// clear the slot, call the engine, translate the status, and take the
/// result slot into an owned tuple table.
pub open spec fn spec_client_execute(
    e: EngineView,
    text: Seq<char>,
    args: Seq<Option<DatumView>>,
    limit: int,
) -> (EngineView, Result<SpiTupleTableView, SpiError>) {
    let (e2, code) = spec_execute(e, text, args, limit);
    if code > 0 {
        (EngineView { slot: None, ..e2 }, Ok(spec_result_table(ok_of_code(code), e2)))
    } else {
        (EngineView { slot: None, ..e2 }, Err(err_of_code(-code)))
    }
}

/// What a scope's work returns does not depend on how deeply the scope is
/// nested: with the same installed statements and tables, a statement gives
/// the same outcome at every positive depth.  A value produced deep inside
/// nested scopes and returned all the way out therefore equals the value a
/// single unnested scope would produce.
pub proof fn lemma_nesting_independent(
    e1: EngineView,
    e2: EngineView,
    text: Seq<char>,
    args: Seq<Option<DatumView>>,
    limit: int,
)
    requires
        e1.wf(),
        e2.wf(),
        e1.depth > 0,
        e2.depth > 0,
        e1.statements == e2.statements,
        e1.tables == e2.tables,
    ensures
        spec_client_execute(e1, text, args, limit).1 == spec_client_execute(e2, text, args, limit).1,
{
    if e1.has_statement(text) {
        let i = e1.statement_index(text);
        assert(0 <= i < e1.statements.len() && e1.statements[i].text == text);
        crate::engine::lemma_statement_index_is(e1, text, i);
        crate::engine::lemma_statement_index_is(e2, text, i);
        match e1.statement_action(text) {
            crate::engine::StatementActionView::Rows(_, _) => {},
            crate::engine::StatementActionView::ReadTable(tname) => {
                lemma_same_tables(e1, e2, tname);
            },
            crate::engine::StatementActionView::Insert(tname) => {
                lemma_same_tables(e1, e2, tname);
            },
        }
    } else {
        if e2.has_statement(text) {
            let i = e2.statement_index(text);
            assert(0 <= i < e1.statements.len() && e1.statements[i].text == text);
        }
    }
}

/// Two engines with equal table sequences resolve every table name alike.
proof fn lemma_same_tables(e1: EngineView, e2: EngineView, tname: Seq<char>)
    requires
        e1.wf(),
        e2.wf(),
        e1.tables == e2.tables,
    ensures
        e1.has_table(tname) == e2.has_table(tname),
        e1.has_table(tname) ==> e1.table_index(tname) == e2.table_index(tname)
            && e1.table_at(tname) == e2.table_at(tname),
{
    if e1.has_table(tname) {
        let t = e1.table_index(tname);
        assert(0 <= t < e1.tables.len() && e1.tables[t].name == tname);
        crate::engine::lemma_table_index_is(e1, tname, t);
        crate::engine::lemma_table_index_is(e2, tname, t);
    } else {
        if e2.has_table(tname) {
            let t = e2.table_index(tname);
            assert(0 <= t < e1.tables.len() && e1.tables[t].name == tname);
        }
    }
}

/// A null argument bound into a parameterized insert arrives on the other
/// side as an actual null: the row the insert appends holds exactly the
/// caller's optional datums — in particular `None` where the caller passed
/// no value — and never the sentinel that sits in a null argument's value
/// slot.
pub proof fn lemma_insert_preserves_nulls(
    e: EngineView,
    text: Seq<char>,
    tname: Seq<char>,
    args: Seq<(u32, Option<DatumView>)>,
    limit: int,
)
    requires
        e.wf(),
        e.depth > 0,
        e.has_statement(text),
        e.statement_action(text) == crate::engine::StatementActionView::Insert(tname),
        e.has_table(tname),
        e.table_at(tname).desc.ncols() == args.len(),
        e.table_at(tname).rows.len() < crate::engine::MAX_ROWS,
    ensures
        ({
            // what arrives through the parallel value and null-flag sequences
            let sent = decoded_args(crate::args::arg_values(args), crate::args::arg_nulls(args));
            let (e2, code) = spec_execute(e, text, sent, limit);
            &&& code == 7
            &&& e2.tables[e.table_index(tname)].rows == e.table_at(tname).rows.push(
                Seq::new(args.len(), |i: int| args[i].1),
            )
            &&& forall|i: int|
                0 <= i < args.len() && args[i].1 is None
                    ==> e2.tables[e.table_index(tname)].rows.last()[i] is None
        }),
{
    lemma_arg_binding_round_trip(args);
    let sent = decoded_args(crate::args::arg_values(args), crate::args::arg_nulls(args));
    assert(sent == Seq::new(args.len(), |i: int| args[i].1));
    let (e2, code) = spec_execute(e, text, sent, limit);
    let ti = e.table_index(tname);
    assert(e2.tables[ti].rows == e.table_at(tname).rows.push(sent));
}

/// Runs one statement against the engine: the defensive clear of the result
/// slot, the call itself, status translation, and the handoff of the result
/// slot into an owned [`SpiTupleTable`].
fn execute_on(
    engine: &mut Engine,
    query: &str,
    read_only: bool,
    limit: Option<i64>,
    args: Option<Vec<(u32, Option<Datum>)>>,
) -> (r: Result<SpiTupleTable, SpiError>)
    requires
        old(engine)@.wf(),
    ensures
        final(engine)@.wf(),
        ({
            let (ef, rf) = spec_client_execute(
                old(engine)@,
                query@,
                spec_args_datums(args_view(args)),
                spec_limit_of(limit),
            );
            &&& final(engine)@ == ef
            &&& match (r, rf) {
                (Ok(t), Ok(tv)) => t@ == tv && t@.wf(),
                (Err(a), Err(b)) => a == b,
                _ => false,
            }
        }),
{
    let ghost oldv = engine@;
    let ghost argsd = spec_args_datums(args_view(args));
    engine.clear_slot();
    let lim: i64 = match limit {
        Some(l) => l,
        None => 0,
    };
    let code = match args {
        Some(a) => {
            let ghost av = a.deep_view();
            let (argtypes, values, nulls) = build_args(a);
            proof {
                lemma_arg_binding_round_trip(av);
                assert(decoded_args(values.deep_view(), nulls@) =~= argsd);
            }
            engine.execute_with_args(query, &argtypes, &values, &nulls, read_only, lim)
        },
        None => {
            proof {
                assert(argsd =~= Seq::<Option<DatumView>>::empty());
            }
            engine.execute(query, read_only, lim)
        },
    };
    proof {
        lemma_execute_ignores_slot(oldv, query@, argsd, lim as int);
    }
    let ok = match check_status(code) {
        Ok(ok) => ok,
        Err(e) => {
            return Err(e);
        },
    };
    let (slot, processed) = engine.take_result();
    let t = SpiTupleTable::from_result(ok, slot, processed);
    proof {
        assert(t@ =~~= spec_result_table(ok, spec_execute(oldv, query@, argsd, lim as int).0));
    }
    Ok(t)
}

/// A connected client: the holder of the engine for the duration of one
/// connection scope.
pub struct SpiClient {
    /// The engine state this scope owns.
    pub engine: Engine,
}

impl View for SpiClient {
    type V = EngineView;

    open spec fn view(&self) -> EngineView {
        self.engine@
    }
}

impl SpiClient {
    /// A client is well formed while the engine state is and at least one
    /// scope is entered.
    pub open spec fn wf(self) -> bool {
        self@.wf() && self@.depth >= 1
    }

    /// Performs a statement that reads: same call as [`Self::update`], kept
    /// separate so call sites say what they mean.  Mixing read-only and
    /// read-write statements inside one scope confuses result visibility, so
    /// the call is not marked read-only either way.
    pub fn select(&mut self, query: &str, limit: Option<i64>, args: Option<Vec<(u32, Option<Datum>)>>)
        -> (r: Result<SpiTupleTable, SpiError>)
        requires
            old(self).wf(),
        ensures
            final(self).wf(),
            ({
                let (ef, rf) = spec_client_execute(
                    old(self)@,
                    query@,
                    spec_args_datums(args_view(args)),
                    spec_limit_of(limit),
                );
                &&& final(self)@ == ef
                &&& match (r, rf) {
                    (Ok(t), Ok(tv)) => t@ == tv && t@.wf(),
                    (Err(a), Err(b)) => a == b,
                    _ => false,
                }
            }),
    {
        execute_on(&mut self.engine, query, false, limit, args)
    }

    /// Performs a statement that may modify the database.
    pub fn update(&mut self, query: &str, limit: Option<i64>, args: Option<Vec<(u32, Option<Datum>)>>)
        -> (r: Result<SpiTupleTable, SpiError>)
        requires
            old(self).wf(),
        ensures
            final(self).wf(),
            ({
                let (ef, rf) = spec_client_execute(
                    old(self)@,
                    query@,
                    spec_args_datums(args_view(args)),
                    spec_limit_of(limit),
                );
                &&& final(self)@ == ef
                &&& match (r, rf) {
                    (Ok(t), Ok(tv)) => t@ == tv && t@.wf(),
                    (Err(a), Err(b)) => a == b,
                    _ => false,
                }
            }),
    {
        execute_on(&mut self.engine, query, false, limit, args)
    }

    /// Opens a cursor over a statement, under an engine-assigned name.  Rows
    /// are then fetched incrementally with [`SpiCursor::fetch`].
    pub fn open_cursor(&mut self, query: &str, args: Option<Vec<(u32, Option<Datum>)>>) -> (r:
        Result<SpiCursor, SpiError>)
        requires
            old(self).wf(),
        ensures
            final(self).wf(),
            ({
                let (e2, r2) = spec_cursor_open(old(self)@, None, query@);
                &&& final(self)@ == e2
                &&& match (r, r2) {
                    (Ok(c), Ok(n)) => c@ == n,
                    (Err(a), Err(b)) => a == b,
                    _ => false,
                }
            }),
    {
        let (argtypes, values, nulls) = match args {
            Some(a) => build_args(a),
            None => (Vec::new(), Vec::new(), Vec::new()),
        };
        let name = self.engine.cursor_open_with_args(
            None,
            query,
            &argtypes,
            &values,
            &nulls,
            false,
            0,
        )?;
        Ok(SpiCursor { name })
    }

    /// Opens a cursor under a caller-chosen name, so that it can be found
    /// again without carrying the handle.  A name already in use — or inside
    /// the namespace the engine reserves for names it assigns — is a
    /// [`SpiError::DuplicateCursor`] error.
    pub fn open_cursor_named(&mut self, name: String, query: &str, args: Option<Vec<(u32, Option<Datum>)>>)
        -> (r: Result<SpiCursor, SpiError>)
        requires
            old(self).wf(),
        ensures
            final(self).wf(),
            ({
                let (e2, r2) = spec_cursor_open(old(self)@, Some(name@), query@);
                &&& final(self)@ == e2
                &&& match (r, r2) {
                    (Ok(c), Ok(n)) => c@ == n,
                    (Err(a), Err(b)) => a == b,
                    _ => false,
                }
            }),
    {
        let (argtypes, values, nulls) = match args {
            Some(a) => build_args(a),
            None => (Vec::new(), Vec::new(), Vec::new()),
        };
        let got = self.engine.cursor_open_with_args(
            Some(name),
            query,
            &argtypes,
            &values,
            &nulls,
            false,
            0,
        )?;
        Ok(SpiCursor { name: got })
    }

    /// Finds an open cursor of this transaction by name — usually one whose
    /// name an earlier scope took with [`SpiCursor::into_name`].  A name no
    /// open portal carries is a [`SpiError::CursorNotFound`] error, never a
    /// crash.
    pub fn find_cursor(&mut self, name: String) -> (r: Result<SpiCursor, SpiError>)
        requires
            old(self).wf(),
        ensures
            final(self).wf(),
            final(self)@ == old(self)@,
            old(self)@.has_portal(name@) ==> (r matches Ok(c) && c@ == name@),
            !old(self)@.has_portal(name@) ==> r === Err::<SpiCursor, SpiError>(
                SpiError::CursorNotFound,
            ),
    {
        if self.engine.cursor_find(name.as_str()) {
            Ok(SpiCursor { name })
        } else {
            Err(SpiError::CursorNotFound)
        }
    }
}

impl SpiClient {
    /// Runs caller-supplied work inside one more connection scope, entered
    /// and exited around it: reentrant nesting from within an enclosing
    /// scope.  See [`Spi::connect`].
    pub fn connect<R, F: FnOnce(SpiClient) -> (SpiClient, Result<Option<R>, SpiError>)>(
        &mut self,
        f: F,
    ) -> (r: Result<Option<R>, SpiError>)
        requires
            forall|c: SpiClient|
                c@ == spec_enter(old(self)@) ==> #[trigger] call_requires(f, (c,)),
        ensures
            old(self).engine.depth == usize::MAX ==> r === Err::<Option<R>, SpiError>(
                SpiError::Connect,
            ) && final(self)@ == old(self)@,
            old(self).engine.depth < usize::MAX ==> exists|
                c1: SpiClient,
                c2: SpiClient,
                r2: Result<Option<R>, SpiError>,
            |
                {
                    &&& c1@ == spec_enter(old(self)@)
                    &&& #[trigger] call_ensures(f, (c1,), (c2, r2))
                    &&& if c2@.depth > 0 {
                        final(self)@ == spec_exit(c2@) && r == r2 && (c2@.wf()
                            ==> final(self)@.wf())
                    } else {
                        final(self)@ == c2@ && r === Err::<Option<R>, SpiError>(
                            SpiError::Unconnected,
                        )
                    }
                },
    {
        Spi::connect(&mut self.engine, f)
    }
}

/// The entry points of the layer: scope management and one-shot statements.
pub struct Spi;

impl Spi {
    /// Runs caller-supplied work inside one connection scope.
    ///
    /// The scope is entered before the work and exited after it, exactly
    /// once each, on every path the work can take; nested enters from within
    /// the work are legal and independent.  The work receives the connected
    /// [`SpiClient`] and hands it back together with its result; returning
    /// the value out of the scope moves it, and that move is the copy into
    /// the caller's context — the scope's own storage is gone once the exit
    /// has run.  An error value from the work is returned to the caller,
    /// never swallowed.
    pub fn connect<R, F: FnOnce(SpiClient) -> (SpiClient, Result<Option<R>, SpiError>)>(
        engine: &mut Engine,
        f: F,
    ) -> (r: Result<Option<R>, SpiError>)
        requires
            forall|c: SpiClient|
                c@ == spec_enter(old(engine)@) ==> #[trigger] call_requires(f, (c,)),
        ensures
            old(engine).depth == usize::MAX ==> r === Err::<Option<R>, SpiError>(SpiError::Connect)
                && final(engine)@ == old(engine)@,
            old(engine).depth < usize::MAX ==> exists|
                c1: SpiClient,
                c2: SpiClient,
                r2: Result<Option<R>, SpiError>,
            |
                {
                    &&& c1@ == spec_enter(old(engine)@)
                    &&& #[trigger] call_ensures(f, (c1,), (c2, r2))
                    &&& if c2@.depth > 0 {
                        final(engine)@ == spec_exit(c2@) && r == r2 && (c2@.wf()
                            ==> final(engine)@.wf())
                    } else {
                        final(engine)@ == c2@ && r === Err::<Option<R>, SpiError>(
                            SpiError::Unconnected,
                        )
                    }
                },
    {
        let code = engine.connect();
        if code != 1 {
            return Err(SpiError::Connect);
        }
        let mut entered = Engine::new();
        core::mem::swap(engine, &mut entered);
        let client = SpiClient { engine: entered };
        let ghost c1 = client;
        let (c2, r2) = f(client);
        let mut e2 = c2.engine;
        let code2 = e2.disconnect();
        core::mem::swap(engine, &mut e2);
        if code2 == 2 {
            r2
        } else {
            Err(SpiError::Unconnected)
        }
    }

    /// Runs caller-supplied work inside one connection scope, for its
    /// effects alone.
    pub fn execute<F: FnOnce(SpiClient) -> SpiClient>(engine: &mut Engine, f: F) -> (r: Result<
        (),
        SpiError,
    >)
        requires
            forall|c: SpiClient|
                c@ == spec_enter(old(engine)@) ==> #[trigger] call_requires(f, (c,)),
        ensures
            old(engine).depth == usize::MAX ==> r === Err::<(), SpiError>(SpiError::Connect)
                && final(engine)@ == old(engine)@,
            old(engine).depth < usize::MAX ==> exists|c1: SpiClient, c2: SpiClient|
                {
                    &&& c1@ == spec_enter(old(engine)@)
                    &&& #[trigger] call_ensures(f, (c1,), c2)
                    &&& if c2@.depth > 0 {
                        final(engine)@ == spec_exit(c2@) && r === Ok::<(), SpiError>(()) && (
                        c2@.wf() ==> final(engine)@.wf())
                    } else {
                        final(engine)@ == c2@ && r === Err::<(), SpiError>(SpiError::Unconnected)
                    }
                },
    {
        let code = engine.connect();
        if code != 1 {
            return Err(SpiError::Connect);
        }
        let mut entered = Engine::new();
        core::mem::swap(engine, &mut entered);
        let client = SpiClient { engine: entered };
        let ghost c1 = client;
        let c2 = f(client);
        let mut e2 = c2.engine;
        let code2 = e2.disconnect();
        core::mem::swap(engine, &mut e2);
        if code2 == 2 {
            Ok(())
        } else {
            Err(SpiError::Unconnected)
        }
    }
    /// Translates an engine-interface status code; see
    /// [`crate::status::check_status`].
    pub fn check_status(status_code: i32) -> (r: Result<SpiOk, SpiError>)
        requires
            recognized(status_code as int),
        ensures
            status_code > 0 ==> r == Result::<SpiOk, SpiError>::Ok(ok_of_code(status_code as int)),
            status_code <= 0 ==> r == Result::<SpiOk, SpiError>::Err(
                err_of_code(-status_code as int),
            ),
    {
        check_status(status_code)
    }

    /// Executes `query` inside its own connection scope and decodes ordinal
    /// 1 of the first result row.
    pub fn get_one<A: crate::datum::FromDatum>(engine: &mut Engine, query: &str) -> (r: Result<
        Option<A>,
        SpiError,
    >)
        requires
            old(engine)@.wf(),
        ensures
            final(engine)@.wf(),
            old(engine).depth == usize::MAX ==> r === Err::<Option<A>, SpiError>(SpiError::Connect)
                && final(engine)@ == old(engine)@,
            old(engine).depth < usize::MAX ==> ({
                let (ef, rf) = spec_client_execute(
                    spec_enter(old(engine)@),
                    query@,
                    Seq::empty(),
                    1,
                );
                &&& final(engine)@ == spec_exit(ef)
                &&& match (r, rf) {
                    (Ok(v), Ok(tv)) => tv.spec_first().decoded_field_is(1, v),
                    (Err(a), Err(b)) => a == b,
                    _ => false,
                }
            }),
    {
        let code = engine.connect();
        if code != 1 {
            return Err(SpiError::Connect);
        }
        let res = execute_on(engine, query, false, Some(1), None);
        match res {
            Ok(table) => {
                let table = table.first();
                let v = table.get_datum::<A>(1);
                let _ = engine.disconnect();
                match v {
                    Ok(v) => Ok(v),
                    Err(_) => unreached(),
                }
            },
            Err(e) => {
                let _ = engine.disconnect();
                Err(e)
            },
        }
    }

    /// Executes `query` inside its own connection scope and decodes ordinals
    /// 1 and 2 of the first result row.
    pub fn get_two<A: crate::datum::FromDatum, B: crate::datum::FromDatum>(
        engine: &mut Engine,
        query: &str,
    ) -> (r: Result<(Option<A>, Option<B>), SpiError>)
        requires
            old(engine)@.wf(),
        ensures
            final(engine)@.wf(),
            old(engine).depth == usize::MAX ==> r === Err::<(Option<A>, Option<B>), SpiError>(
                SpiError::Connect,
            ) && final(engine)@ == old(engine)@,
            old(engine).depth < usize::MAX ==> ({
                let (ef, rf) = spec_client_execute(
                    spec_enter(old(engine)@),
                    query@,
                    Seq::empty(),
                    1,
                );
                &&& final(engine)@ == spec_exit(ef)
                &&& match (r, rf) {
                    (Ok((a, b)), Ok(tv)) => tv.spec_first().decoded_field_is(1, a)
                        && tv.spec_first().decoded_field_is(2, b),
                    (Err(a), Err(b)) => a == b,
                    _ => false,
                }
            }),
    {
        let code = engine.connect();
        if code != 1 {
            return Err(SpiError::Connect);
        }
        let res = execute_on(engine, query, false, Some(1), None);
        match res {
            Ok(table) => {
                let table = table.first();
                let v = table.get_two::<A, B>();
                let _ = engine.disconnect();
                match v {
                    Ok(v) => Ok(v),
                    Err(_) => unreached(),
                }
            },
            Err(e) => {
                let _ = engine.disconnect();
                Err(e)
            },
        }
    }

    /// Executes `query` inside its own connection scope and decodes ordinals
    /// 1, 2, and 3 of the first result row.
    pub fn get_three<
        A: crate::datum::FromDatum,
        B: crate::datum::FromDatum,
        C: crate::datum::FromDatum,
    >(engine: &mut Engine, query: &str) -> (r: Result<
        (Option<A>, Option<B>, Option<C>),
        SpiError,
    >)
        requires
            old(engine)@.wf(),
        ensures
            final(engine)@.wf(),
            old(engine).depth == usize::MAX ==> r === Err::<
                (Option<A>, Option<B>, Option<C>),
                SpiError,
            >(SpiError::Connect) && final(engine)@ == old(engine)@,
            old(engine).depth < usize::MAX ==> ({
                let (ef, rf) = spec_client_execute(
                    spec_enter(old(engine)@),
                    query@,
                    Seq::empty(),
                    1,
                );
                &&& final(engine)@ == spec_exit(ef)
                &&& match (r, rf) {
                    (Ok((a, b, c)), Ok(tv)) => tv.spec_first().decoded_field_is(1, a)
                        && tv.spec_first().decoded_field_is(2, b) && tv.spec_first().decoded_field_is(
                        3,
                        c,
                    ),
                    (Err(a), Err(b)) => a == b,
                    _ => false,
                }
            }),
    {
        let code = engine.connect();
        if code != 1 {
            return Err(SpiError::Connect);
        }
        let res = execute_on(engine, query, false, Some(1), None);
        match res {
            Ok(table) => {
                let table = table.first();
                let v = table.get_three::<A, B, C>();
                let _ = engine.disconnect();
                match v {
                    Ok(v) => Ok(v),
                    Err(_) => unreached(),
                }
            },
            Err(e) => {
                let _ = engine.disconnect();
                Err(e)
            },
        }
    }

    /// [`Self::get_one`] with bound arguments.
    pub fn get_one_with_args<A: crate::datum::FromDatum>(
        engine: &mut Engine,
        query: &str,
        args: Vec<(u32, Option<Datum>)>,
    ) -> (r: Result<Option<A>, SpiError>)
        requires
            old(engine)@.wf(),
        ensures
            final(engine)@.wf(),
            old(engine).depth == usize::MAX ==> r === Err::<Option<A>, SpiError>(SpiError::Connect)
                && final(engine)@ == old(engine)@,
            old(engine).depth < usize::MAX ==> ({
                let (ef, rf) = spec_client_execute(
                    spec_enter(old(engine)@),
                    query@,
                    spec_args_datums(Some(args.deep_view())),
                    1,
                );
                &&& final(engine)@ == spec_exit(ef)
                &&& match (r, rf) {
                    (Ok(v), Ok(tv)) => tv.spec_first().decoded_field_is(1, v),
                    (Err(a), Err(b)) => a == b,
                    _ => false,
                }
            }),
    {
        let code = engine.connect();
        if code != 1 {
            return Err(SpiError::Connect);
        }
        let res = execute_on(engine, query, false, Some(1), Some(args));
        match res {
            Ok(table) => {
                let table = table.first();
                let v = table.get_datum::<A>(1);
                let _ = engine.disconnect();
                match v {
                    Ok(v) => Ok(v),
                    Err(_) => unreached(),
                }
            },
            Err(e) => {
                let _ = engine.disconnect();
                Err(e)
            },
        }
    }

    /// [`Self::get_two`] with bound arguments.
    pub fn get_two_with_args<A: crate::datum::FromDatum, B: crate::datum::FromDatum>(
        engine: &mut Engine,
        query: &str,
        args: Vec<(u32, Option<Datum>)>,
    ) -> (r: Result<(Option<A>, Option<B>), SpiError>)
        requires
            old(engine)@.wf(),
        ensures
            final(engine)@.wf(),
            old(engine).depth == usize::MAX ==> r === Err::<(Option<A>, Option<B>), SpiError>(
                SpiError::Connect,
            ) && final(engine)@ == old(engine)@,
            old(engine).depth < usize::MAX ==> ({
                let (ef, rf) = spec_client_execute(
                    spec_enter(old(engine)@),
                    query@,
                    spec_args_datums(Some(args.deep_view())),
                    1,
                );
                &&& final(engine)@ == spec_exit(ef)
                &&& match (r, rf) {
                    (Ok((a, b)), Ok(tv)) => tv.spec_first().decoded_field_is(1, a)
                        && tv.spec_first().decoded_field_is(2, b),
                    (Err(a), Err(b)) => a == b,
                    _ => false,
                }
            }),
    {
        let code = engine.connect();
        if code != 1 {
            return Err(SpiError::Connect);
        }
        let res = execute_on(engine, query, false, Some(1), Some(args));
        match res {
            Ok(table) => {
                let table = table.first();
                let v = table.get_two::<A, B>();
                let _ = engine.disconnect();
                match v {
                    Ok(v) => Ok(v),
                    Err(_) => unreached(),
                }
            },
            Err(e) => {
                let _ = engine.disconnect();
                Err(e)
            },
        }
    }

    /// [`Self::get_three`] with bound arguments.
    pub fn get_three_with_args<
        A: crate::datum::FromDatum,
        B: crate::datum::FromDatum,
        C: crate::datum::FromDatum,
    >(engine: &mut Engine, query: &str, args: Vec<(u32, Option<Datum>)>) -> (r: Result<
        (Option<A>, Option<B>, Option<C>),
        SpiError,
    >)
        requires
            old(engine)@.wf(),
        ensures
            final(engine)@.wf(),
            old(engine).depth == usize::MAX ==> r === Err::<
                (Option<A>, Option<B>, Option<C>),
                SpiError,
            >(SpiError::Connect) && final(engine)@ == old(engine)@,
            old(engine).depth < usize::MAX ==> ({
                let (ef, rf) = spec_client_execute(
                    spec_enter(old(engine)@),
                    query@,
                    spec_args_datums(Some(args.deep_view())),
                    1,
                );
                &&& final(engine)@ == spec_exit(ef)
                &&& match (r, rf) {
                    (Ok((a, b, c)), Ok(tv)) => tv.spec_first().decoded_field_is(1, a)
                        && tv.spec_first().decoded_field_is(2, b) && tv.spec_first().decoded_field_is(
                        3,
                        c,
                    ),
                    (Err(a), Err(b)) => a == b,
                    _ => false,
                }
            }),
    {
        let code = engine.connect();
        if code != 1 {
            return Err(SpiError::Connect);
        }
        let res = execute_on(engine, query, false, Some(1), Some(args));
        match res {
            Ok(table) => {
                let table = table.first();
                let v = table.get_three::<A, B, C>();
                let _ = engine.disconnect();
                match v {
                    Ok(v) => Ok(v),
                    Err(_) => unreached(),
                }
            },
            Err(e) => {
                let _ = engine.disconnect();
                Err(e)
            },
        }
    }

    /// Runs a statement for its effect, inside its own connection scope.
    pub fn run(engine: &mut Engine, query: &str) -> (r: Result<(), SpiError>)
        requires
            old(engine)@.wf(),
        ensures
            final(engine)@.wf(),
            old(engine).depth == usize::MAX ==> r === Err::<(), SpiError>(SpiError::Connect)
                && final(engine)@ == old(engine)@,
            old(engine).depth < usize::MAX ==> ({
                let (ef, rf) = spec_client_execute(
                    spec_enter(old(engine)@),
                    query@,
                    Seq::empty(),
                    0,
                );
                &&& final(engine)@ == spec_exit(ef)
                &&& match (r, rf) {
                    (Ok(()), Ok(_)) => true,
                    (Err(a), Err(b)) => a == b,
                    _ => false,
                }
            }),
    {
        let code = engine.connect();
        if code != 1 {
            return Err(SpiError::Connect);
        }
        let res = execute_on(engine, query, false, None, None);
        let _ = engine.disconnect();
        match res {
            Ok(_) => Ok(()),
            Err(e) => Err(e),
        }
    }

    /// Explains a query inside its own connection scope, returning the
    /// engine's explanation text: ordinal 1 of the first row that the
    /// explain statement yields.
    pub fn explain(engine: &mut Engine, query: &str) -> (r: Result<Option<String>, SpiError>)
        requires
            old(engine)@.wf(),
        ensures
            final(engine)@.wf(),
            old(engine).depth == usize::MAX ==> r === Err::<Option<String>, SpiError>(
                SpiError::Connect,
            ) && final(engine)@ == old(engine)@,
            old(engine).depth < usize::MAX ==> ({
                let (ef, rf) = spec_client_execute(
                    spec_enter(old(engine)@),
                    "EXPLAIN (format json) "@ + query@,
                    Seq::empty(),
                    1,
                );
                &&& final(engine)@ == spec_exit(ef)
                &&& match (r, rf) {
                    (Ok(v), Ok(tv)) => tv.spec_first().decoded_field_is(1, v),
                    (Err(a), Err(b)) => a == b,
                    _ => false,
                }
            }),
    {
        let prefixed = String::from_str("EXPLAIN (format json) ").concat(query);
        let code = engine.connect();
        if code != 1 {
            return Err(SpiError::Connect);
        }
        let res = execute_on(engine, prefixed.as_str(), false, Some(1), None);
        match res {
            Ok(table) => {
                let table = table.first();
                let v = table.get_datum::<String>(1);
                let _ = engine.disconnect();
                match v {
                    Ok(v) => Ok(v),
                    Err(_) => unreached(),
                }
            },
            Err(e) => {
                let _ = engine.disconnect();
                Err(e)
            },
        }
    }
}

} // verus!
