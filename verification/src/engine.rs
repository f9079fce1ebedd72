//! An explicit model of the engine interface's process-wide state.
//!
//! The engine interface communicates through global state: a connection
//! nesting depth, a single mutable result-table slot with its row-count
//! slot, and a set of open portals.  [`Engine`] holds all of that as one
//! explicit value, so every call's effect on it can be stated and checked.
//!
//! What a statement returns is not computed from SQL text — query planning
//! is the engine's own business, outside this layer.  Instead the caller
//! installs statements up front: a statement either carries literal result
//! rows, reads all rows of a named engine table, or appends its argument row
//! to a named engine table.  The layer above then drives this state through
//! the same primitives the real interface exposes: connect, disconnect,
//! execute, and the portal operations.

use vstd::prelude::*;

use crate::args::FLAG_NULL;
use crate::args::decoded_args;
use crate::datum::Datum;
use crate::datum::DatumView;
use crate::status::SpiError;
use vstd::string::StrSliceExecFns;
use vstd::string::StringExecFns;

verus! {

/// The largest row count a result may carry: the same ceiling on every
/// pointer width, small enough that a signed 64-bit position can always step
/// one past the last row.
pub const MAX_ROWS: usize = u32::MAX as usize;

/// The shared column descriptor of a result set: one name and one runtime
/// type identifier per column, in column order.
#[derive(Debug)]
pub struct TupleDesc {
    /// Column names, 1-based ordinal `i` at index `i - 1`.
    pub names: Vec<String>,
    /// Column type identifiers, parallel to `names`.
    pub oids: Vec<u32>,
}

/// The mathematical value of a [`TupleDesc`].
#[verifier::ext_equal]
pub struct TupleDescView {
    pub names: Seq<Seq<char>>,
    pub oids: Seq<u32>,
}

impl View for TupleDesc {
    type V = TupleDescView;

    open spec fn view(&self) -> TupleDescView {
        TupleDescView { names: self.names.deep_view(), oids: self.oids@ }
    }
}

impl TupleDescView {
    /// A descriptor is well formed when it has one type identifier per name.
    pub open spec fn wf(self) -> bool {
        self.names.len() == self.oids.len()
    }

    /// The number of columns.
    pub open spec fn ncols(self) -> int {
        self.names.len() as int
    }
}

impl TupleDesc {
    /// The number of columns.
    pub fn natts(&self) -> (n: usize)
        ensures
            n == self@.names.len(),
    {
        self.names.len()
    }
}

/// Rows are well formed for a descriptor when each has exactly one optional
/// datum per column, and there are few enough of them that a signed position
/// can step past the end.
pub open spec fn rows_wf(rows: Seq<Seq<Option<DatumView>>>, ncols: int) -> bool {
    &&& rows.len() <= MAX_ROWS
    &&& forall|i: int| 0 <= i < rows.len() ==> (#[trigger] rows[i]).len() == ncols
}

/// What one installed statement does when executed.
#[derive(Debug)]
pub enum StatementAction {
    /// Return these literal rows under this descriptor.
    Rows(TupleDesc, Vec<Vec<Option<Datum>>>),
    /// Return all rows of the named engine table.
    ReadTable(String),
    /// Append the decoded argument row to the named engine table.
    Insert(String),
}

/// The mathematical value of a [`StatementAction`].
#[verifier::ext_equal]
pub enum StatementActionView {
    Rows(TupleDescView, Seq<Seq<Option<DatumView>>>),
    ReadTable(Seq<char>),
    Insert(Seq<char>),
}

impl View for StatementAction {
    type V = StatementActionView;

    open spec fn view(&self) -> StatementActionView {
        match self {
            StatementAction::Rows(desc, rows) => StatementActionView::Rows(
                desc@,
                rows.deep_view(),
            ),
            StatementAction::ReadTable(name) => StatementActionView::ReadTable(name@),
            StatementAction::Insert(name) => StatementActionView::Insert(name@),
        }
    }
}

impl StatementActionView {
    /// Well-formedness of an action: literal rows must fit their descriptor.
    pub open spec fn wf(self) -> bool {
        match self {
            StatementActionView::Rows(desc, rows) => desc.wf() && rows_wf(rows, desc.ncols()),
            StatementActionView::ReadTable(_) => true,
            StatementActionView::Insert(_) => true,
        }
    }
}

/// One installed statement: its text and what executing it does.
#[derive(Debug)]
pub struct Statement {
    pub text: String,
    pub action: StatementAction,
}

/// The mathematical value of a [`Statement`].
#[verifier::ext_equal]
pub struct StatementView {
    pub text: Seq<char>,
    pub action: StatementActionView,
}

impl View for Statement {
    type V = StatementView;

    open spec fn view(&self) -> StatementView {
        StatementView { text: self.text@, action: self.action@ }
    }
}

/// One named engine table: rows that insert statements append to and read
/// statements return.
#[derive(Debug)]
pub struct EngineTable {
    pub name: String,
    pub desc: TupleDesc,
    pub rows: Vec<Vec<Option<Datum>>>,
}

/// The mathematical value of an [`EngineTable`].
#[verifier::ext_equal]
pub struct EngineTableView {
    pub name: Seq<char>,
    pub desc: TupleDescView,
    pub rows: Seq<Seq<Option<DatumView>>>,
}

impl View for EngineTable {
    type V = EngineTableView;

    open spec fn view(&self) -> EngineTableView {
        EngineTableView { name: self.name@, desc: self.desc@, rows: self.rows.deep_view() }
    }
}

impl EngineTableView {
    pub open spec fn wf(self) -> bool {
        self.desc.wf() && rows_wf(self.rows, self.desc.ncols())
    }
}

/// What the process-wide result slot holds after a call: a descriptor and
/// the retrieved rows.
#[derive(Debug)]
pub struct ResultSet {
    pub desc: TupleDesc,
    pub rows: Vec<Vec<Option<Datum>>>,
}

/// The mathematical value of a [`ResultSet`].
#[verifier::ext_equal]
pub struct ResultSetView {
    pub desc: TupleDescView,
    pub rows: Seq<Seq<Option<DatumView>>>,
}

impl View for ResultSet {
    type V = ResultSetView;

    open spec fn view(&self) -> ResultSetView {
        ResultSetView { desc: self.desc@, rows: self.rows.deep_view() }
    }
}

impl ResultSetView {
    pub open spec fn wf(self) -> bool {
        self.desc.wf() && rows_wf(self.rows, self.desc.ncols())
    }
}

/// One open portal: a server-side cursor over a fixed sequence of rows, of
/// which the first `pos` have already been fetched.
pub struct Portal {
    pub name: String,
    pub desc: TupleDesc,
    pub rows: Vec<Vec<Option<Datum>>>,
    pub pos: usize,
    /// Which engine-assigned counter value named this portal, if any.
    pub auto_id: Ghost<Option<u64>>,
}

/// The mathematical value of a [`Portal`].
#[verifier::ext_equal]
pub struct PortalView {
    pub name: Seq<char>,
    pub desc: TupleDescView,
    pub rows: Seq<Seq<Option<DatumView>>>,
    pub pos: int,
    pub auto_id: Option<u64>,
}

impl View for Portal {
    type V = PortalView;

    open spec fn view(&self) -> PortalView {
        PortalView {
            name: self.name@,
            desc: self.desc@,
            rows: self.rows.deep_view(),
            pos: self.pos as int,
            auto_id: self.auto_id@,
        }
    }
}

impl PortalView {
    pub open spec fn wf(self) -> bool {
        &&& self.desc.wf()
        &&& rows_wf(self.rows, self.desc.ncols())
        &&& 0 <= self.pos <= self.rows.len()
    }
}

/// The engine interface's process-wide state, as one explicit value.
pub struct Engine {
    /// The connection nesting depth: how many scopes are entered.
    pub depth: usize,
    /// The installed statements; their texts are distinct.
    pub statements: Vec<Statement>,
    /// The named engine tables; their names are distinct.
    pub tables: Vec<EngineTable>,
    /// The open portals; their names are distinct.
    pub portals: Vec<Portal>,
    /// The single process-wide result-table slot.
    pub slot: Option<ResultSet>,
    /// The process-wide row-count slot.
    pub processed: usize,
    /// The counter behind engine-assigned portal names.
    pub portal_counter: u64,
}

/// The mathematical value of an [`Engine`].
#[verifier::ext_equal]
pub struct EngineView {
    pub depth: int,
    pub statements: Seq<StatementView>,
    pub tables: Seq<EngineTableView>,
    pub portals: Seq<PortalView>,
    pub slot: Option<ResultSetView>,
    pub processed: int,
    pub portal_counter: int,
}

impl View for Engine {
    type V = EngineView;

    open spec fn view(&self) -> EngineView {
        EngineView {
            depth: self.depth as int,
            statements: self.statements.deep_view(),
            tables: self.tables.deep_view(),
            portals: self.portals.deep_view(),
            slot: match self.slot {
                Some(rs) => Some(rs@),
                None => None,
            },
            processed: self.processed as int,
            portal_counter: self.portal_counter as int,
        }
    }
}

impl DeepView for Statement {
    type V = StatementView;

    open spec fn deep_view(&self) -> StatementView {
        self.view()
    }
}

impl DeepView for EngineTable {
    type V = EngineTableView;

    open spec fn deep_view(&self) -> EngineTableView {
        self.view()
    }
}

impl DeepView for Portal {
    type V = PortalView;

    open spec fn deep_view(&self) -> PortalView {
        self.view()
    }
}

impl EngineView {
    /// The state of a fresh engine: unconnected, empty, slot clear.
    pub open spec fn init() -> EngineView {
        EngineView {
            depth: 0,
            statements: Seq::empty(),
            tables: Seq::empty(),
            portals: Seq::empty(),
            slot: None,
            processed: 0,
            portal_counter: 0,
        }
    }

    /// Whether a statement with this text is installed.
    pub open spec fn has_statement(self, text: Seq<char>) -> bool {
        exists|i: int| 0 <= i < self.statements.len() && (#[trigger] self.statements[i]).text == text
    }

    /// The index of the statement with this text.
    pub open spec fn statement_index(self, text: Seq<char>) -> int {
        choose|i: int| 0 <= i < self.statements.len() && (#[trigger] self.statements[i]).text == text
    }

    /// What the statement with this text does.
    pub open spec fn statement_action(self, text: Seq<char>) -> StatementActionView {
        self.statements[self.statement_index(text)].action
    }

    /// Whether a table with this name exists.
    pub open spec fn has_table(self, name: Seq<char>) -> bool {
        exists|i: int| 0 <= i < self.tables.len() && (#[trigger] self.tables[i]).name == name
    }

    /// The index of the table with this name.
    pub open spec fn table_index(self, name: Seq<char>) -> int {
        choose|i: int| 0 <= i < self.tables.len() && (#[trigger] self.tables[i]).name == name
    }

    /// The table with this name.
    pub open spec fn table_at(self, name: Seq<char>) -> EngineTableView {
        self.tables[self.table_index(name)]
    }

    /// Whether a portal with this name is open.
    pub open spec fn has_portal(self, name: Seq<char>) -> bool {
        exists|i: int| 0 <= i < self.portals.len() && (#[trigger] self.portals[i]).name == name
    }

    /// The index of the open portal with this name.
    pub open spec fn portal_index(self, name: Seq<char>) -> int {
        choose|i: int| 0 <= i < self.portals.len() && (#[trigger] self.portals[i]).name == name
    }

    /// The open portal with this name.
    pub open spec fn portal_at(self, name: Seq<char>) -> PortalView {
        self.portals[self.portal_index(name)]
    }

    /// Well-formedness of the whole engine state.
    pub open spec fn wf(self) -> bool {
        &&& 0 <= self.depth
        &&& 0 <= self.processed <= MAX_ROWS
        &&& 0 <= self.portal_counter
        &&& forall|i: int|
            0 <= i < self.statements.len() ==> (#[trigger] self.statements[i]).action.wf()
        &&& forall|i: int, j: int|
            0 <= i < j < self.statements.len() ==> (#[trigger] self.statements[i]).text != (
            #[trigger] self.statements[j]).text
        &&& forall|i: int| 0 <= i < self.tables.len() ==> (#[trigger] self.tables[i]).wf()
        &&& forall|i: int, j: int|
            0 <= i < j < self.tables.len() ==> (#[trigger] self.tables[i]).name != (
            #[trigger] self.tables[j]).name
        &&& forall|i: int| 0 <= i < self.portals.len() ==> (#[trigger] self.portals[i]).wf()
        &&& forall|i: int, j: int|
            0 <= i < j < self.portals.len() ==> (#[trigger] self.portals[i]).name != (
            #[trigger] self.portals[j]).name
        &&& forall|i: int|
            0 <= i < self.portals.len() ==> match (#[trigger] self.portals[i]).auto_id {
                Some(k) => k < self.portal_counter && self.portals[i].name == auto_portal_name(
                    k as nat,
                ),
                None => !reserved_name(self.portals[i].name),
            }
        &&& match self.slot {
            Some(rs) => rs.wf() && self.processed == rs.rows.len(),
            None => true,
        }
    }
}

/// The decimal digit character of a value below ten.
pub open spec fn dec_digit_char(d: int) -> char {
    if d == 0 {
        '0'
    } else if d == 1 {
        '1'
    } else if d == 2 {
        '2'
    } else if d == 3 {
        '3'
    } else if d == 4 {
        '4'
    } else if d == 5 {
        '5'
    } else if d == 6 {
        '6'
    } else if d == 7 {
        '7'
    } else if d == 8 {
        '8'
    } else {
        '9'
    }
}

/// The decimal digit characters of a number, most significant first.
pub open spec fn dec_digits(n: nat) -> Seq<char>
    decreases n,
{
    if n < 10 {
        seq![dec_digit_char(n as int)]
    } else {
        dec_digits(n / 10) + seq![dec_digit_char((n % 10) as int)]
    }
}

/// Whether a name lies in the namespace the engine keeps for itself.
pub open spec fn reserved_name(name: Seq<char>) -> bool {
    name.len() > 0 && name[0] == '#'
}

/// The engine-assigned portal name for counter value `k`.
pub open spec fn auto_portal_name(k: nat) -> Seq<char> {
    seq!['#'] + dec_digits(k)
}

/// A decimal digit string never is empty.
pub proof fn lemma_dec_digits_len(n: nat)
    ensures
        dec_digits(n).len() >= 1,
    decreases n,
{
    if n >= 10 {
        lemma_dec_digits_len(n / 10);
    }
}

/// Distinct numbers have distinct decimal digit strings.
pub proof fn lemma_dec_digits_injective(a: nat, b: nat)
    requires
        a != b,
    ensures
        dec_digits(a) != dec_digits(b),
    decreases a + b,
{
    if a < 10 && b < 10 {
        assert(dec_digits(a)[0] == dec_digit_char(a as int));
        assert(dec_digits(b)[0] == dec_digit_char(b as int));
    } else if a < 10 && b >= 10 {
        lemma_dec_digits_len(b / 10);
        assert(dec_digits(a).len() == 1);
        assert(dec_digits(b).len() >= 2);
    } else if a >= 10 && b < 10 {
        lemma_dec_digits_len(a / 10);
        assert(dec_digits(a).len() == 1 + dec_digits(a / 10).len());
    } else {
        if dec_digits(a) == dec_digits(b) {
            let da = dec_digits(a);
            let db = dec_digits(b);
            assert(da.last() == dec_digit_char((a % 10) as int));
            assert(db.last() == dec_digit_char((b % 10) as int));
            assert(a % 10 == b % 10);
            assert(da.drop_last() =~= dec_digits(a / 10));
            assert(db.drop_last() =~= dec_digits(b / 10));
            if a / 10 == b / 10 {
                assert(a == (a / 10) * 10 + a % 10);
                assert(b == (b / 10) * 10 + b % 10);
                assert(false);
            } else {
                lemma_dec_digits_injective(a / 10, b / 10);
                assert(dec_digits(a / 10) == dec_digits(b / 10));
                assert(false);
            }
        }
    }
}

/// Distinct counter values give distinct engine-assigned names, and every
/// engine-assigned name is reserved.
pub proof fn lemma_auto_portal_name_fresh(a: nat, b: nat)
    ensures
        a != b ==> auto_portal_name(a) != auto_portal_name(b),
        reserved_name(auto_portal_name(a)),
{
    lemma_dec_digits_len(a);
    if a != b {
        lemma_dec_digits_injective(a, b);
        if auto_portal_name(a) == auto_portal_name(b) {
            assert(auto_portal_name(a).skip(1) =~= dec_digits(a));
            assert(auto_portal_name(b).skip(1) =~= dec_digits(b));
            assert(false);
        }
    }
    assert(auto_portal_name(a)[0] == '#');
}

/// Copies one row, value for value.
fn clone_row(row: &Vec<Option<Datum>>) -> (r: Vec<Option<Datum>>)
    ensures
        r.deep_view() == row.deep_view(),
{
    let ghost rowv = row.deep_view();
    let mut r: Vec<Option<Datum>> = Vec::new();
    let n = row.len();
    let mut j: usize = 0;
    while j < n
        invariant
            n == row.len(),
            rowv == row.deep_view(),
            j <= n,
            r@.len() == j,
            forall|k: int| 0 <= k < j ==> (#[trigger] r@[k]).deep_view() == rowv[k],
        decreases n - j,
    {
        match &row[j] {
            Some(d) => {
                r.push(Some(d.clone()));
            },
            None => {
                r.push(None);
            },
        }
        j = j + 1;
    }
    proof {
        assert(r.deep_view() =~= rowv);
    }
    r
}

/// Copies the first `n` rows of a row sequence.
fn clone_rows_prefix(rows: &Vec<Vec<Option<Datum>>>, n: usize) -> (r: Vec<Vec<Option<Datum>>>)
    requires
        n <= rows.len(),
    ensures
        r.deep_view() == rows.deep_view().take(n as int),
        r@.len() == n,
{
    let ghost rowsv = rows.deep_view();
    let mut r: Vec<Vec<Option<Datum>>> = Vec::new();
    let mut j: usize = 0;
    while j < n
        invariant
            n <= rows.len(),
            rowsv == rows.deep_view(),
            j <= n,
            r@.len() == j,
            forall|k: int| 0 <= k < j ==> (#[trigger] r@[k]).deep_view() == rowsv[k],
        decreases n - j,
    {
        let row = clone_row(&rows[j]);
        r.push(row);
        j = j + 1;
    }
    proof {
        assert(r.deep_view() =~= rowsv.take(n as int));
    }
    r
}

/// Copies a column descriptor.
pub(crate) fn clone_desc(desc: &TupleDesc) -> (r: TupleDesc)
    ensures
        r@ == desc@,
{
    let ghost namesv = desc.names.deep_view();
    let mut names: Vec<String> = Vec::new();
    let mut oids: Vec<u32> = Vec::new();
    let n = desc.names.len();
    let mut j: usize = 0;
    while j < n
        invariant
            n == desc.names.len(),
            namesv == desc.names.deep_view(),
            j <= n,
            names@.len() == j,
            forall|k: int| 0 <= k < j ==> (#[trigger] names@[k])@ == namesv[k],
        decreases n - j,
    {
        names.push(desc.names[j].clone());
        j = j + 1;
    }
    let m = desc.oids.len();
    let mut i: usize = 0;
    while i < m
        invariant
            m == desc.oids.len(),
            i <= m,
            oids@ =~= desc.oids@.take(i as int),
        decreases m - i,
    {
        oids.push(desc.oids[i]);
        i = i + 1;
    }
    let r = TupleDesc { names, oids };
    proof {
        assert(r@.names =~= desc@.names);
        assert(r@.oids =~= desc@.oids);
        assert(r@ == desc@);
    }
    r
}

/// The state transition and status code of one execute call.
///
/// `args` is the argument row the engine decodes back out of the parallel
/// value and null-flag sequences.  Unconnected calls and unknown statement
/// texts fail without touching anything but the result slots; an insert
/// appends the argument row to its table when the arity matches and the
/// table has room.
pub open spec fn spec_execute(
    e: EngineView,
    text: Seq<char>,
    args: Seq<Option<DatumView>>,
    limit: int,
) -> (EngineView, int) {
    let failed = EngineView { slot: None, processed: 0, ..e };
    if e.depth == 0 {
        (failed, -4)
    } else if !e.has_statement(text) {
        (failed, -3)
    } else {
        match e.statement_action(text) {
            StatementActionView::Rows(desc, rows) => (spec_select_result(e, desc, rows, limit), 5),
            StatementActionView::ReadTable(name) => {
                if !e.has_table(name) {
                    (failed, -13)
                } else {
                    (
                        spec_select_result(e, e.table_at(name).desc, e.table_at(name).rows, limit),
                        5,
                    )
                }
            },
            StatementActionView::Insert(name) => {
                if !e.has_table(name) {
                    (failed, -13)
                } else {
                    let t = e.table_at(name);
                    if args.len() != t.desc.ncols() || t.rows.len() >= MAX_ROWS {
                        (failed, -6)
                    } else {
                        (
                            EngineView {
                                tables: e.tables.update(
                                    e.table_index(name),
                                    EngineTableView { rows: t.rows.push(args), ..t },
                                ),
                                slot: None,
                                processed: 1,
                                ..e
                            },
                            7,
                        )
                    }
                }
            },
        }
    }
}

/// The engine state after a row-returning statement: the result slot holds
/// the retrieved rows — all of them, or the first `limit` when a positive
/// limit cuts them short — and the row-count slot holds how many.
pub open spec fn spec_select_result(
    e: EngineView,
    desc: TupleDescView,
    rows: Seq<Seq<Option<DatumView>>>,
    limit: int,
) -> EngineView {
    let taken = if 0 < limit < rows.len() {
        limit
    } else {
        rows.len() as int
    };
    EngineView {
        slot: Some(ResultSetView { desc: desc, rows: rows.take(taken) }),
        processed: taken,
        ..e
    }
}

/// The statement index found by a scan is the statement index: installed
/// texts are distinct.
pub proof fn lemma_statement_index_is(e: EngineView, text: Seq<char>, i: int)
    requires
        e.wf(),
        0 <= i < e.statements.len(),
        e.statements[i].text == text,
    ensures
        e.has_statement(text),
        e.statement_index(text) == i,
        e.statement_action(text) == e.statements[i].action,
{
    assert(e.has_statement(text));
    let j = e.statement_index(text);
    assert(0 <= j < e.statements.len() && e.statements[j].text == text);
    if i != j {
        if i < j {
            assert(e.statements[i].text != e.statements[j].text);
        } else {
            assert(e.statements[j].text != e.statements[i].text);
        }
    }
}

/// The table index found by a scan is the table index: table names are
/// distinct.
pub proof fn lemma_table_index_is(e: EngineView, name: Seq<char>, i: int)
    requires
        e.wf(),
        0 <= i < e.tables.len(),
        e.tables[i].name == name,
    ensures
        e.has_table(name),
        e.table_index(name) == i,
        e.table_at(name) == e.tables[i],
{
    assert(e.has_table(name));
    let j = e.table_index(name);
    assert(0 <= j < e.tables.len() && e.tables[j].name == name);
    if i != j {
        if i < j {
            assert(e.tables[i].name != e.tables[j].name);
        } else {
            assert(e.tables[j].name != e.tables[i].name);
        }
    }
}

/// The portal index found by a scan is the portal index: open portal names
/// are distinct.
pub proof fn lemma_portal_index_is(e: EngineView, name: Seq<char>, i: int)
    requires
        e.wf(),
        0 <= i < e.portals.len(),
        e.portals[i].name == name,
    ensures
        e.has_portal(name),
        e.portal_index(name) == i,
        e.portal_at(name) == e.portals[i],
{
    assert(e.has_portal(name));
    let j = e.portal_index(name);
    assert(0 <= j < e.portals.len() && e.portals[j].name == name);
    if i != j {
        if i < j {
            assert(e.portals[i].name != e.portals[j].name);
        } else {
            assert(e.portals[j].name != e.portals[i].name);
        }
    }
}

impl Engine {
    /// A fresh engine: unconnected, nothing installed, slot clear.
    pub fn new() -> (e: Engine)
        ensures
            e@ == EngineView::init(),
            e@.wf(),
    {
        let e = Engine {
            depth: 0,
            statements: Vec::new(),
            tables: Vec::new(),
            portals: Vec::new(),
            slot: None,
            processed: 0,
            portal_counter: 0,
        };
        proof {
            assert(e@.statements =~= Seq::<StatementView>::empty());
            assert(e@.tables =~= Seq::<EngineTableView>::empty());
            assert(e@.portals =~= Seq::<PortalView>::empty());
            assert(e@ == EngineView::init());
        }
        e
    }

    /// Installs a named engine table.
    pub fn add_table(&mut self, name: String, desc: TupleDesc, rows: Vec<Vec<Option<Datum>>>)
        requires
            old(self)@.wf(),
            desc@.wf(),
            rows_wf(rows.deep_view(), desc@.ncols()),
            !old(self)@.has_table(name@),
        ensures
            final(self)@ == (EngineView {
                tables: old(self)@.tables.push(
                    EngineTableView { name: name@, desc: desc@, rows: rows.deep_view() },
                ),
                ..old(self)@
            }),
            final(self)@.wf(),
    {
        let ghost oldv = self@;
        let ghost t = EngineTableView { name: name@, desc: desc@, rows: rows.deep_view() };
        self.tables.push(EngineTable { name, desc, rows });
        proof {
            assert(self@.tables =~= oldv.tables.push(t));
            assert(self@ == (EngineView { tables: oldv.tables.push(t), ..oldv }));
            assert forall|i: int| 0 <= i < self@.tables.len() implies (
            #[trigger] self@.tables[i]).wf() by {
                if i < oldv.tables.len() {
                    assert(oldv.tables[i].wf());
                }
            }
        }
    }

    /// Installs a statement under its text.
    pub fn add_statement(&mut self, text: String, action: StatementAction)
        requires
            old(self)@.wf(),
            action@.wf(),
            !old(self)@.has_statement(text@),
        ensures
            final(self)@ == (EngineView {
                statements: old(self)@.statements.push(
                    StatementView { text: text@, action: action@ },
                ),
                ..old(self)@
            }),
            final(self)@.wf(),
    {
        let ghost oldv = self@;
        let ghost s = StatementView { text: text@, action: action@ };
        self.statements.push(Statement { text, action });
        proof {
            assert(self@.statements =~= oldv.statements.push(s));
            assert(self@ == (EngineView { statements: oldv.statements.push(s), ..oldv }));
            assert forall|i: int| 0 <= i < self@.statements.len() implies (
            #[trigger] self@.statements[i]).action.wf() by {
                if i < oldv.statements.len() {
                    assert(oldv.statements[i].action.wf());
                }
            }
        }
    }
}

/// A statement's effect, prepared as owned data before the engine state is
/// touched.
enum Prep {
    Sel(TupleDesc, Vec<Vec<Option<Datum>>>),
    Read(String),
    Ins(String),
}

/// At most `limit` of `len` rows when a positive limit cuts them short, all
/// of them otherwise.
fn take_count(len: usize, limit: i64) -> (t: usize)
    requires
        len <= MAX_ROWS,
    ensures
        t as int == (if 0 < limit < len { limit as int } else { len as int }),
        t <= len,
{
    let len_i = len as i64;
    if 0 < limit && limit < len_i {
        limit as usize
    } else {
        len
    }
}

/// Rebuilds the argument row out of the parallel value and null-flag
/// sequences, as the engine reads them.
fn decode_arg_row(values: &Vec<Datum>, nulls: &Vec<u8>) -> (r: Vec<Option<Datum>>)
    requires
        values@.len() == nulls@.len(),
    ensures
        r.deep_view() == decoded_args(values.deep_view(), nulls@),
{
    let ghost expected = decoded_args(values.deep_view(), nulls@);
    let mut r: Vec<Option<Datum>> = Vec::new();
    let n = values.len();
    let mut j: usize = 0;
    while j < n
        invariant
            n == values@.len(),
            n == nulls@.len(),
            expected == decoded_args(values.deep_view(), nulls@),
            j <= n,
            r@.len() == j,
            forall|k: int| 0 <= k < j ==> (#[trigger] r@[k]).deep_view() == expected[k],
        decreases n - j,
    {
        if nulls[j] == FLAG_NULL {
            r.push(None);
        } else {
            r.push(Some(values[j].clone()));
        }
        j = j + 1;
    }
    proof {
        assert(r.deep_view() =~= expected);
    }
    r
}

impl Engine {
    /// The connect primitive: enters one more connection scope.  It fails
    /// only when the nesting depth cannot grow any further.
    pub fn connect(&mut self) -> (code: i32)
        ensures
            old(self)@.wf() ==> final(self)@.wf(),
            crate::status::recognized(code as int),
            old(self).depth < usize::MAX ==> code == 1 && final(self)@ == (EngineView {
                depth: old(self)@.depth + 1,
                ..old(self)@
            }),
            old(self).depth == usize::MAX ==> code == -1 && final(self)@ == old(self)@,
    {
        if self.depth == usize::MAX {
            -1
        } else {
            self.depth = self.depth + 1;
            1
        }
    }

    /// The disconnect primitive: leaves the innermost connection scope, or
    /// reports that none is entered.
    pub fn disconnect(&mut self) -> (code: i32)
        ensures
            old(self)@.wf() ==> final(self)@.wf(),
            crate::status::recognized(code as int),
            old(self).depth == 0 ==> code == -4 && final(self)@ == old(self)@,
            old(self).depth > 0 ==> code == 2 && final(self)@ == (EngineView {
                depth: old(self)@.depth - 1,
                ..old(self)@
            }),
    {
        if self.depth == 0 {
            -4
        } else {
            self.depth = self.depth - 1;
            2
        }
    }

    /// Clears the process-wide result slot, the defensive step before every
    /// call that overwrites it.
    pub fn clear_slot(&mut self)
        ensures
            old(self)@.wf() ==> final(self)@.wf(),
            final(self)@ == (EngineView { slot: None, ..old(self)@ }),
    {
        self.slot = None;
    }

    /// Moves the result slot's contents out, together with the row-count
    /// slot: the single-writer handoff.  The slot is left clear, so no later
    /// call can alias what was taken.
    pub fn take_result(&mut self) -> (r: (Option<ResultSet>, usize))
        requires
            old(self)@.wf(),
        ensures
            final(self)@.wf(),
            final(self)@ == (EngineView { slot: None, ..old(self)@ }),
            match r.0 {
                Some(rs) => old(self)@.slot == Some(rs@),
                None => old(self)@.slot is None,
            },
            r.1 as int == old(self)@.processed,
            r.1 <= MAX_ROWS,
    {
        let rs = self.slot.take();
        (rs, self.processed)
    }

    /// Finds the installed statement with this text.
    fn find_statement(&self, query: &str) -> (r: Option<usize>)
        ensures
            match r {
                Some(i) => 0 <= i < self@.statements.len() && self@.statements[i as int].text
                    == query@,
                None => !self@.has_statement(query@),
            },
    {
        let q: String = query.to_owned();
        let n = self.statements.len();
        let mut j: usize = 0;
        while j < n
            invariant
                n == self@.statements.len(),
                q@ == query@,
                j <= n,
                forall|k: int| 0 <= k < j ==> (#[trigger] self@.statements[k]).text != query@,
            decreases n - j,
        {
            if self.statements[j].text == q {
                return Some(j);
            }
            j = j + 1;
        }
        None
    }

    /// Finds the engine table with this name.
    fn find_table(&self, name: &String) -> (r: Option<usize>)
        ensures
            match r {
                Some(i) => 0 <= i < self@.tables.len() && self@.tables[i as int].name == name@,
                None => !self@.has_table(name@),
            },
    {
        let n = self.tables.len();
        let mut j: usize = 0;
        while j < n
            invariant
                n == self@.tables.len(),
                j <= n,
                forall|k: int| 0 <= k < j ==> (#[trigger] self@.tables[k]).name != name@,
            decreases n - j,
    {
            if self.tables[j].name == *name {
                return Some(j);
            }
            j = j + 1;
        }
        None
    }

    /// The unparameterized execute primitive.
    pub fn execute(&mut self, query: &str, read_only: bool, limit: i64) -> (code: i32)
        requires
            old(self)@.wf(),
        ensures
            final(self)@.wf(),
            crate::status::recognized(code as int),
            (final(self)@, code as int) == spec_execute(
                old(self)@,
                query@,
                Seq::empty(),
                limit as int,
            ),
    {
        let values: Vec<Datum> = Vec::new();
        let nulls: Vec<u8> = Vec::new();
        let argtypes: Vec<u32> = Vec::new();
        proof {
            assert(decoded_args(values.deep_view(), nulls@) =~= Seq::<Option<DatumView>>::empty());
        }
        self.execute_with_args(query, &argtypes, &values, &nulls, read_only, limit)
    }

    /// The parameterized execute primitive: the argument row arrives as
    /// parallel type, value, and null-flag sequences.
    pub fn execute_with_args(
        &mut self,
        query: &str,
        _argtypes: &Vec<u32>,
        values: &Vec<Datum>,
        nulls: &Vec<u8>,
        _read_only: bool,
        limit: i64,
    ) -> (code: i32)
        requires
            old(self)@.wf(),
            values@.len() == nulls@.len(),
        ensures
            final(self)@.wf(),
            crate::status::recognized(code as int),
            (final(self)@, code as int) == spec_execute(
                old(self)@,
                query@,
                decoded_args(values.deep_view(), nulls@),
                limit as int,
            ),
    {
        let ghost oldv = old(self)@;
        let ghost args = decoded_args(values.deep_view(), nulls@);
        self.slot = None;
        self.processed = 0;
        proof {
            assert(self@ =~~= (EngineView { slot: None, processed: 0, ..oldv }));
        }
        if self.depth == 0 {
            return -4;
        }
        let si = match self.find_statement(query) {
            Some(si) => si,
            None => {
                proof {
                    assert(!oldv.has_statement(query@));
                }
                return -3;
            },
        };
        proof {
            lemma_statement_index_is(oldv, query@, si as int);
        }
        let prep: Prep = match &self.statements[si].action {
            StatementAction::Rows(desc, rows) => {
                let taken = take_count(rows.len(), limit);
                Prep::Sel(clone_desc(desc), clone_rows_prefix(rows, taken))
            },
            StatementAction::ReadTable(tname) => Prep::Read(tname.clone()),
            StatementAction::Insert(tname) => Prep::Ins(tname.clone()),
        };
        match prep {
            Prep::Sel(desc2, rows2) => {
                let np = rows2.len();
                self.slot = Some(ResultSet { desc: desc2, rows: rows2 });
                self.processed = np;
                proof {
                    assert(self@ =~~= spec_execute(oldv, query@, args, limit as int).0);
                }
                5
            },
            Prep::Read(tname) => {
                let ti = match self.find_table(&tname) {
                    Some(ti) => ti,
                    None => {
                        proof {
                            assert(!oldv.has_table(tname@));
                        }
                        return -13;
                    },
                };
                proof {
                    lemma_table_index_is(oldv, tname@, ti as int);
                }
                let (desc2, rows2) = {
                    let tbl = &self.tables[ti];
                    let taken = take_count(tbl.rows.len(), limit);
                    (clone_desc(&tbl.desc), clone_rows_prefix(&tbl.rows, taken))
                };
                let np = rows2.len();
                self.slot = Some(ResultSet { desc: desc2, rows: rows2 });
                self.processed = np;
                proof {
                    assert(self@ =~~= spec_execute(oldv, query@, args, limit as int).0);
                }
                5
            },
            Prep::Ins(tname) => {
                let ti = match self.find_table(&tname) {
                    Some(ti) => ti,
                    None => {
                        proof {
                            assert(!oldv.has_table(tname@));
                        }
                        return -13;
                    },
                };
                proof {
                    lemma_table_index_is(oldv, tname@, ti as int);
                }
                let ncols = self.tables[ti].desc.natts();
                if values.len() != ncols || self.tables[ti].rows.len() >= MAX_ROWS {
                    return -6;
                }
                let row = decode_arg_row(values, nulls);
                let mut tbl = self.tables.remove(ti);
                tbl.rows.push(row);
                self.tables.insert(ti, tbl);
                self.processed = 1;
                proof {
                    let expected = spec_execute(oldv, query@, args, limit as int).0;
                    assert(self@.tables =~~= expected.tables);
                    assert(self@ =~~= expected);
                }
                7
            },
        }
    }
}

/// One decimal digit as a string slice.
fn digit_str(d: u64) -> (r: &'static str)
    requires
        d < 10,
    ensures
        r@ == seq![dec_digit_char(d as int)],
{
    if d == 0 {
        proof {
            reveal_strlit("0");
            assert("0"@ =~= seq![dec_digit_char(0)]);
        }
        "0"
    } else if d == 1 {
        proof {
            reveal_strlit("1");
            assert("1"@ =~= seq![dec_digit_char(1)]);
        }
        "1"
    } else if d == 2 {
        proof {
            reveal_strlit("2");
            assert("2"@ =~= seq![dec_digit_char(2)]);
        }
        "2"
    } else if d == 3 {
        proof {
            reveal_strlit("3");
            assert("3"@ =~= seq![dec_digit_char(3)]);
        }
        "3"
    } else if d == 4 {
        proof {
            reveal_strlit("4");
            assert("4"@ =~= seq![dec_digit_char(4)]);
        }
        "4"
    } else if d == 5 {
        proof {
            reveal_strlit("5");
            assert("5"@ =~= seq![dec_digit_char(5)]);
        }
        "5"
    } else if d == 6 {
        proof {
            reveal_strlit("6");
            assert("6"@ =~= seq![dec_digit_char(6)]);
        }
        "6"
    } else if d == 7 {
        proof {
            reveal_strlit("7");
            assert("7"@ =~= seq![dec_digit_char(7)]);
        }
        "7"
    } else if d == 8 {
        proof {
            reveal_strlit("8");
            assert("8"@ =~= seq![dec_digit_char(8)]);
        }
        "8"
    } else {
        proof {
            reveal_strlit("9");
            assert("9"@ =~= seq![dec_digit_char(9)]);
        }
        "9"
    }
}

/// Appends a number's decimal digits to a string.
fn push_dec_digits(s: &mut String, n: u64)
    ensures
        final(s)@ == old(s)@ + dec_digits(n as nat),
    decreases n,
{
    if n >= 10 {
        push_dec_digits(s, n / 10);
        s.append(digit_str(n % 10));
        proof {
            assert(s@ =~= old(s)@ + dec_digits(n as nat));
        }
    } else {
        s.append(digit_str(n));
        proof {
            assert(s@ =~= old(s)@ + dec_digits(n as nat));
        }
    }
}

/// The engine-assigned portal name for a counter value.
fn auto_name_exec(k: u64) -> (r: String)
    ensures
        r@ == auto_portal_name(k as nat),
{
    let mut s = String::new();
    proof {
        reveal_strlit("#");
        assert("#"@ =~= seq!['#']);
    }
    s.append("#");
    push_dec_digits(&mut s, k);
    proof {
        assert(s@ =~= auto_portal_name(k as nat));
    }
    s
}

/// The state transition and result of opening a portal over a statement:
/// the portal is named by the caller or by the engine's counter, and its
/// rows are the statement's rows at open time.
pub open spec fn spec_cursor_open(
    e: EngineView,
    name: Option<Seq<char>>,
    text: Seq<char>,
) -> (EngineView, Result<Seq<char>, SpiError>) {
    if e.depth == 0 {
        (e, Err(SpiError::Unconnected))
    } else if !e.has_statement(text) {
        (e, Err(SpiError::Opunknown))
    } else {
        match e.statement_action(text) {
            StatementActionView::Rows(desc, rows) => spec_open_portal(e, name, desc, rows),
            StatementActionView::ReadTable(tname) => {
                if !e.has_table(tname) {
                    (e, Err(SpiError::RelNotFound))
                } else {
                    spec_open_portal(e, name, e.table_at(tname).desc, e.table_at(tname).rows)
                }
            },
            StatementActionView::Insert(_) => (e, Err(SpiError::Cursor)),
        }
    }
}

/// Opening a portal once its rows are resolved: a caller-chosen name must be
/// free and outside the engine's reserved namespace; an engine-assigned name
/// is minted from the counter.
pub open spec fn spec_open_portal(
    e: EngineView,
    name: Option<Seq<char>>,
    desc: TupleDescView,
    rows: Seq<Seq<Option<DatumView>>>,
) -> (EngineView, Result<Seq<char>, SpiError>) {
    match name {
        Some(n) => {
            if reserved_name(n) || e.has_portal(n) {
                (e, Err(SpiError::DuplicateCursor))
            } else {
                (
                    EngineView {
                        portals: e.portals.push(
                            PortalView { name: n, desc: desc, rows: rows, pos: 0, auto_id: None },
                        ),
                        ..e
                    },
                    Ok(n),
                )
            }
        },
        None => {
            if e.portal_counter >= u64::MAX {
                (e, Err(SpiError::Cursor))
            } else {
                let n = auto_portal_name(e.portal_counter as nat);
                (
                    EngineView {
                        portals: e.portals.push(
                            PortalView {
                                name: n,
                                desc: desc,
                                rows: rows,
                                pos: 0,
                                auto_id: Some(e.portal_counter as u64),
                            },
                        ),
                        portal_counter: e.portal_counter + 1,
                        ..e
                    },
                    Ok(n),
                )
            }
        },
    }
}

/// The state transition and outcome of fetching `count` rows forward from a
/// named portal: the result slot receives the next rows, at most `count` of
/// them, and the portal's position advances past them.  A name that no open
/// portal carries leaves the slots clear.
pub open spec fn spec_cursor_fetch(e: EngineView, name: Seq<char>, count: int) -> (
    EngineView,
    bool,
) {
    if !e.has_portal(name) {
        (EngineView { slot: None, processed: 0, ..e }, false)
    } else {
        let i = e.portal_index(name);
        let p = e.portals[i];
        let want = if count <= 0 {
            0
        } else {
            count
        };
        let k = if want <= p.rows.len() - p.pos {
            want
        } else {
            p.rows.len() - p.pos
        };
        (
            EngineView {
                portals: e.portals.update(i, PortalView { pos: p.pos + k, ..p }),
                slot: Some(
                    ResultSetView { desc: p.desc, rows: p.rows.subrange(p.pos, p.pos + k) },
                ),
                processed: k,
                ..e
            },
            true,
        )
    }
}

/// Clearing the result slot beforehand does not change what a fetch does:
/// the slot is write-only to the call.
pub proof fn lemma_fetch_ignores_slot(e: EngineView, name: Seq<char>, count: int)
    ensures
        spec_cursor_fetch(EngineView { slot: None, ..e }, name, count) == spec_cursor_fetch(
            e,
            name,
            count,
        ),
{
    let cleared = EngineView { slot: None, ..e };
    let (r1, f1) = spec_cursor_fetch(cleared, name, count);
    let (r2, f2) = spec_cursor_fetch(e, name, count);
    assert(r1 =~~= r2);
}

/// The state transition of closing a named portal: it is removed, and the
/// name may be reused.  A name that no open portal carries changes nothing.
pub open spec fn spec_cursor_close(e: EngineView, name: Seq<char>) -> EngineView {
    if e.has_portal(name) {
        EngineView { portals: e.portals.remove(e.portal_index(name)), ..e }
    } else {
        e
    }
}

/// Closing removes the named portal: afterwards no open portal carries the
/// name.
pub proof fn lemma_close_removes(e: EngineView, name: Seq<char>)
    requires
        e.wf(),
    ensures
        !spec_cursor_close(e, name).has_portal(name),
{
    let e2 = spec_cursor_close(e, name);
    if e.has_portal(name) {
        let pi = e.portal_index(name);
        assert(0 <= pi < e.portals.len() && e.portals[pi].name == name);
        if e2.has_portal(name) {
            let j = e2.portal_index(name);
            assert(0 <= j < e2.portals.len() && e2.portals[j].name == name);
            let oj = if j < pi {
                j
            } else {
                j + 1
            };
            assert(e2.portals[j] == e.portals[oj]);
            if oj < pi {
                assert(e.portals[oj].name != e.portals[pi].name);
            } else {
                assert(e.portals[pi].name != e.portals[oj].name);
            }
            assert(false);
        }
    }
}

/// Copies the rows of a half-open index range.
fn clone_rows_range(rows: &Vec<Vec<Option<Datum>>>, from: usize, to: usize) -> (r: Vec<
    Vec<Option<Datum>>,
>)
    requires
        from <= to <= rows.len(),
    ensures
        r.deep_view() == rows.deep_view().subrange(from as int, to as int),
        r@.len() == to - from,
{
    let ghost rowsv = rows.deep_view();
    let mut r: Vec<Vec<Option<Datum>>> = Vec::new();
    let mut j: usize = from;
    while j < to
        invariant
            from <= j <= to <= rows.len(),
            rowsv == rows.deep_view(),
            r@.len() == j - from,
            forall|k: int| 0 <= k < j - from ==> (#[trigger] r@[k]).deep_view() == rowsv[from + k],
        decreases to - j,
    {
        let row = clone_row(&rows[j]);
        r.push(row);
        j = j + 1;
    }
    proof {
        assert(r.deep_view() =~= rowsv.subrange(from as int, to as int));
    }
    r
}

impl Engine {
    /// Finds the open portal with this name.
    fn find_portal(&self, name: &String) -> (r: Option<usize>)
        ensures
            match r {
                Some(i) => 0 <= i < self@.portals.len() && self@.portals[i as int].name == name@,
                None => !self@.has_portal(name@),
            },
    {
        let n = self.portals.len();
        let mut j: usize = 0;
        while j < n
            invariant
                n == self@.portals.len(),
                j <= n,
                forall|k: int| 0 <= k < j ==> (#[trigger] self@.portals[k]).name != name@,
            decreases n - j,
        {
            if self.portals[j].name == *name {
                return Some(j);
            }
            j = j + 1;
        }
        None
    }

    /// The portal lookup primitive: whether an open portal carries this name.
    pub fn cursor_find(&self, name: &str) -> (found: bool)
        ensures
            found == self@.has_portal(name@),
    {
        let q: String = name.to_owned();
        self.find_portal(&q).is_some()
    }

    /// The portal open primitive.  The portal snapshots the statement's rows
    /// as they stand; a caller-chosen name must be free and may not sit in
    /// the engine's reserved namespace, while `None` asks the engine to
    /// assign a fresh name.
    pub fn cursor_open_with_args(
        &mut self,
        name: Option<String>,
        query: &str,
        _argtypes: &Vec<u32>,
        _values: &Vec<Datum>,
        _nulls: &Vec<u8>,
        _read_only: bool,
        _options: i32,
    ) -> (r: Result<String, SpiError>)
        requires
            old(self)@.wf(),
        ensures
            final(self)@.wf(),
            ({
                let (e2, r2) = spec_cursor_open(
                    old(self)@,
                    match name {
                        Some(n) => Some(n@),
                        None => None,
                    },
                    query@,
                );
                final(self)@ == e2 && (match (r, r2) {
                    (Ok(s), Ok(sv)) => s@ == sv,
                    (Err(a), Err(b)) => a == b,
                    _ => false,
                })
            }),
    {
        let ghost oldv = self@;
        let ghost namev: Option<Seq<char>> = match &name {
            Some(n) => Some(n@),
            None => None,
        };
        if self.depth == 0 {
            return Err(SpiError::Unconnected);
        }
        let si = match self.find_statement(query) {
            Some(si) => si,
            None => {
                return Err(SpiError::Opunknown);
            },
        };
        proof {
            lemma_statement_index_is(oldv, query@, si as int);
        }
        let prep: Prep = match &self.statements[si].action {
            StatementAction::Rows(desc, rows) => {
                let n = rows.len();
                Prep::Sel(clone_desc(desc), clone_rows_range(rows, 0, n))
            },
            StatementAction::ReadTable(tname) => Prep::Read(tname.clone()),
            StatementAction::Insert(tname) => Prep::Ins(tname.clone()),
        };
        let (desc2, rows2) = match prep {
            Prep::Sel(desc2, rows2) => {
                proof {
                    assert(rows2.deep_view() =~= match oldv.statement_action(query@) {
                        StatementActionView::Rows(_, rs) => rs,
                        _ => Seq::empty(),
                    });
                }
                (desc2, rows2)
            },
            Prep::Read(tname) => {
                let ti = match self.find_table(&tname) {
                    Some(ti) => ti,
                    None => {
                        return Err(SpiError::RelNotFound);
                    },
                };
                proof {
                    lemma_table_index_is(oldv, tname@, ti as int);
                }
                let tbl = &self.tables[ti];
                let n = tbl.rows.len();
                let cloned_rows = clone_rows_range(&tbl.rows, 0, n);
                proof {
                    assert(cloned_rows.deep_view() =~= oldv.table_at(tname@).rows);
                }
                (clone_desc(&tbl.desc), cloned_rows)
            },
            Prep::Ins(_) => {
                return Err(SpiError::Cursor);
            },
        };
        match name {
            Some(n) => {
                let len = n.as_str().unicode_len();
                let reserved = if len == 0 {
                    false
                } else {
                    n.as_str().get_char(0) == '#'
                };
                if reserved {
                    return Err(SpiError::DuplicateCursor);
                }
                if self.find_portal(&n).is_some() {
                    return Err(SpiError::DuplicateCursor);
                }
                let result_name = n.clone();
                let ghost portalv = PortalView {
                    name: n@,
                    desc: desc2@,
                    rows: rows2.deep_view(),
                    pos: 0,
                    auto_id: None,
                };
                self.portals.push(
                    Portal { name: n, desc: desc2, rows: rows2, pos: 0, auto_id: Ghost(None) },
                );
                proof {
                    assert(self@.portals =~= oldv.portals.push(portalv));
                    assert(self@ =~~= spec_cursor_open(oldv, namev, query@).0);
                    assert forall|i: int| 0 <= i < self@.portals.len() implies (
                    #[trigger] self@.portals[i]).wf() by {
                        if i < oldv.portals.len() {
                            assert(oldv.portals[i].wf());
                        }
                    }
                }
                Ok(result_name)
            },
            None => {
                if self.portal_counter == u64::MAX {
                    return Err(SpiError::Cursor);
                }
                let k = self.portal_counter;
                let pname = auto_name_exec(k);
                self.portal_counter = k + 1;
                let result_name = pname.clone();
                let ghost portalv = PortalView {
                    name: auto_portal_name(k as nat),
                    desc: desc2@,
                    rows: rows2.deep_view(),
                    pos: 0,
                    auto_id: Some(k),
                };
                proof {
                    assert forall|i: int| 0 <= i < oldv.portals.len() implies (
                    #[trigger] oldv.portals[i]).name != auto_portal_name(k as nat) by {
                        match oldv.portals[i].auto_id {
                            Some(m) => {
                                lemma_auto_portal_name_fresh(m as nat, k as nat);
                            },
                            None => {
                                lemma_auto_portal_name_fresh(k as nat, k as nat);
                                assert(reserved_name(auto_portal_name(k as nat)));
                            },
                        }
                    }
                }
                self.portals.push(
                    Portal {
                        name: pname,
                        desc: desc2,
                        rows: rows2,
                        pos: 0,
                        auto_id: Ghost(Some(k)),
                    },
                );
                proof {
                    assert(self@.portals =~= oldv.portals.push(portalv));
                    assert(self@ =~~= spec_cursor_open(oldv, namev, query@).0);
                    assert forall|i: int| 0 <= i < self@.portals.len() implies (
                    #[trigger] self@.portals[i]).wf() by {
                        if i < oldv.portals.len() {
                            assert(oldv.portals[i].wf());
                        }
                    }
                }
                Ok(result_name)
            },
        }
    }

    /// The fetch primitive: advances the named portal by at most `count`
    /// rows in the forward direction and leaves the retrieved rows in the
    /// result slot.  Only forward fetching is modeled, as only it is used.
    pub fn cursor_fetch(&mut self, name: &str, forward: bool, count: i64) -> (found: bool)
        requires
            old(self)@.wf(),
            forward,
        ensures
            final(self)@.wf(),
            (final(self)@, found) == spec_cursor_fetch(old(self)@, name@, count as int),
    {
        let ghost oldv = self@;
        self.slot = None;
        self.processed = 0;
        let q: String = name.to_owned();
        let pi = match self.find_portal(&q) {
            Some(pi) => pi,
            None => {
                proof {
                    assert(self@ =~~= spec_cursor_fetch(oldv, name@, count as int).0);
                }
                return false;
            },
        };
        proof {
            lemma_portal_index_is(oldv, name@, pi as int);
        }
        let (desc2, batch, k) = {
            let p = &self.portals[pi];
            let remaining = p.rows.len() - p.pos;
            let rem_i = remaining as i64;
            let k_i: i64 = if count <= 0 {
                0
            } else if count < rem_i {
                count
            } else {
                rem_i
            };
            let k = k_i as usize;
            (clone_desc(&p.desc), clone_rows_range(&p.rows, p.pos, p.pos + k), k)
        };
        let mut p = self.portals.remove(pi);
        let ghost pv = p@;
        p.pos = p.pos + k;
        self.portals.insert(pi, p);
        self.slot = Some(ResultSet { desc: desc2, rows: batch });
        self.processed = k;
        proof {
            let expected = spec_cursor_fetch(oldv, name@, count as int).0;
            assert(self@.portals =~~= expected.portals);
            assert(self@ =~~= expected);
            assert forall|i: int| 0 <= i < self@.portals.len() implies (
            #[trigger] self@.portals[i]).wf() by {
                assert(self@.portals[i] == expected.portals[i]);
                assert(oldv.portals[i].wf());
            }
        }
        true
    }

    /// The close primitive: releases the named portal at once.
    pub fn cursor_close(&mut self, name: &str) -> (found: bool)
        requires
            old(self)@.wf(),
        ensures
            final(self)@.wf(),
            final(self)@ == spec_cursor_close(old(self)@, name@),
            found == old(self)@.has_portal(name@),
    {
        let ghost oldv = self@;
        let q: String = name.to_owned();
        let pi = match self.find_portal(&q) {
            Some(pi) => pi,
            None => {
                return false;
            },
        };
        proof {
            lemma_portal_index_is(oldv, name@, pi as int);
        }
        self.portals.remove(pi);
        proof {
            let expected = spec_cursor_close(oldv, name@);
            assert(self@.portals =~= expected.portals);
            assert(self@ =~~= expected);
            assert forall|i: int, j: int|
                0 <= i < j < self@.portals.len() implies (#[trigger] self@.portals[i]).name != (
            #[trigger] self@.portals[j]).name by {
                let oi = if i < pi { i } else { i + 1 };
                let oj = if j < pi { j } else { j + 1 };
                assert(self@.portals[i] == oldv.portals[oi]);
                assert(self@.portals[j] == oldv.portals[oj]);
                assert(oldv.portals[oi].name != oldv.portals[oj].name);
            }
            assert forall|i: int| 0 <= i < self@.portals.len() implies (
            #[trigger] self@.portals[i]).wf() by {
                let oi = if i < pi { i } else { i + 1 };
                assert(self@.portals[i] == oldv.portals[oi]);
                assert(oldv.portals[oi].wf());
            }
            assert forall|i: int|
                0 <= i < self@.portals.len() implies match (#[trigger] self@.portals[i]).auto_id {
                Some(kk) => kk < self@.portal_counter && self@.portals[i].name == auto_portal_name(
                    kk as nat,
                ),
                None => !reserved_name(self@.portals[i].name),
            } by {
                let oi = if i < pi { i } else { i + 1 };
                assert(self@.portals[i] == oldv.portals[oi]);
            }
        }
        true
    }
}

} // verus!
