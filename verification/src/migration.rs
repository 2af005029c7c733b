use vstd::prelude::*;

verus! {

broadcast use vstd::string::to_string_from_display_ensures_for_str;

/// The column types that the event store's schema uses.
#[derive(Clone, Copy, PartialEq, Eq, Structural, Debug)]
pub enum ColumnKind {
    Uuid,
    Integer,
    BigInteger,
    Text,
    Json,
    Timestamp,
    Str,
}

/// A column of a table.
#[derive(Debug)]
pub struct Column {
    pub name: String,
    pub kind: ColumnKind,
    /// Rejects NULL values.
    pub not_null: bool,
    pub primary_key: bool,
    pub auto_increment: bool,
    /// Defaults to the current timestamp.
    pub default_now: bool,
}

pub struct ColumnView {
    pub name: Seq<char>,
    pub kind: ColumnKind,
    pub not_null: bool,
    pub primary_key: bool,
    pub auto_increment: bool,
    pub default_now: bool,
}

impl View for Column {
    type V = ColumnView;

    open spec fn view(&self) -> ColumnView {
        ColumnView {
            name: self.name@,
            kind: self.kind,
            not_null: self.not_null,
            primary_key: self.primary_key,
            auto_increment: self.auto_increment,
            default_now: self.default_now,
        }
    }
}

/// A table to create.
#[derive(Debug)]
pub struct Table {
    pub name: String,
    /// Created only if no table of that name exists yet.
    pub if_not_exists: bool,
    pub columns: Vec<Column>,
}

pub struct TableView {
    pub name: Seq<char>,
    pub if_not_exists: bool,
    pub columns: Seq<ColumnView>,
}

impl View for Table {
    type V = TableView;

    open spec fn view(&self) -> TableView {
        TableView {
            name: self.name@,
            if_not_exists: self.if_not_exists,
            columns: self.columns@.map_values(|c: Column| c@),
        }
    }
}

/// An index over some columns of a table.
#[derive(Debug)]
pub struct Index {
    pub name: String,
    pub table: String,
    pub columns: Vec<String>,
    pub unique: bool,
    pub if_not_exists: bool,
}

pub struct IndexView {
    pub name: Seq<char>,
    pub table: Seq<char>,
    pub columns: Seq<Seq<char>>,
    pub unique: bool,
    pub if_not_exists: bool,
}

impl View for Index {
    type V = IndexView;

    open spec fn view(&self) -> IndexView {
        IndexView {
            name: self.name@,
            table: self.table@,
            columns: self.columns@.map_values(|c: String| c@),
            unique: self.unique,
            if_not_exists: self.if_not_exists,
        }
    }
}

/// A foreign key from a column of one table to a column of another.
#[derive(Debug)]
pub struct ForeignKey {
    pub name: String,
    pub from_table: String,
    pub from_column: String,
    pub to_table: String,
    pub to_column: String,
}

pub struct ForeignKeyView {
    pub name: Seq<char>,
    pub from_table: Seq<char>,
    pub from_column: Seq<char>,
    pub to_table: Seq<char>,
    pub to_column: Seq<char>,
}

impl View for ForeignKey {
    type V = ForeignKeyView;

    open spec fn view(&self) -> ForeignKeyView {
        ForeignKeyView {
            name: self.name@,
            from_table: self.from_table@,
            from_column: self.from_column@,
            to_table: self.to_table@,
            to_column: self.to_column@,
        }
    }
}

/// One change to the database schema.
#[derive(Debug)]
pub enum SchemaChange {
    CreateTable(Table),
    CreateIndex(Index),
    CreateForeignKey(ForeignKey),
    DropTable(String),
}

pub enum SchemaChangeView {
    CreateTable(TableView),
    CreateIndex(IndexView),
    CreateForeignKey(ForeignKeyView),
    DropTable(Seq<char>),
}

impl View for SchemaChange {
    type V = SchemaChangeView;

    open spec fn view(&self) -> SchemaChangeView {
        match self {
            SchemaChange::CreateTable(t) => SchemaChangeView::CreateTable(t@),
            SchemaChange::CreateIndex(i) => SchemaChangeView::CreateIndex(i@),
            SchemaChange::CreateForeignKey(f) => SchemaChangeView::CreateForeignKey(f@),
            SchemaChange::DropTable(t) => SchemaChangeView::DropTable(t@),
        }
    }
}

pub open spec fn changes_view(changes: Seq<SchemaChange>) -> Seq<SchemaChangeView> {
    changes.map_values(|c: SchemaChange| c@)
}

pub open spec fn column_view(name: Seq<char>, kind: ColumnKind) -> ColumnView {
    ColumnView { name, kind, not_null: true, primary_key: false, auto_increment: false, default_now: false }
}

pub open spec fn key_column_view(name: Seq<char>, kind: ColumnKind) -> ColumnView {
    ColumnView { name, kind, not_null: true, primary_key: true, auto_increment: false, default_now: false }
}

/// The tables of the event store: aggregates, their events, and snapshots of
/// their state.
pub open spec fn aggregates_table() -> TableView {
    TableView {
        name: "es_aggregates"@,
        if_not_exists: true,
        columns: seq![
            key_column_view("id"@, ColumnKind::Uuid),
            column_view("version"@, ColumnKind::Integer),
            column_view("aggregate_type"@, ColumnKind::Str),
        ],
    }
}

pub open spec fn events_table() -> TableView {
    TableView {
        name: "es_events"@,
        if_not_exists: true,
        columns: seq![
            ColumnView {
                name: "id"@,
                not_null: true,
                kind: ColumnKind::BigInteger,
                primary_key: true,
                auto_increment: true,
                default_now: false,
            },
            column_view("aggregate_id"@, ColumnKind::Uuid),
            column_view("version"@, ColumnKind::Integer),
            column_view("event_type"@, ColumnKind::Text),
            column_view("json_data"@, ColumnKind::Json),
            column_view("meta_data"@, ColumnKind::Json),
            ColumnView {
                name: "create_at"@,
                not_null: true,
                kind: ColumnKind::Timestamp,
                primary_key: false,
                auto_increment: false,
                default_now: true,
            },
        ],
    }
}

pub open spec fn snapshots_table() -> TableView {
    TableView {
        name: "es_aggregate_snapshots"@,
        if_not_exists: true,
        columns: seq![
            key_column_view("aggregate_id"@, ColumnKind::Uuid),
            column_view("version"@, ColumnKind::Integer),
            column_view("json_data"@, ColumnKind::Json),
            column_view("revision"@, ColumnKind::Uuid),
        ],
    }
}

pub open spec fn index_view(name: Seq<char>, table: Seq<char>, columns: Seq<Seq<char>>, unique: bool, if_not_exists: bool) -> IndexView {
    IndexView { name, table, columns, unique, if_not_exists }
}

/// The schema changes that set up the event store, in order.
pub open spec fn up_plan() -> Seq<SchemaChangeView> {
    seq![
        SchemaChangeView::CreateTable(aggregates_table()),
        SchemaChangeView::CreateIndex(index_view(
            "idx_es_aggregates_aggregate_type"@, "es_aggregates"@, seq!["aggregate_type"@], false, true)),
        SchemaChangeView::CreateTable(events_table()),
        SchemaChangeView::CreateForeignKey(ForeignKeyView {
            name: "fk_events_aggregate"@,
            from_table: "es_events"@,
            from_column: "aggregate_id"@,
            to_table: "es_aggregates"@,
            to_column: "id"@,
        }),
        SchemaChangeView::CreateIndex(index_view(
            "idx_es_events_version"@, "es_events"@, seq!["version"@], false, true)),
        SchemaChangeView::CreateIndex(index_view(
            "idx_es_events_aggregate_id"@, "es_events"@, seq!["aggregate_id"@], false, true)),
        SchemaChangeView::CreateIndex(index_view(
            "idx_aggregate_ids_versions"@, "es_events"@, seq!["aggregate_id"@, "version"@], true, false)),
        SchemaChangeView::CreateTable(snapshots_table()),
        SchemaChangeView::CreateForeignKey(ForeignKeyView {
            name: "fk_aggregate_snapshots_events"@,
            from_table: "es_aggregate_snapshots"@,
            from_column: "aggregate_id"@,
            to_table: "es_aggregates"@,
            to_column: "id"@,
        }),
    ]
}

/// The schema changes that tear the event store down, in order.
pub open spec fn down_plan() -> Seq<SchemaChangeView> {
    seq![
        SchemaChangeView::DropTable("es_aggregate_snapshots"@),
        SchemaChangeView::DropTable("es_events"@),
        SchemaChangeView::DropTable("es_aggregates"@),
    ]
}

} // verus!

verus! {

fn column(name: &str, kind: ColumnKind) -> (r: Column)
    ensures
        r@ == column_view(name@, kind),
{
    Column { name: name.to_string(), kind, not_null: true, primary_key: false, auto_increment: false, default_now: false }
}

fn key_column(name: &str, kind: ColumnKind) -> (r: Column)
    ensures
        r@ == key_column_view(name@, kind),
{
    Column { name: name.to_string(), kind, not_null: true, primary_key: true, auto_increment: false, default_now: false }
}

fn index(name: &str, table: &str, columns: Vec<String>, unique: bool, if_not_exists: bool) -> (r: Index)
    ensures
        r@ == index_view(name@, table@, columns@.map_values(|c: String| c@), unique, if_not_exists),
{
    Index { name: name.to_string(), table: table.to_string(), columns, unique, if_not_exists }
}

fn foreign_key_to_aggregate(name: &str, from_table: &str) -> (r: ForeignKey)
    ensures
        r@ == (ForeignKeyView {
            name: name@,
            from_table: from_table@,
            from_column: "aggregate_id"@,
            to_table: "es_aggregates"@,
            to_column: "id"@,
        }),
{
    ForeignKey {
        name: name.to_string(),
        from_table: from_table.to_string(),
        from_column: "aggregate_id".to_string(),
        to_table: "es_aggregates".to_string(),
        to_column: "id".to_string(),
    }
}

fn aggregates() -> (r: Table)
    ensures
        r@ == aggregates_table(),
{
    let columns = vec![
        key_column("id", ColumnKind::Uuid),
        column("version", ColumnKind::Integer),
        column("aggregate_type", ColumnKind::Str),
    ];
    let r = Table { name: "es_aggregates".to_string(), if_not_exists: true, columns };
    assert(r@.columns =~= aggregates_table().columns);
    r
}

fn events() -> (r: Table)
    ensures
        r@ == events_table(),
{
    let columns = vec![
        Column {
            name: "id".to_string(),
            not_null: true,
            kind: ColumnKind::BigInteger,
            primary_key: true,
            auto_increment: true,
            default_now: false,
        },
        column("aggregate_id", ColumnKind::Uuid),
        column("version", ColumnKind::Integer),
        column("event_type", ColumnKind::Text),
        column("json_data", ColumnKind::Json),
        column("meta_data", ColumnKind::Json),
        Column {
            name: "create_at".to_string(),
            not_null: true,
            kind: ColumnKind::Timestamp,
            primary_key: false,
            auto_increment: false,
            default_now: true,
        },
    ];
    let r = Table { name: "es_events".to_string(), if_not_exists: true, columns };
    assert(r@.columns =~= events_table().columns);
    r
}

fn snapshots() -> (r: Table)
    ensures
        r@ == snapshots_table(),
{
    let columns = vec![
        key_column("aggregate_id", ColumnKind::Uuid),
        column("version", ColumnKind::Integer),
        column("json_data", ColumnKind::Json),
        column("revision", ColumnKind::Uuid),
    ];
    let r = Table { name: "es_aggregate_snapshots".to_string(), if_not_exists: true, columns };
    assert(r@.columns =~= snapshots_table().columns);
    r
}

fn names(first: &str) -> (r: Vec<String>)
    ensures
        r@.map_values(|c: String| c@) == seq![first@],
{
    let r = vec![first.to_string()];
    assert(r@.map_values(|c: String| c@) =~= seq![first@]);
    r
}

/// The migration that creates the event store's tables.
pub struct Migration;

impl Migration {
    /// The changes that set up the schema.
    pub fn up(&self) -> (r: Vec<SchemaChange>)
        ensures
            changes_view(r@) == up_plan(),
    {
        let pair = vec!["aggregate_id".to_string(), "version".to_string()];
        assert(pair@.map_values(|c: String| c@) =~= seq!["aggregate_id"@, "version"@]);
        let r = vec![
            SchemaChange::CreateTable(aggregates()),
            SchemaChange::CreateIndex(index(
                "idx_es_aggregates_aggregate_type", "es_aggregates", names("aggregate_type"), false, true)),
            SchemaChange::CreateTable(events()),
            SchemaChange::CreateForeignKey(foreign_key_to_aggregate("fk_events_aggregate", "es_events")),
            SchemaChange::CreateIndex(index("idx_es_events_version", "es_events", names("version"), false, true)),
            SchemaChange::CreateIndex(index(
                "idx_es_events_aggregate_id", "es_events", names("aggregate_id"), false, true)),
            SchemaChange::CreateIndex(index("idx_aggregate_ids_versions", "es_events", pair, true, false)),
            SchemaChange::CreateTable(snapshots()),
            SchemaChange::CreateForeignKey(
                foreign_key_to_aggregate("fk_aggregate_snapshots_events", "es_aggregate_snapshots")),
        ];
        assert(changes_view(r@) =~= up_plan());
        r
    }

    /// The changes that tear the schema down.
    pub fn down(&self) -> (r: Vec<SchemaChange>)
        ensures
            changes_view(r@) == down_plan(),
    {
        let r = vec![
            SchemaChange::DropTable("es_aggregate_snapshots".to_string()),
            SchemaChange::DropTable("es_events".to_string()),
            SchemaChange::DropTable("es_aggregates".to_string()),
        ];
        assert(changes_view(r@) =~= down_plan());
        r
    }
}

} // verus!

verus! {

/// Some change before position `i` creates `table` with a column named `column`.
pub open spec fn column_created_before(plan: Seq<SchemaChangeView>, i: int, table: Seq<char>, column: Seq<char>) -> bool {
    exists|j: int, k: int|
        0 <= j < i && plan[j] is CreateTable && plan[j]->CreateTable_0.name == table
            && 0 <= k < plan[j]->CreateTable_0.columns.len()
            && #[trigger] plan[j]->CreateTable_0.columns[k].name == column
}

/// The change at position `i` names only tables and columns that earlier
/// changes created.
pub open spec fn refers_to_earlier_tables(plan: Seq<SchemaChangeView>, i: int) -> bool {
    match plan[i] {
        SchemaChangeView::CreateIndex(ix) => forall|c: int|
            0 <= c < ix.columns.len() ==> column_created_before(plan, i, ix.table, #[trigger] ix.columns[c]),
        SchemaChangeView::CreateForeignKey(fk) => column_created_before(plan, i, fk.from_table, fk.from_column)
            && column_created_before(plan, i, fk.to_table, fk.to_column),
        _ => true,
    }
}

/// The names of the tables that a plan creates, in order.
pub open spec fn created_tables(plan: Seq<SchemaChangeView>) -> Seq<Seq<char>>
    decreases plan.len(),
{
    if plan.len() == 0 {
        Seq::empty()
    } else {
        let rest = created_tables(plan.drop_last());
        match plan.last() {
            SchemaChangeView::CreateTable(t) => rest.push(t.name),
            _ => rest,
        }
    }
}

/// The names of the tables that a plan drops, in order.
pub open spec fn dropped_tables(plan: Seq<SchemaChangeView>) -> Seq<Seq<char>>
    decreases plan.len(),
{
    if plan.len() == 0 {
        Seq::empty()
    } else {
        let rest = dropped_tables(plan.drop_last());
        match plan.last() {
            SchemaChangeView::DropTable(t) => rest.push(t),
            _ => rest,
        }
    }
}

proof fn lemma_up_tables()
    ensures
        created_tables(up_plan()) == seq!["es_aggregates"@, "es_events"@, "es_aggregate_snapshots"@],
{
    reveal_with_fuel(created_tables, 10);
    let p = up_plan();
    assert(p.drop_last() =~= p.subrange(0, 8));
    assert(created_tables(up_plan()) =~= seq!["es_aggregates"@, "es_events"@, "es_aggregate_snapshots"@]);
}

} // verus!

verus! {

proof fn lemma_down_tables()
    ensures
        dropped_tables(down_plan()) == seq!["es_aggregate_snapshots"@, "es_events"@, "es_aggregates"@],
{
    reveal_with_fuel(dropped_tables, 4);
    assert(dropped_tables(down_plan()) =~= seq!["es_aggregate_snapshots"@, "es_events"@, "es_aggregates"@]);
}

proof fn lemma_table_names_distinct()
    ensures
        "es_aggregates"@ != "es_events"@,
        "es_aggregates"@ != "es_aggregate_snapshots"@,
        "es_events"@ != "es_aggregate_snapshots"@,
{
    reveal_strlit("es_aggregates");
    reveal_strlit("es_events");
    reveal_strlit("es_aggregate_snapshots");
    assert("es_aggregates"@.len() == 13);
    assert("es_events"@.len() == 9);
    assert("es_aggregate_snapshots"@.len() == 22);
}

/// Tearing down undoes setting up: the teardown drops exactly the tables that
/// the setup creates, each once, in the reverse order of their creation.
pub proof fn law_down_undoes_up()
    ensures
        created_tables(up_plan()).no_duplicates(),
        dropped_tables(down_plan()) == created_tables(up_plan()).reverse(),
{
    lemma_up_tables();
    lemma_down_tables();
    lemma_table_names_distinct();
    assert(created_tables(up_plan()).reverse() =~= seq!["es_aggregate_snapshots"@, "es_events"@, "es_aggregates"@]);
}

/// Every index and foreign key of the setup names a table, and columns of it,
/// that an earlier step of the setup created.
pub proof fn law_up_refers_to_created_tables()
    ensures
        forall|i: int| 0 <= i < up_plan().len() ==> refers_to_earlier_tables(up_plan(), i),
{
    let p = up_plan();
    let agg = p[0]->CreateTable_0;
    let ev = p[2]->CreateTable_0;
    assert(agg.columns[0].name == "id"@);
    assert(agg.columns[2].name == "aggregate_type"@);
    assert(ev.columns[1].name == "aggregate_id"@);
    assert(ev.columns[2].name == "version"@);
    assert forall|i: int| 0 <= i < p.len() implies refers_to_earlier_tables(p, i) by {
        if i == 1 {
            let ix = p[1]->CreateIndex_0;
            assert forall|c: int| 0 <= c < ix.columns.len() implies column_created_before(p, 1, ix.table, #[trigger] ix.columns[c]) by {
                assert(p[0]->CreateTable_0.columns[2].name == ix.columns[c]);
            }
        } else if i == 3 {
            assert(p[2]->CreateTable_0.columns[1].name == "aggregate_id"@);
            assert(p[0]->CreateTable_0.columns[0].name == "id"@);
        } else if i == 4 {
            let ix = p[4]->CreateIndex_0;
            assert forall|c: int| 0 <= c < ix.columns.len() implies column_created_before(p, 4, ix.table, #[trigger] ix.columns[c]) by {
                assert(p[2]->CreateTable_0.columns[2].name == ix.columns[c]);
            }
        } else if i == 5 {
            let ix = p[5]->CreateIndex_0;
            assert forall|c: int| 0 <= c < ix.columns.len() implies column_created_before(p, 5, ix.table, #[trigger] ix.columns[c]) by {
                assert(p[2]->CreateTable_0.columns[1].name == ix.columns[c]);
            }
        } else if i == 6 {
            let ix = p[6]->CreateIndex_0;
            assert forall|c: int| 0 <= c < ix.columns.len() implies column_created_before(p, 6, ix.table, #[trigger] ix.columns[c]) by {
                if c == 0 {
                    assert(p[2]->CreateTable_0.columns[1].name == ix.columns[c]);
                } else {
                    assert(p[2]->CreateTable_0.columns[2].name == ix.columns[c]);
                }
            }
        } else if i == 8 {
            assert(p[7]->CreateTable_0.columns[0].name == "aggregate_id"@);
            assert(p[0]->CreateTable_0.columns[0].name == "id"@);
        }
    }
}

/// The teardown drops every table that holds a foreign key before the table
/// that the key points to.
pub proof fn law_down_drops_referencing_tables_first()
    ensures
        forall|i: int| 0 <= i < up_plan().len() && (#[trigger] up_plan()[i]) is CreateForeignKey ==>
            exists|a: int, b: int| 0 <= a < b < dropped_tables(down_plan()).len()
                && dropped_tables(down_plan())[a] == up_plan()[i]->CreateForeignKey_0.from_table
                && dropped_tables(down_plan())[b] == up_plan()[i]->CreateForeignKey_0.to_table,
{
    lemma_down_tables();
    let d = dropped_tables(down_plan());
    assert(d[1] == "es_events"@ && d[2] == "es_aggregates"@);
    assert(d[0] == "es_aggregate_snapshots"@);
}

} // verus!

verus! {

/// The next thing to do while a plan of schema changes is carried out: issue
/// the change at this position, or stop, either because every change was
/// applied or because the change at the given position failed.
#[derive(Clone, Copy, PartialEq, Eq, Debug)]
pub enum PlanStep {
    Issue(usize),
    Finish(Result<(), usize>),
}

/// What comes after `pending` in a plan of `len` changes, given how it went.
/// The first failing change ends the run with its position; after the last
/// change succeeds the run ends with success.
pub open spec fn next_plan_step(len: nat, pending: PlanStep, reply: Result<(), ()>) -> PlanStep {
    match pending {
        PlanStep::Finish(result) => PlanStep::Finish(result),
        PlanStep::Issue(i) => if reply is Err {
            PlanStep::Finish(Err(i))
        } else if i + 1 < len {
            PlanStep::Issue((i + 1) as usize)
        } else {
            PlanStep::Finish(Ok(()))
        },
    }
}

/// The steps taken for each reply, starting from `pending`.
pub open spec fn plan_trace(len: nat, pending: PlanStep, replies: Seq<Result<(), ()>>) -> Seq<PlanStep>
    decreases replies.len(),
{
    if replies.len() == 0 {
        Seq::empty()
    } else {
        let next = next_plan_step(len, pending, replies[0]);
        seq![next] + plan_trace(len, next, replies.drop_first())
    }
}

/// The first step of a run over `len` changes.
pub open spec fn first_plan_step(len: nat) -> PlanStep {
    if len == 0 {
        PlanStep::Finish(Ok(()))
    } else {
        PlanStep::Issue(0)
    }
}

/// Carries out a plan of schema changes in order, one change at a time,
/// stopping at the first that fails. The caller issues each change and
/// reports back how it went.
pub struct RunPlan {
    len: usize,
    pending: PlanStep,
}

pub struct RunPlanView {
    pub len: nat,
    pub pending: PlanStep,
}

impl View for RunPlan {
    type V = RunPlanView;

    closed spec fn view(&self) -> RunPlanView {
        RunPlanView { len: self.len as nat, pending: self.pending }
    }
}

impl RunPlan {
    #[verifier::type_invariant]
    closed spec fn in_plan(self) -> bool {
        self.pending matches PlanStep::Issue(i) ==> i < self.len
    }

    /// Starts a run over `len` changes: issue the first, or, for an empty
    /// plan, succeed at once.
    pub fn start(len: usize) -> (r: RunPlan)
        ensures
            r@ == (RunPlanView { len: len as nat, pending: first_plan_step(len as nat) }),
    {
        if len == 0 {
            RunPlan { len, pending: PlanStep::Finish(Ok(())) }
        } else {
            RunPlan { len, pending: PlanStep::Issue(0) }
        }
    }

    /// The change to issue, or the outcome once the run is over.
    pub fn pending(&self) -> (r: PlanStep)
        ensures
            r == self@.pending,
            r matches PlanStep::Issue(i) ==> i < self@.len,
    {
        proof {
            use_type_invariant(self);
        }
        self.pending
    }

    /// Takes how the pending change went and returns what comes next.
    pub fn step(&mut self, reply: Result<(), ()>) -> (r: PlanStep)
        ensures
            final(self)@.len == old(self)@.len,
            final(self)@.pending == r,
            r == next_plan_step(old(self)@.len, old(self)@.pending, reply),
            r matches PlanStep::Issue(i) ==> i < old(self)@.len,
    {
        proof {
            use_type_invariant(&*self);
        }
        let next = match self.pending {
            PlanStep::Finish(result) => PlanStep::Finish(result),
            PlanStep::Issue(i) => match reply {
                Err(()) => PlanStep::Finish(Err(i)),
                Ok(()) => if i + 1 < self.len {
                    PlanStep::Issue(i + 1)
                } else {
                    PlanStep::Finish(Ok(()))
                },
            },
        };
        self.pending = next;
        next
    }
}

proof fn lemma_plan_trace_len(len: nat, pending: PlanStep, replies: Seq<Result<(), ()>>)
    ensures
        plan_trace(len, pending, replies).len() == replies.len(),
    decreases replies.len(),
{
    if replies.len() > 0 {
        lemma_plan_trace_len(len, next_plan_step(len, pending, replies[0]), replies.drop_first());
    }
}

proof fn lemma_plan_finished_stays(len: nat, result: Result<(), usize>, replies: Seq<Result<(), ()>>)
    ensures
        plan_trace(len, PlanStep::Finish(result), replies).len() == replies.len(),
        forall|j: int| 0 <= j < replies.len() ==>
            #[trigger] plan_trace(len, PlanStep::Finish(result), replies)[j] == PlanStep::Finish(result),
    decreases replies.len(),
{
    if replies.len() > 0 {
        lemma_plan_finished_stays(len, result, replies.drop_first());
        let t = plan_trace(len, PlanStep::Finish(result), replies);
        assert forall|j: int| 0 <= j < replies.len() implies #[trigger] t[j] == PlanStep::Finish(result) by {
            if j > 0 {
                assert(t[j] == plan_trace(len, PlanStep::Finish(result), replies.drop_first())[j - 1]);
            }
        }
    }
}

/// The first change that fails ends the run with its position, and no later
/// change is issued: every later step is that same outcome.
pub proof fn law_plan_failure_is_final(len: nat, i: usize, later: Seq<Result<(), ()>>)
    ensures
        next_plan_step(len, PlanStep::Issue(i), Err(())) == PlanStep::Finish(Err::<(), usize>(i)),
        forall|j: int| 0 <= j < later.len() ==>
            #[trigger] plan_trace(len, PlanStep::Finish(Err(i)), later)[j] == PlanStep::Finish(Err::<(), usize>(i)),
{
    lemma_plan_finished_stays(len, Err(i), later);
}

proof fn lemma_plan_from(len: nat, k: nat, replies: Seq<Result<(), ()>>)
    requires
        k < len <= usize::MAX,
        replies.len() == len - k,
        forall|j: int| 0 <= j < replies.len() ==> #[trigger] replies[j] is Ok,
    ensures
        plan_trace(len, PlanStep::Issue(k as usize), replies).len() == replies.len(),
        forall|j: int| 0 <= j < replies.len() - 1 ==>
            #[trigger] plan_trace(len, PlanStep::Issue(k as usize), replies)[j] == PlanStep::Issue((k + j + 1) as usize),
        plan_trace(len, PlanStep::Issue(k as usize), replies).last() == PlanStep::Finish(Ok::<(), usize>(())),
    decreases len - k,
{
    let t = plan_trace(len, PlanStep::Issue(k as usize), replies);
    lemma_plan_trace_len(len, PlanStep::Issue(k as usize), replies);
    assert(replies[0] is Ok);
    if k + 1 < len {
        let rest = replies.drop_first();
        lemma_plan_from(len, k + 1, rest);
        assert forall|j: int| 0 <= j < replies.len() - 1 implies
            #[trigger] t[j] == PlanStep::Issue((k + j + 1) as usize) by {
            if j > 0 {
                assert(t[j] == plan_trace(len, PlanStep::Issue((k + 1) as usize), rest)[j - 1]);
            }
        }
    } else {
        assert(replies.drop_first().len() == 0);
    }
}

/// When every change succeeds, the run issues the changes one after the
/// other, from the first to the last, and then ends with success.
pub proof fn law_plan_success(len: nat, replies: Seq<Result<(), ()>>)
    requires
        0 < len <= usize::MAX,
        replies.len() == len,
        forall|j: int| 0 <= j < len ==> #[trigger] replies[j] is Ok,
    ensures
        first_plan_step(len) == PlanStep::Issue(0),
        plan_trace(len, PlanStep::Issue(0), replies).len() == len,
        forall|j: int| 0 <= j < len - 1 ==>
            #[trigger] plan_trace(len, PlanStep::Issue(0), replies)[j] == PlanStep::Issue((j + 1) as usize),
        plan_trace(len, PlanStep::Issue(0), replies)[len - 1] == PlanStep::Finish(Ok::<(), usize>(())),
{
    lemma_plan_from(len, 0, replies);
}

/// A run ends with success only if every change succeeded: if the run has
/// not finished before step `k` and finishes there with success, every reply
/// up to `k` was a success.
pub proof fn law_plan_ok_only_if_all_succeeded(len: nat, pending: PlanStep, replies: Seq<Result<(), ()>>, k: int)
    requires
        !(pending is Finish),
        0 <= k < replies.len(),
        plan_trace(len, pending, replies)[k] == PlanStep::Finish(Ok::<(), usize>(())),
        forall|j: int| 0 <= j < k ==> !(#[trigger] plan_trace(len, pending, replies)[j] is Finish),
    ensures
        forall|j: int| 0 <= j <= k ==> #[trigger] replies[j] is Ok,
    decreases k,
{
    let t = plan_trace(len, pending, replies);
    let next = next_plan_step(len, pending, replies[0]);
    if replies[0] is Err {
        assert(next == PlanStep::Finish(Err::<(), usize>(pending->Issue_0)));
        lemma_plan_finished_stays(len, Err(pending->Issue_0), replies.drop_first());
        if k > 0 {
            assert(t[0] is Finish);
        }
    } else if k > 0 {
        let rest = replies.drop_first();
        assert(t == seq![next] + plan_trace(len, next, rest));
        lemma_plan_trace_len(len, next, rest);
        assert(!(t[0] is Finish));
        assert forall|j: int| 0 <= j < k - 1 implies !(#[trigger] plan_trace(len, next, rest)[j] is Finish) by {
            assert(plan_trace(len, next, rest)[j] == t[j + 1]);
        }
        assert(plan_trace(len, next, rest)[k - 1] == t[k]);
        law_plan_ok_only_if_all_succeeded(len, next, rest, k - 1);
        assert forall|j: int| 0 <= j <= k implies #[trigger] replies[j] is Ok by {
            if j > 0 {
                assert(replies[j] == rest[j - 1]);
            }
        }
    }
}

/// Running the teardown on a schema without the snapshots table: the first
/// drop fails, the run ends with that failure, and the drops of the events
/// and aggregates tables are never issued.
pub proof fn law_down_stops_at_missing_snapshots(later: Seq<Result<(), ()>>)
    ensures
        first_plan_step(down_plan().len()) == PlanStep::Issue(0),
        down_plan()[0] == SchemaChangeView::DropTable("es_aggregate_snapshots"@),
        next_plan_step(down_plan().len(), PlanStep::Issue(0), Err(())) == PlanStep::Finish(Err::<(), usize>(0)),
        forall|j: int| 0 <= j < later.len() ==>
            #[trigger] plan_trace(down_plan().len(), PlanStep::Finish(Err(0)), later)[j]
                == PlanStep::Finish(Err::<(), usize>(0)),
{
    law_plan_failure_is_final(down_plan().len(), 0, later);
}

} // verus!

verus! {

/// Every table of the setup is created only if it does not exist yet, and
/// every one of its columns rejects NULL.
pub proof fn law_up_tables_if_not_exists_and_not_null()
    ensures
        forall|i: int| 0 <= i < up_plan().len() && (#[trigger] up_plan()[i]) is CreateTable ==> {
            let t = up_plan()[i]->CreateTable_0;
            &&& t.if_not_exists
            &&& forall|k: int| 0 <= k < t.columns.len() ==> (#[trigger] t.columns[k]).not_null
        },
{
    let p = up_plan();
    assert forall|i: int| 0 <= i < p.len() && (#[trigger] p[i]) is CreateTable implies {
        let t = p[i]->CreateTable_0;
        &&& t.if_not_exists
        &&& forall|k: int| 0 <= k < t.columns.len() ==> (#[trigger] t.columns[k]).not_null
    } by {
        assert(i == 0 || i == 2 || i == 7);
    }
}

} // verus!

verus! {

/// The only unique index of the setup is the one over the events'
/// `(aggregate_id, version)`: every other index, among them the one over the
/// aggregates' type, allows repeated values.
pub proof fn law_up_only_unique_index_is_event_version()
    ensures
        forall|i: int| 0 <= i < up_plan().len() && (#[trigger] up_plan()[i]) is CreateIndex
            && up_plan()[i]->CreateIndex_0.unique ==> {
                &&& up_plan()[i]->CreateIndex_0.table == "es_events"@
                &&& up_plan()[i]->CreateIndex_0.columns == seq!["aggregate_id"@, "version"@]
            },
        exists|i: int| 0 <= i < up_plan().len() && (#[trigger] up_plan()[i]) is CreateIndex
            && up_plan()[i]->CreateIndex_0.table == "es_aggregates"@
            && up_plan()[i]->CreateIndex_0.columns == seq!["aggregate_type"@]
            && !up_plan()[i]->CreateIndex_0.unique,
{
    let p = up_plan();
    assert forall|i: int| 0 <= i < p.len() && (#[trigger] p[i]) is CreateIndex && p[i]->CreateIndex_0.unique implies {
        &&& p[i]->CreateIndex_0.table == "es_events"@
        &&& p[i]->CreateIndex_0.columns == seq!["aggregate_id"@, "version"@]
    } by {
        assert(i == 6);
    }
    assert(p[1] is CreateIndex);
}

/// Every column that a foreign key of the setup points to is the primary key
/// of a table that an earlier step created.
pub proof fn law_up_foreign_keys_target_primary_keys()
    ensures
        forall|i: int| 0 <= i < up_plan().len() && (#[trigger] up_plan()[i]) is CreateForeignKey ==>
            exists|j: int, k: int|
                0 <= j < i && up_plan()[j] is CreateTable
                    && up_plan()[j]->CreateTable_0.name == up_plan()[i]->CreateForeignKey_0.to_table
                    && 0 <= k < up_plan()[j]->CreateTable_0.columns.len()
                    && (#[trigger] up_plan()[j]->CreateTable_0.columns[k]).name == up_plan()[i]->CreateForeignKey_0.to_column
                    && up_plan()[j]->CreateTable_0.columns[k].primary_key,
{
    let p = up_plan();
    assert forall|i: int| 0 <= i < p.len() && (#[trigger] p[i]) is CreateForeignKey implies
        exists|j: int, k: int|
            0 <= j < i && p[j] is CreateTable
                && p[j]->CreateTable_0.name == p[i]->CreateForeignKey_0.to_table
                && 0 <= k < p[j]->CreateTable_0.columns.len()
                && (#[trigger] p[j]->CreateTable_0.columns[k]).name == p[i]->CreateForeignKey_0.to_column
                && p[j]->CreateTable_0.columns[k].primary_key by {
        assert(i == 3 || i == 8);
        assert(p[0]->CreateTable_0.columns[0].primary_key);
    }
}

/// The kind that a column of the setup has, by its name (and table): ids of
/// aggregates are UUIDs, event ids big integers, versions integers, type
/// names strings or text, event data JSON, and the creation time a timestamp.
pub open spec fn expected_kind(table: Seq<char>, column: Seq<char>, kind: ColumnKind) -> bool {
    &&& column == "id"@ && table == "es_events"@ ==> kind == ColumnKind::BigInteger
    &&& column == "id"@ && table != "es_events"@ ==> kind == ColumnKind::Uuid
    &&& column == "aggregate_id"@ ==> kind == ColumnKind::Uuid
    &&& column == "revision"@ ==> kind == ColumnKind::Uuid
    &&& column == "version"@ ==> kind == ColumnKind::Integer
    &&& column == "aggregate_type"@ ==> kind == ColumnKind::Str
    &&& column == "event_type"@ ==> kind == ColumnKind::Text
    &&& column == "json_data"@ ==> kind == ColumnKind::Json
    &&& column == "meta_data"@ ==> kind == ColumnKind::Json
    &&& column == "create_at"@ ==> kind == ColumnKind::Timestamp
}

proof fn lemma_column_names_distinct()
    ensures
        "id"@ != "version"@, "id"@ != "aggregate_type"@, "id"@ != "aggregate_id"@, "id"@ != "revision"@,
        "id"@ != "event_type"@, "id"@ != "json_data"@, "id"@ != "meta_data"@, "id"@ != "create_at"@,
        "version"@ != "aggregate_type"@, "version"@ != "aggregate_id"@, "version"@ != "revision"@,
        "version"@ != "event_type"@, "version"@ != "json_data"@, "version"@ != "meta_data"@,
        "version"@ != "create_at"@,
        "aggregate_type"@ != "aggregate_id"@, "aggregate_type"@ != "revision"@, "aggregate_type"@ != "event_type"@,
        "aggregate_type"@ != "json_data"@, "aggregate_type"@ != "meta_data"@, "aggregate_type"@ != "create_at"@,
        "aggregate_id"@ != "revision"@, "aggregate_id"@ != "event_type"@, "aggregate_id"@ != "json_data"@,
        "aggregate_id"@ != "meta_data"@, "aggregate_id"@ != "create_at"@,
        "revision"@ != "event_type"@, "revision"@ != "json_data"@, "revision"@ != "meta_data"@,
        "revision"@ != "create_at"@,
        "event_type"@ != "json_data"@, "event_type"@ != "meta_data"@, "event_type"@ != "create_at"@,
        "json_data"@ != "meta_data"@, "json_data"@ != "create_at"@, "meta_data"@ != "create_at"@,
{
    reveal_strlit("id");
    reveal_strlit("version");
    reveal_strlit("aggregate_type");
    reveal_strlit("aggregate_id");
    reveal_strlit("revision");
    reveal_strlit("event_type");
    reveal_strlit("json_data");
    reveal_strlit("meta_data");
    reveal_strlit("create_at");
    assert("aggregate_type"@.len() != "aggregate_id"@.len());
    assert("json_data"@[0] != "meta_data"@[0]);
    assert("json_data"@[0] != "create_at"@[0]);
    assert("meta_data"@[0] != "create_at"@[0]);
    assert("event_type"@.len() != "json_data"@.len());
    assert("revision"@.len() != "version"@.len());
}

/// Every column of every table that the setup creates has the kind that its
/// name calls for; in particular both version columns are integers.
pub proof fn law_up_column_kinds()
    ensures
        forall|i: int, k: int| 0 <= i < up_plan().len() && (#[trigger] up_plan()[i]) is CreateTable
            && 0 <= k < up_plan()[i]->CreateTable_0.columns.len() ==>
                expected_kind(
                    up_plan()[i]->CreateTable_0.name,
                    #[trigger] up_plan()[i]->CreateTable_0.columns[k].name,
                    up_plan()[i]->CreateTable_0.columns[k].kind,
                ),
{
    lemma_column_names_distinct();
    lemma_table_names_distinct();
    let p = up_plan();
    assert forall|i: int, k: int| 0 <= i < p.len() && (#[trigger] p[i]) is CreateTable
        && 0 <= k < p[i]->CreateTable_0.columns.len() implies
            expected_kind(p[i]->CreateTable_0.name, #[trigger] p[i]->CreateTable_0.columns[k].name,
                p[i]->CreateTable_0.columns[k].kind) by {
        assert(i == 0 || i == 2 || i == 7);
    }
}

} // verus!
