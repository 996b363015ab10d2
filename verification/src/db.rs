//! The relational store: its schema, the rows it takes, and the statements
//! that write and deduplicate them.
//!
//! The store itself is reached through a driver. What this module decides is
//! which statements are issued, with which values bound, and in which order
//! a transaction is begun, run and committed.

use vstd::prelude::*;
use crate::config::AppConfig;
use crate::models::SavedLogEvent;

verus! {

/// Creates the table of log rows.
pub const CREATE_TABLE_SQL: &'static str =
    "CREATE TABLE IF NOT EXISTS cloudwatch_logs (id INTEGER PRIMARY KEY AUTOINCREMENT, log_group TEXT NOT NULL, event_id TEXT, timestamp INTEGER, message TEXT)";

/// Creates the view that counts the rows of each message of each log group.
pub const CREATE_VIEW_SQL: &'static str =
    "CREATE VIEW IF NOT EXISTS cloudwatch_unique_logs_view AS SELECT log_group, message, COUNT(*) AS message_count FROM cloudwatch_logs GROUP BY log_group, message";

/// Creates the index on the log group.
pub const CREATE_GROUP_INDEX_SQL: &'static str =
    "CREATE INDEX IF NOT EXISTS idx_log_group ON cloudwatch_logs (log_group)";

/// Creates the index on the timestamp.
pub const CREATE_TIMESTAMP_INDEX_SQL: &'static str =
    "CREATE INDEX IF NOT EXISTS idx_timestamp ON cloudwatch_logs (timestamp)";

/// Inserts one row; its four values are bound in the order of the columns.
pub const INSERT_SQL: &'static str =
    "INSERT INTO cloudwatch_logs (log_group, event_id, timestamp, message) VALUES (?1, ?2, ?3, ?4)";

/// Deletes every row but the one of lowest id among the rows of equal log
/// group, event id, timestamp and message.
pub const DEDUPE_SQL: &'static str =
    "DELETE FROM cloudwatch_logs WHERE id NOT IN (SELECT MIN(id) FROM cloudwatch_logs GROUP BY log_group, event_id, timestamp, message)";

/// A statement that runs for this many seconds is reported as slow.
pub const SLOW_STATEMENT_SECONDS: u64 = 10;

/// How the store is opened.
#[derive(Debug, Clone, PartialEq, Eq)]
pub struct StoreSettings {
    /// The path of the store's file.
    pub filename: String,
    /// Whether a file that does not exist is created.
    pub create_if_missing: bool,
    /// The number of seconds from which a statement is reported as slow.
    pub slow_statement_seconds: u64,
}

/// How the store of a run is opened: at the path that the settings name,
/// created if it is not there and taken as it is if it is.
pub fn init_connection(app_config: &AppConfig) -> (settings: StoreSettings)
    ensures
        settings.filename@ == app_config.sqlite_path@,
        settings.create_if_missing,
        settings.slow_statement_seconds == SLOW_STATEMENT_SECONDS,
{
    StoreSettings {
        filename: app_config.sqlite_path.clone(),
        create_if_missing: true,
        slow_statement_seconds: SLOW_STATEMENT_SECONDS,
    }
}

/// A value bound to a statement.
#[derive(Debug, Clone, PartialEq, Eq)]
pub enum SqlValue {
    Text(String),
    Integer(i64),
}

/// A bound value, as plain data.
pub enum BoundValue {
    Text(Seq<char>),
    Integer(int),
}

impl View for SqlValue {
    type V = BoundValue;

    open spec fn view(&self) -> BoundValue {
        match *self {
            SqlValue::Text(text) => BoundValue::Text(text@),
            SqlValue::Integer(number) => BoundValue::Integer(number as int),
        }
    }
}

/// A statement for the store, with the values bound to its placeholders.
#[derive(Debug, Clone, PartialEq, Eq)]
pub struct Statement {
    pub sql: &'static str,
    pub params: Vec<SqlValue>,
}

/// A statement, as plain data.
pub struct StatementText {
    pub sql: Seq<char>,
    pub bound: Seq<BoundValue>,
}

impl Statement {
    /// The values bound to the statement, in the order of its placeholders.
    pub open spec fn bound(&self) -> Seq<BoundValue> {
        self.params@.map_values(|value: SqlValue| value@)
    }
}

impl View for Statement {
    type V = StatementText;

    open spec fn view(&self) -> StatementText {
        StatementText { sql: self.sql@, bound: self.bound() }
    }
}

/// A failed call to the store, with the driver's own words.
#[derive(Debug, Clone, PartialEq, Eq)]
pub struct StoreError {
    pub message: String,
}

/// The values of one row of the log table, without the id that the store assigns.
#[derive(Debug, Clone, PartialEq, Eq)]
pub struct LogRow {
    pub log_group: String,
    pub event_id: String,
    pub timestamp: i64,
    pub message: String,
}

/// A text that may be absent, with the empty text in its place.
pub open spec fn text_or_empty(text: Option<String>) -> Seq<char> {
    match text {
        Some(present) => present@,
        None => Seq::empty(),
    }
}

/// A number that may be absent, with zero in its place.
pub open spec fn number_or_zero(number: Option<i64>) -> int {
    match number {
        Some(present) => present as int,
        None => 0,
    }
}

/// The row that stores `event` for the log group `log_group_name`: an absent
/// event id or message is stored as the empty text, an absent timestamp as zero.
pub fn row_for(log_group_name: &str, event: &SavedLogEvent) -> (row: LogRow)
    ensures
        row.log_group@ == log_group_name@,
        row.event_id@ == text_or_empty(event.event_id),
        row.timestamp == number_or_zero(event.timestamp),
        row.message@ == text_or_empty(event.message),
{
    let event_id = match &event.event_id {
        Some(id) => id.clone(),
        None => String::new(),
    };
    let timestamp = match event.timestamp {
        Some(millis) => millis,
        None => 0,
    };
    let message = match &event.message {
        Some(text) => text.clone(),
        None => String::new(),
    };
    LogRow { log_group: String::from_str(log_group_name), event_id, timestamp, message }
}

/// The values that inserting `row` binds: log group, event id, timestamp, message.
pub open spec fn row_values(row: LogRow) -> Seq<BoundValue> {
    seq![
        BoundValue::Text(row.log_group@),
        BoundValue::Text(row.event_id@),
        BoundValue::Integer(row.timestamp as int),
        BoundValue::Text(row.message@),
    ]
}

/// The statement that inserts `row`.
pub fn insert_statement(row: LogRow) -> (statement: Statement)
    ensures
        statement.sql@ == INSERT_SQL@,
        statement.bound() == row_values(row),
{
    let mut params: Vec<SqlValue> = Vec::new();
    params.push(SqlValue::Text(row.log_group));
    params.push(SqlValue::Text(row.event_id));
    params.push(SqlValue::Integer(row.timestamp));
    params.push(SqlValue::Text(row.message));
    Statement { sql: INSERT_SQL, params }
}

/// A statement without bound values.
fn plain_statement(sql: &'static str) -> (statement: Statement)
    ensures
        statement@ == (StatementText { sql: sql@, bound: Seq::empty() }),
{
    let statement = Statement { sql, params: Vec::new() };
    assert(statement.bound() =~= Seq::<BoundValue>::empty());
    statement
}

/// The statements that set the schema up, in the order in which they are
/// issued: the table, the counting view, the index on the log group and the
/// index on the timestamp. Each leaves an existing object as it is, and none
/// binds a value.
pub open spec fn schema_texts() -> Seq<StatementText> {
    seq![
        StatementText { sql: CREATE_TABLE_SQL@, bound: Seq::empty() },
        StatementText { sql: CREATE_VIEW_SQL@, bound: Seq::empty() },
        StatementText { sql: CREATE_GROUP_INDEX_SQL@, bound: Seq::empty() },
        StatementText { sql: CREATE_TIMESTAMP_INDEX_SQL@, bound: Seq::empty() },
    ]
}

/// The statements of a list, as plain data.
pub open spec fn statement_texts(statements: Seq<Statement>) -> Seq<StatementText> {
    statements.map_values(|statement: Statement| statement@)
}

/// The statements that set the schema up.
pub fn init_sqlite_db() -> (statements: Vec<Statement>)
    ensures
        statement_texts(statements@) == schema_texts(),
{
    let mut statements: Vec<Statement> = Vec::new();
    statements.push(plain_statement(CREATE_TABLE_SQL));
    statements.push(plain_statement(CREATE_VIEW_SQL));
    statements.push(plain_statement(CREATE_GROUP_INDEX_SQL));
    statements.push(plain_statement(CREATE_TIMESTAMP_INDEX_SQL));
    statements
}

/// The statements that store `events` for `log_group_name`: one insertion
/// for each event, in the order of the events.
pub open spec fn insertion_texts(log_group_name: Seq<char>, events: Seq<SavedLogEvent>) -> Seq<
    StatementText,
> {
    Seq::new(
        events.len(),
        |i: int|
            StatementText {
                sql: INSERT_SQL@,
                bound: seq![
                    BoundValue::Text(log_group_name),
                    BoundValue::Text(text_or_empty(events[i].event_id)),
                    BoundValue::Integer(number_or_zero(events[i].timestamp)),
                    BoundValue::Text(text_or_empty(events[i].message)),
                ],
            },
    )
}

/// The transaction that stores `events` for `log_group_name`, not yet begun.
pub fn store_events_in_sqlite(log_group_name: &str, events: &[SavedLogEvent]) -> (transaction:
    Transaction)
    ensures
        transaction@ == Script::start(insertion_texts(log_group_name@, events@)),
{
    let mut statements: Vec<Statement> = Vec::new();
    let mut i: usize = 0;
    while i < events.len()
        invariant
            i <= events.len(),
            statements@.len() == i,
            statement_texts(statements@) == insertion_texts(
                log_group_name@,
                events@.take(i as int),
            ),
        decreases events.len() - i,
    {
        let ghost before = statements@;
        statements.push(insert_statement(row_for(log_group_name, &events[i])));
        i += 1;
        proof {
            let wanted = insertion_texts(log_group_name@, events@.take(i as int));
            assert forall|j: int| 0 <= j < i implies statement_texts(statements@)[j]
                == wanted[j] by {
                if j < i - 1 {
                    assert(statement_texts(before)[j] == wanted[j]);
                }
            }
        }
    }
    assert(events@.take(events.len() as int) == events@);
    Transaction::new(statements)
}

/// The transaction that removes duplicate rows, not yet begun: a single deletion.
pub fn dedupe_rows() -> (transaction: Transaction)
    ensures
        transaction@ == Script::start(
            seq![StatementText { sql: DEDUPE_SQL@, bound: Seq::empty() }],
        ),
{
    let mut statements: Vec<Statement> = Vec::new();
    statements.push(plain_statement(DEDUPE_SQL));
    assert(statement_texts(statements@) =~= seq![
        StatementText { sql: DEDUPE_SQL@, bound: Seq::empty() },
    ]);
    Transaction::new(statements)
}

/// How far a transaction has come.
pub enum Progress {
    /// Not begun.
    Pending,
    /// Begun; the first `done` statements have run.
    Running { done: nat },
    /// Every statement has run and the commit went through.
    Committed,
    /// A call failed. Nothing was committed, and nothing more is issued.
    Abandoned { message: Seq<char> },
}

/// The call that a transaction asks for next.
pub enum Call {
    Begin,
    Execute { statement: StatementText },
    Commit,
    /// The transaction has ended.
    Nothing,
}

/// How the store answered a call.
pub enum Reply {
    Done,
    Failed { message: Seq<char> },
}

/// A transaction, as plain data: its statements and how far it has come.
pub struct Script {
    pub statements: Seq<StatementText>,
    pub progress: Progress,
}

impl Script {
    /// The transaction of `statements`, not yet begun.
    pub open spec fn start(statements: Seq<StatementText>) -> Script {
        Script { statements, progress: Progress::Pending }
    }

    /// Whether the transaction has ended, committed or abandoned.
    pub open spec fn ended(self) -> bool {
        self.progress is Committed || self.progress is Abandoned
    }

    /// The call that is due: the begin, then each statement in order, then
    /// the commit.
    pub open spec fn due(self) -> Call {
        match self.progress {
            Progress::Pending => Call::Begin,
            Progress::Running { done } => if done < self.statements.len() {
                Call::Execute { statement: self.statements[done as int] }
            } else {
                Call::Commit
            },
            _ => Call::Nothing,
        }
    }

    /// The transaction after the store answered the call that was due.
    pub open spec fn after(self, reply: Reply) -> Script {
        let progress = match self.progress {
            Progress::Pending => match reply {
                Reply::Done => Progress::Running { done: 0 },
                Reply::Failed { message } => Progress::Abandoned { message },
            },
            Progress::Running { done } => match reply {
                Reply::Done => if done < self.statements.len() {
                    Progress::Running { done: done + 1 }
                } else {
                    Progress::Committed
                },
                Reply::Failed { message } => Progress::Abandoned { message },
            },
            ended => ended,
        };
        Script { statements: self.statements, progress }
    }

    /// The transaction after the store answered with `replies`, in order.
    pub open spec fn after_all(self, replies: Seq<Reply>) -> Script
        decreases replies.len(),
    {
        if replies.len() == 0 {
            self
        } else {
            self.after(replies[0]).after_all(replies.drop_first())
        }
    }
}

impl Script {
    /// How many calls are still to go through before the transaction is
    /// committed: the begin, each statement that has not run, and the commit.
    pub open spec fn calls_left(self) -> nat {
        match self.progress {
            Progress::Pending => self.statements.len() + 2,
            Progress::Running { done } => if done < self.statements.len() {
                (self.statements.len() - done + 1) as nat
            } else {
                1
            },
            _ => 0,
        }
    }
}

/// A transaction that has ended is changed by no further reply.
pub proof fn lemma_ended_transaction_stays(script: Script, replies: Seq<Reply>)
    requires
        script.ended(),
    ensures
        script.after_all(replies) == script,
    decreases replies.len(),
{
    if replies.len() > 0 {
        lemma_ended_transaction_stays(script, replies.drop_first());
    }
}

/// Nothing is committed in part: a transaction ends committed only if every
/// call that was still to go through did so, the commit last.
pub proof fn lemma_commit_needs_every_call(script: Script, replies: Seq<Reply>)
    requires
        !(script.progress is Committed),
        script.after_all(replies).progress is Committed,
    ensures
        replies.len() >= script.calls_left(),
        forall|i: int| 0 <= i < script.calls_left() ==> #[trigger] replies[i] is Done,
    decreases replies.len(),
{
    if replies.len() > 0 {
        let next = script.after(replies[0]);
        let rest = replies.drop_first();
        if next.ended() {
            lemma_ended_transaction_stays(next, rest);
        } else {
            lemma_commit_needs_every_call(next, rest);
            assert forall|i: int| 0 <= i < script.calls_left() implies #[trigger] replies[i]
                is Done by {
                if i > 0 {
                    assert(replies[i] == rest[i - 1]);
                }
            }
        }
    }
}

/// The first failure abandons the transaction: when the calls before the
/// `k`-th went through and the `k`-th failed while calls were still due,
/// the transaction ends abandoned with that failure, whatever replies follow.
pub proof fn lemma_failure_abandons(script: Script, replies: Seq<Reply>, k: int)
    requires
        0 <= k < replies.len(),
        k < script.calls_left(),
        forall|i: int| 0 <= i < k ==> #[trigger] replies[i] is Done,
        replies[k] is Failed,
    ensures
        script.after_all(replies).progress == (Progress::Abandoned {
            message: replies[k]->message,
        }),
        script.after_all(replies).statements == script.statements,
    decreases replies.len(),
{
    let next = script.after(replies[0]);
    let rest = replies.drop_first();
    if k == 0 {
        lemma_ended_transaction_stays(next, rest);
    } else {
        lemma_failure_abandons(next, rest, k - 1);
    }
}

/// Calls that go through run the transaction in order: after the begin and
/// `done` statements went through, the statement `done` is due, or the commit
/// once no statement is left; after the commit the transaction is committed.
pub proof fn lemma_calls_run_in_order(statements: Seq<StatementText>, replies: Seq<Reply>)
    requires
        replies.len() <= statements.len() + 2,
        forall|i: int| 0 <= i < replies.len() ==> #[trigger] replies[i] is Done,
    ensures
        Script::start(statements).after_all(replies).statements == statements,
        Script::start(statements).after_all(replies).progress == (if replies.len() == 0 {
            Progress::Pending
        } else if replies.len() <= statements.len() + 1 {
            Progress::Running { done: (replies.len() - 1) as nat }
        } else {
            Progress::Committed
        }),
    decreases replies.len(),
{
    let start = Script::start(statements);
    if replies.len() > 0 {
        let head = replies.drop_last();
        let last = replies.last();
        assert(replies == head + seq![last]);
        lemma_calls_run_in_order(statements, head);
        lemma_replies_split(start, head, seq![last]);
        let before = start.after_all(head);
        assert(before.after_all(seq![last]) == before.after(last)) by {
            assert(before.after(last).after_all(seq![last].drop_first()) == before.after(last));
        }
    }
}

/// Replies taken in two runs come to the same as taken in one.
pub proof fn lemma_replies_split(script: Script, first: Seq<Reply>, second: Seq<Reply>)
    ensures
        script.after_all(first + second) == script.after_all(first).after_all(second),
    decreases first.len(),
{
    if first.len() > 0 {
        assert((first + second).drop_first() == first.drop_first() + second);
        lemma_replies_split(script.after(first[0]), first.drop_first(), second);
    }
}

/// How far a transaction has come.
#[derive(Debug)]
enum Phase {
    Pending,
    Running { done: usize },
    Committed,
    Abandoned { error: StoreError },
}

/// A transaction in progress: the statements to run between a begin and a
/// commit, and how far the store has come with them.
#[derive(Debug)]
pub struct Transaction {
    statements: Vec<Statement>,
    phase: Phase,
}

/// The call that a transaction asks for next.
#[derive(Debug)]
pub enum Step<'a> {
    Begin,
    Execute(&'a Statement),
    Commit,
    Nothing,
}

impl<'a> View for Step<'a> {
    type V = Call;

    open spec fn view(&self) -> Call {
        match *self {
            Step::Begin => Call::Begin,
            Step::Execute(statement) => Call::Execute { statement: statement@ },
            Step::Commit => Call::Commit,
            Step::Nothing => Call::Nothing,
        }
    }
}

impl View for Transaction {
    type V = Script;

    closed spec fn view(&self) -> Script {
        Script {
            statements: statement_texts(self.statements@),
            progress: match self.phase {
                Phase::Pending => Progress::Pending,
                Phase::Running { done } => Progress::Running { done: done as nat },
                Phase::Committed => Progress::Committed,
                Phase::Abandoned { error } => Progress::Abandoned { message: error.message@ },
            },
        }
    }
}

impl Transaction {
    /// The transaction of `statements`, not yet begun.
    pub fn new(statements: Vec<Statement>) -> (transaction: Transaction)
        ensures
            transaction@ == Script::start(statement_texts(statements@)),
    {
        Transaction { statements, phase: Phase::Pending }
    }

    /// The call to make next.
    pub fn next_step(&self) -> (step: Step<'_>)
        ensures
            step@ == self@.due(),
    {
        match &self.phase {
            Phase::Pending => Step::Begin,
            Phase::Running { done } => {
                if *done < self.statements.len() {
                    Step::Execute(&self.statements[*done])
                } else {
                    Step::Commit
                }
            },
            _ => Step::Nothing,
        }
    }

    /// Takes the store's word that the call went through.
    pub fn on_success(self) -> (next: Transaction)
        ensures
            next@ == self@.after(Reply::Done),
    {
        let phase = match self.phase {
            Phase::Pending => Phase::Running { done: 0 },
            Phase::Running { done } => {
                if done < self.statements.len() {
                    Phase::Running { done: done + 1 }
                } else {
                    Phase::Committed
                }
            },
            ended => ended,
        };
        Transaction { statements: self.statements, phase }
    }

    /// Takes the failure of the call.
    pub fn on_failure(self, error: StoreError) -> (next: Transaction)
        ensures
            next@ == self@.after(Reply::Failed { message: error.message@ }),
    {
        let phase = match self.phase {
            Phase::Pending => Phase::Abandoned { error },
            Phase::Running { .. } => Phase::Abandoned { error },
            ended => ended,
        };
        Transaction { statements: self.statements, phase }
    }

    /// Whether the transaction has ended, committed or abandoned.
    pub fn has_ended(&self) -> (ended: bool)
        ensures
            ended == self@.ended(),
    {
        match &self.phase {
            Phase::Committed => true,
            Phase::Abandoned { .. } => true,
            _ => false,
        }
    }

    /// What the transaction came to: committed, or the failure that ended
    /// it. While calls are still due there is no result.
    pub fn outcome(self) -> (result: Option<Result<(), StoreError>>)
        ensures
            match self@.progress {
                Progress::Committed => result == Some(Ok::<(), StoreError>(())),
                Progress::Abandoned { message } => result matches Some(Err(error))
                    && error.message@ == message,
                _ => result is None,
            },
    {
        match self.phase {
            Phase::Committed => Some(Ok(())),
            Phase::Abandoned { error } => Some(Err(error)),
            _ => None,
        }
    }
}

} // verus!
