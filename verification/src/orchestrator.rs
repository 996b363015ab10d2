//! A run from its first step to its exit: connect, discover the log groups,
//! select, fetch and store each selected group within the bound on
//! concurrent work, deduplicate, and leave.
//!
//! Everything a run does outside this library is an action that the
//! orchestrator asks for, and everything that comes back is an event that it
//! takes. The orchestrator holds no connection and makes no call.
//!
//! A run fails when the store cannot be opened, when the log groups cannot
//! be listed, when the duration is none, and when the deduplication fails.
//! A group whose events cannot be stored never fails a run: the group is
//! left out. What a group does whose events cannot be fetched is a choice
//! made for the whole run, see [`FetchFailurePolicy`].

use vstd::pervasive::unreached;
use vstd::prelude::*;
use crate::aws::{LoaderSettings, build_config, get_log_groups};
use crate::config::{AppConfig, ConfigError, Settings, WindowFault, planned_window};
use crate::db::{
    DEDUPE_SQL, Reply, SLOW_STATEMENT_SECONDS, Script, Statement, StatementText, StoreError,
    StoreSettings, Transaction, dedupe_rows, init_connection, init_sqlite_db, schema_texts,
    statement_texts,
};
use crate::models::{LogGroup, optional_text};
use crate::paginator::{
    Answer, Listing, Page, Paginator, RemoteCallError, concatenated, lemma_ended_listing_stays,
    lemma_failure_ends_listing, lemma_listing_concatenates_pages,
};
use crate::pool::{
    Admission, BoundedWorkerPool, MAX_CONCURRENT_TASKS, Move, lemma_joined_are_admitted,
    lemma_move_keeps_bound,
};
use crate::selector::{filter_log_groups, selection};
use crate::task::{GroupTask, Outcome, TaskOutcome, Work, group_name, process_one_log_group};
use crate::window::{TimeWindow, UtcInstant};

verus! {

/// What a run does when the events of a log group cannot be fetched.
#[derive(Debug, Clone, Copy, PartialEq, Eq)]
pub enum FetchFailurePolicy {
    /// The run fails: nothing more is started, and the store is not
    /// deduplicated.
    AbortRun,
    /// The group is left out and the run goes on, as it does when a group's
    /// events cannot be stored.
    SkipGroup,
}

/// Why a run failed.
#[derive(Debug, Clone, PartialEq, Eq)]
pub enum RunError {
    Config(ConfigError),
    RemoteCall(RemoteCallError),
    Store(StoreError),
}

/// Why a run failed, as plain data.
pub enum Fault {
    Config { kind: WindowFault },
    RemoteCall { message: Seq<char> },
    Store { message: Seq<char> },
}

impl View for RunError {
    type V = Fault;

    open spec fn view(&self) -> Fault {
        match *self {
            RunError::Config(error) => Fault::Config { kind: error@ },
            RunError::RemoteCall(error) => Fault::RemoteCall { message: error.message@ },
            RunError::Store(error) => Fault::Store { message: error.message@ },
        }
    }
}

/// Where a run stands.
pub enum Stage {
    /// Nothing is connected yet.
    Init,
    /// The store and the remote client are there; the log groups are being listed.
    Connected { listing: Listing<LogGroup> },
    /// All log groups of the remote service are known.
    GroupsDiscovered { groups: Seq<LogGroup> },
    /// The groups of this run are chosen, and at least one was.
    GroupsSelected { groups: Seq<LogGroup> },
    /// One task for each selected group is waiting, running or joined. The
    /// task `starting`, if any, holds a slot and is about to be started.
    Fetching {
        groups: Seq<LogGroup>,
        start: int,
        end: int,
        pool: Admission,
        starting: Option<int>,
    },
    /// Every task has joined; the store is being deduplicated.
    Deduping,
    /// The run succeeded.
    Done,
    /// The run failed.
    Failed { fault: Fault },
}

/// What a run asks for.
pub enum Act {
    /// Open the store at `filename`, creating it if `create_if_missing`
    /// says so, set its schema up, and make the remote client for `profile`
    /// and `region`.
    Connect {
        filename: Seq<char>,
        create_if_missing: bool,
        slow_statement_seconds: int,
        schema: Seq<StatementText>,
        profile: Option<Seq<char>>,
        region: Option<Seq<char>>,
    },
    /// Fetch one page of the remote service's log groups.
    ListLogGroups { next_token: Option<Seq<char>> },
    /// Nothing but to take note that all log groups are known.
    Select { discovered: nat },
    /// Read the clock.
    ReadClock { selected: nat },
    /// Start the task of a selected group, which holds a slot from now on.
    StartTask { task: int, work: Work },
    /// Wait until the body of a running task has completed.
    AwaitTask,
    /// Run the transaction that removes duplicate rows.
    Dedupe { script: Script },
    /// Leave, with this exit code.
    Exit { code: int },
}

/// What happened outside.
pub enum Occurrence {
    Connected,
    ConnectFailed { message: Seq<char> },
    GroupsListed { answer: Answer<LogGroup> },
    Proceed,
    Clock { now: UtcInstant },
    TaskStarted,
    TaskFinished { task: int, outcome: Outcome },
    Deduped { reply: Reply },
    /// Something failed from which the run cannot recover.
    Fatal { fault: Fault },
}

/// A run, as plain data.
pub struct Run {
    pub settings: Settings,
    pub policy: FetchFailurePolicy,
    /// How many tasks may hold a slot at a time.
    pub limit: nat,
    pub stage: Stage,
}

/// The transaction that removes duplicate rows, not yet begun.
pub open spec fn dedupe_script() -> Script {
    Script::start(seq![StatementText { sql: DEDUPE_SQL@, bound: Seq::empty() }])
}

impl Stage {
    /// Where the listing of the log groups leads: on while pages are due, to
    /// the groups once it is complete, and to failure if a fetch failed.
    pub open spec fn listed(listing: Listing<LogGroup>) -> Stage {
        match listing {
            Listing::Fetching { .. } => Stage::Connected { listing },
            Listing::Complete { items } => Stage::GroupsDiscovered { groups: items },
            Listing::Failed { message } => Stage::Failed { fault: Fault::RemoteCall { message } },
        }
    }

    /// The fetching stage, with the next waiting task admitted if none is
    /// about to be started and a slot is free.
    pub open spec fn refilled(
        groups: Seq<LogGroup>,
        start: int,
        end: int,
        pool: Admission,
        starting: Option<int>,
    ) -> Stage {
        if starting is None && pool.has_room() {
            Stage::Fetching {
                groups,
                start,
                end,
                pool: pool.acquire(),
                starting: Some(pool.admitted as int),
            }
        } else {
            Stage::Fetching { groups, start, end, pool, starting }
        }
    }
}

impl Run {
    /// A run before its first step.
    pub open spec fn start(settings: Settings, policy: FetchFailurePolicy, limit: nat) -> Run {
        Run { settings, policy, limit, stage: Stage::Init }
    }

    /// The same run at another stage.
    pub open spec fn at(self, stage: Stage) -> Run {
        Run { stage, ..self }
    }

    /// What holds of a run at all times.
    pub open spec fn wf(self) -> bool {
        &&& self.limit > 0
        &&& match self.stage {
            Stage::Connected { listing } => listing is Fetching,
            Stage::GroupsSelected { groups } => groups.len() > 0,
            Stage::Fetching { groups, start, end, pool, starting } => {
                &&& pool.wf()
                &&& pool.capacity == self.limit
                &&& pool.total == groups.len()
                &&& !pool.all_joined()
                &&& match starting {
                    Some(task) => task == pool.admitted - 1 && pool.holds_slot(task),
                    None => !pool.has_room(),
                }
            },
            _ => true,
        }
    }

    /// The action that is due.
    pub open spec fn due(self) -> Act {
        match self.stage {
            Stage::Init => Act::Connect {
                filename: self.settings.sqlite_path,
                create_if_missing: true,
                slow_statement_seconds: SLOW_STATEMENT_SECONDS as int,
                schema: schema_texts(),
                profile: self.settings.profile,
                region: self.settings.region,
            },
            Stage::Connected { listing } => Act::ListLogGroups {
                next_token: match listing {
                    Listing::Fetching { cursor, .. } => cursor,
                    _ => None,
                },
            },
            Stage::GroupsDiscovered { groups } => Act::Select { discovered: groups.len() },
            Stage::GroupsSelected { groups } => Act::ReadClock { selected: groups.len() },
            Stage::Fetching { groups, start, end, starting, .. } => match starting {
                Some(task) => Act::StartTask {
                    task,
                    work: Work::start(group_name(groups[task]), start, end),
                },
                None => Act::AwaitTask,
            },
            Stage::Deduping => Act::Dedupe { script: dedupe_script() },
            Stage::Done => Act::Exit { code: 0 },
            Stage::Failed { .. } => Act::Exit { code: 1 },
        }
    }

    /// The run after `occurrence`. What does not answer the action that was
    /// due changes nothing.
    pub open spec fn after(self, occurrence: Occurrence) -> Run {
        match (self.stage, occurrence) {
            (Stage::Done, _) => self,
            (Stage::Failed { .. }, _) => self,
            (_, Occurrence::Fatal { fault }) => self.at(Stage::Failed { fault }),
            (Stage::Init, Occurrence::Connected) => self.at(
                Stage::Connected { listing: Listing::start() },
            ),
            (Stage::Init, Occurrence::ConnectFailed { message }) => self.at(
                Stage::Failed { fault: Fault::Store { message } },
            ),
            (Stage::Connected { listing }, Occurrence::GroupsListed { answer }) => self.at(
                Stage::listed(listing.after(answer)),
            ),
            (Stage::GroupsDiscovered { groups }, Occurrence::Proceed) => {
                let chosen = selection(groups, self.settings.requested);
                if chosen.len() == 0 {
                    self.at(Stage::Done)
                } else {
                    self.at(Stage::GroupsSelected { groups: chosen })
                }
            },
            (Stage::GroupsSelected { groups }, Occurrence::Clock { now }) => match planned_window(
                self.settings.duration,
                now,
            ) {
                Ok((start, end)) => self.at(
                    Stage::refilled(
                        groups,
                        start,
                        end,
                        Admission::start(groups.len(), self.limit),
                        None,
                    ),
                ),
                Err(kind) => self.at(Stage::Failed { fault: Fault::Config { kind } }),
            },
            (
                Stage::Fetching { groups, start, end, pool, starting },
                Occurrence::TaskStarted,
            ) => self.at(Stage::refilled(groups, start, end, pool, None)),
            (
                Stage::Fetching { groups, start, end, pool, starting },
                Occurrence::TaskFinished { task, outcome },
            ) => {
                if !pool.holds_slot(task) || starting == Some(task) {
                    self
                } else if outcome is FetchFailed && self.policy is AbortRun {
                    self.at(
                        Stage::Failed { fault: Fault::RemoteCall { message: outcome->reason } },
                    )
                } else if pool.release(task).all_joined() {
                    self.at(Stage::Deduping)
                } else {
                    self.at(Stage::refilled(groups, start, end, pool.release(task), starting))
                }
            },
            (Stage::Deduping, Occurrence::Deduped { reply }) => match reply {
                Reply::Done => self.at(Stage::Done),
                Reply::Failed { message } => self.at(
                    Stage::Failed { fault: Fault::Store { message } },
                ),
            },
            _ => self,
        }
    }

    /// The run after `occurrences`, in order.
    pub open spec fn after_all(self, occurrences: Seq<Occurrence>) -> Run
        decreases occurrences.len(),
    {
        if occurrences.len() == 0 {
            self
        } else {
            self.after(occurrences[0]).after_all(occurrences.drop_first())
        }
    }
}

impl Stage {
    /// How far along a run is at this stage. Both ends of a run count as
    /// the last stage.
    pub open spec fn rank(self) -> nat {
        match self {
            Stage::Init => 0,
            Stage::Connected { .. } => 1,
            Stage::GroupsDiscovered { .. } => 2,
            Stage::GroupsSelected { .. } => 3,
            Stage::Fetching { .. } => 4,
            Stage::Deduping => 5,
            Stage::Done => 6,
            Stage::Failed { .. } => 6,
        }
    }

    /// How many tasks hold a slot at this stage.
    pub open spec fn tasks_running(self) -> nat {
        match self {
            Stage::Fetching { pool, .. } => pool.running(),
            _ => 0,
        }
    }
}

/// Whatever happens, a run stays as a run is at all times, and the tasks
/// that hold a slot stay within its limit.
pub proof fn lemma_step_keeps_run(run: Run, occurrence: Occurrence)
    requires
        run.wf(),
    ensures
        run.after(occurrence).wf(),
        run.after(occurrence).stage.tasks_running() <= run.limit,
        run.after(occurrence).limit == run.limit,
        run.after(occurrence).policy == run.policy,
        run.after(occurrence).settings == run.settings,
{
    let next = run.after(occurrence);
    match (run.stage, occurrence) {
        (Stage::GroupsSelected { groups }, Occurrence::Clock { now }) => {
            let fresh = Admission::start(groups.len(), run.limit);
            lemma_move_keeps_bound(fresh, Move::Acquire);
        },
        (Stage::Fetching { groups, start, end, pool, starting }, Occurrence::TaskStarted) => {
            lemma_joined_are_admitted(pool);
            lemma_move_keeps_bound(pool, Move::Acquire);
        },
        (
            Stage::Fetching { groups, start, end, pool, starting },
            Occurrence::TaskFinished { task, outcome },
        ) => {
            lemma_joined_are_admitted(pool);
            lemma_move_keeps_bound(pool, Move::Release { task });
            let freed = pool.release(task);
            lemma_joined_are_admitted(freed);
            lemma_move_keeps_bound(freed, Move::Acquire);
        },
        _ => {},
    }
    match next.stage {
        Stage::Fetching { pool, .. } => {
            lemma_joined_are_admitted(pool);
        },
        _ => {},
    }
}

/// At no point of a run do more tasks hold a slot than the run's limit,
/// whatever happens and in whatever order.
pub proof fn lemma_run_stays_within_limit(
    settings: Settings,
    policy: FetchFailurePolicy,
    limit: nat,
    occurrences: Seq<Occurrence>,
)
    requires
        limit > 0,
    ensures
        Run::start(settings, policy, limit).after_all(occurrences).wf(),
        Run::start(settings, policy, limit).after_all(occurrences).stage.tasks_running() <= limit,
{
    lemma_run_stays_as_it_is(Run::start(settings, policy, limit), occurrences);
}

/// From a run as a run is at all times, nothing leads to one that is not.
pub proof fn lemma_run_stays_as_it_is(run: Run, occurrences: Seq<Occurrence>)
    requires
        run.wf(),
    ensures
        run.after_all(occurrences).wf(),
        run.after_all(occurrences).stage.tasks_running() <= run.limit,
        run.after_all(occurrences).limit == run.limit,
        run.after_all(occurrences).stage.rank() >= run.stage.rank(),
    decreases occurrences.len(),
{
    if occurrences.len() == 0 {
        match run.stage {
            Stage::Fetching { pool, .. } => {
                lemma_joined_are_admitted(pool);
            },
            _ => {},
        }
    } else {
        lemma_step_keeps_run(run, occurrences[0]);
        lemma_run_never_goes_back(run, occurrences[0]);
        lemma_run_stays_as_it_is(run.after(occurrences[0]), occurrences.drop_first());
    }
}

/// A run never goes back to an earlier stage, and a run that has ended
/// stays as it ended.
pub proof fn lemma_run_never_goes_back(run: Run, occurrence: Occurrence)
    ensures
        run.after(occurrence).stage.rank() >= run.stage.rank(),
        run.stage is Done || run.stage is Failed ==> run.after(occurrence) == run,
{
}

/// A run waits for a task only while a task is running.
pub proof fn lemma_waits_only_for_running_tasks(run: Run)
    requires
        run.wf(),
        run.due() is AwaitTask,
    ensures
        run.stage.tasks_running() > 0,
{
    match run.stage {
        Stage::Fetching { pool, .. } => {
            lemma_joined_are_admitted(pool);
        },
        _ => {},
    }
}

/// The store is deduplicated only after every task has joined: a run
/// comes to deduplicate by the last of its tasks joining, and by nothing else.
pub proof fn lemma_dedupe_follows_last_join(run: Run, occurrence: Occurrence)
    requires
        run.wf(),
        !(run.stage is Deduping),
        run.after(occurrence).stage is Deduping,
    ensures
        run.stage matches Stage::Fetching { pool, .. } && occurrence matches Occurrence::TaskFinished {
            task,
            ..
        } && pool.holds_slot(task) && pool.release(task).all_joined(),
{
}

/// The store is deduplicated once: when the deduplication has been
/// answered, the run has ended, in success if and only if it went through.
pub proof fn lemma_dedupe_ends_run(run: Run, reply: Reply)
    requires
        run.stage is Deduping,
    ensures
        run.after(Occurrence::Deduped { reply }).stage == (match reply {
            Reply::Done => Stage::Done,
            Reply::Failed { message } => Stage::Failed { fault: Fault::Store { message } },
        }),
{
}

/// A run succeeds in two ways only: by selecting no group, or by the
/// deduplication going through.
pub proof fn lemma_success_has_two_ways(run: Run, occurrence: Occurrence)
    requires
        !(run.stage is Done),
        run.after(occurrence).stage is Done,
    ensures
        (run.stage is Deduping && occurrence == Occurrence::Deduped { reply: Reply::Done }) || (
        run.stage matches Stage::GroupsDiscovered { groups } && occurrence is Proceed && selection(
            groups,
            run.settings.requested,
        ).len() == 0),
{
}

/// While a run fetches, its groups and its window stay as they were when
/// the fetching began, and no task gives up its place in the order.
pub proof fn lemma_fetching_keeps_groups_and_window(run: Run, occurrence: Occurrence)
    requires
        run.stage is Fetching,
        run.after(occurrence).stage is Fetching,
    ensures
        run.after(occurrence).stage->Fetching_groups == run.stage->Fetching_groups,
        run.after(occurrence).stage->start == run.stage->start,
        run.after(occurrence).stage->end == run.stage->end,
        run.after(occurrence).stage->pool.admitted >= run.stage->pool.admitted,
{
}

/// The tasks are started in the order of their groups, each once: the task
/// that is to be started next is the one that was, until word comes that
/// it runs, and then the one behind it.
pub proof fn lemma_tasks_start_in_order(run: Run, occurrence: Occurrence)
    requires
        run.wf(),
        run.due() is StartTask,
        run.after(occurrence).due() is StartTask,
    ensures
        run.after(occurrence).due()->task == (if occurrence is TaskStarted {
            run.due()->task + 1
        } else {
            run.due()->task
        }),
        0 <= run.due()->task < run.stage->Fetching_groups.len(),
{
    lemma_step_keeps_run(run, occurrence);
    match run.stage {
        Stage::Fetching { pool, .. } => {
            lemma_joined_are_admitted(pool);
        },
        _ => {},
    }
}

/// From every stage but the two at which a run has ended, what cannot be
/// recovered from fails the run.
pub proof fn lemma_fatal_fails_the_run(run: Run, fault: Fault)
    requires
        !(run.stage is Done),
        !(run.stage is Failed),
    ensures
        run.after(Occurrence::Fatal { fault }).stage == (Stage::Failed { fault }),
{
}

impl Stage {
    /// How many steps a run that fetches is from having every task joined,
    /// at the most: one for each task that is still to be started, and one
    /// for each task that is still to join.
    pub open spec fn steps_to_join(self) -> int {
        match self {
            Stage::Fetching { pool, starting, .. } => {
                let started = if starting is Some {
                    pool.admitted - 1
                } else {
                    pool.admitted as int
                };
                2 * pool.total - started - pool.joined.len()
            },
            _ => 0,
        }
    }
}

/// Whether `occurrence` answers the action that is due while a run
/// fetches, and does not fail the run: word that the task which was to be
/// started runs, or word that a running task has completed.
pub open spec fn answers_fetching(run: Run, occurrence: Occurrence) -> bool {
    match (run.due(), occurrence) {
        (Act::StartTask { .. }, Occurrence::TaskStarted) => true,
        (Act::AwaitTask, Occurrence::TaskFinished { task, outcome }) => {
            &&& run.stage matches Stage::Fetching { pool, .. } && pool.holds_slot(task)
            &&& !(outcome is FetchFailed && run.policy is AbortRun)
        },
        _ => false,
    }
}

/// A run that fetches comes to an end of fetching: each answer to the
/// action that is due brings it a step closer to having every task
/// joined, and with the last task joined it goes on to deduplicate.
pub proof fn lemma_fetching_comes_to_an_end(run: Run, occurrence: Occurrence)
    requires
        run.wf(),
        run.stage is Fetching,
        answers_fetching(run, occurrence),
    ensures
        run.stage.steps_to_join() > 0,
        run.after(occurrence).stage is Deduping || (run.after(occurrence).stage is Fetching
            && 0 < run.after(occurrence).stage.steps_to_join() < run.stage.steps_to_join()),
{
    lemma_step_keeps_run(run, occurrence);
    match run.stage {
        Stage::Fetching { pool, .. } => {
            lemma_joined_are_admitted(pool);
        },
        _ => {},
    }
    match run.after(occurrence).stage {
        Stage::Fetching { pool, .. } => {
            lemma_joined_are_admitted(pool);
        },
        _ => {},
    }
}

/// The answers to the listing of the log groups, as what happened outside.
pub open spec fn as_listed(answers: Seq<Answer<LogGroup>>) -> Seq<Occurrence> {
    answers.map_values(|answer: Answer<LogGroup>| Occurrence::GroupsListed { answer })
}

/// While the log groups are listed, the run follows the listing: after any
/// answers it stands where the listing after those answers leads.
pub proof fn lemma_discovery_follows_listing(run: Run, answers: Seq<Answer<LogGroup>>)
    requires
        run.stage matches Stage::Connected { listing } && listing is Fetching,
    ensures
        run.after_all(as_listed(answers)) == run.at(
            Stage::listed(run.stage->listing.after_all(answers)),
        ),
    decreases answers.len(),
{
    let listing = run.stage->listing;
    if answers.len() > 0 {
        let rest = answers.drop_first();
        let next = listing.after(answers[0]);
        assert(as_listed(answers).drop_first() == as_listed(rest));
        if next is Fetching {
            lemma_discovery_follows_listing(run.at(Stage::listed(next)), rest);
        } else {
            lemma_listing_is_over(run.at(Stage::listed(next)), rest);
            lemma_ended_listing_stays(next, rest);
        }
    }
}

/// A run that does not list the log groups is changed by no answer to
/// the listing.
pub proof fn lemma_listing_is_over(run: Run, answers: Seq<Answer<LogGroup>>)
    requires
        !(run.stage is Connected),
    ensures
        run.after_all(as_listed(answers)) == run,
    decreases answers.len(),
{
    if answers.len() > 0 {
        assert(as_listed(answers).drop_first() == as_listed(answers.drop_first()));
        lemma_listing_is_over(run, answers.drop_first());
    }
}

/// The log groups of a run are all that the remote service lists: when
/// the pages `answers[0]` to `answers[n - 1]` each name a cursor and
/// `answers[n]` names none, the groups that the run has discovered are
/// the groups of all pages, in the order in which the remote returned them.
pub proof fn lemma_discovery_takes_every_page(
    settings: Settings,
    policy: FetchFailurePolicy,
    limit: nat,
    answers: Seq<Answer<LogGroup>>,
)
    requires
        answers.len() > 0,
        forall|i: int| 0 <= i < answers.len() - 1 ==> (#[trigger] answers[i]).has_next(),
        answers.last().is_last(),
    ensures
        Run::start(settings, policy, limit).after(Occurrence::Connected).after_all(
            as_listed(answers),
        ).stage == (Stage::GroupsDiscovered { groups: concatenated(answers) }),
{
    let run = Run::start(settings, policy, limit).after(Occurrence::Connected);
    lemma_discovery_follows_listing(run, answers);
    lemma_listing_concatenates_pages(answers);
}

/// A listing of the log groups that fails fails the run: when the pages
/// before `answers[k]` each name a cursor and `answers[k]` is a failure,
/// the run has failed with that failure.
pub proof fn lemma_failed_discovery_fails_the_run(
    settings: Settings,
    policy: FetchFailurePolicy,
    limit: nat,
    answers: Seq<Answer<LogGroup>>,
    k: int,
)
    requires
        0 <= k < answers.len(),
        forall|i: int| 0 <= i < k ==> (#[trigger] answers[i]).has_next(),
        answers[k] is Failure,
    ensures
        Run::start(settings, policy, limit).after(Occurrence::Connected).after_all(
            as_listed(answers),
        ).stage == (Stage::Failed { fault: Fault::RemoteCall { message: answers[k]->message } }),
{
    let run = Run::start(settings, policy, limit).after(Occurrence::Connected);
    lemma_discovery_follows_listing(run, answers);
    lemma_failure_ends_listing(answers, k);
}

/// A run without a selected group ends in success without fetching,
/// storing or deduplicating anything.
pub proof fn lemma_empty_selection_ends_run(run: Run)
    requires
        run.stage matches Stage::GroupsDiscovered { groups } && selection(
            groups,
            run.settings.requested,
        ).len() == 0,
    ensures
        run.after(Occurrence::Proceed).stage is Done,
        run.after(Occurrence::Proceed).due() == (Act::Exit { code: 0 }),
{
}

/// A run leaves with the code zero exactly where it succeeded.
pub proof fn lemma_exit_code_tells_success(run: Run)
    ensures
        run.due() == (Act::Exit { code: 0 }) <==> run.stage is Done,
        run.due() == (Act::Exit { code: 1 }) <==> run.stage is Failed,
        run.due() is Exit <==> run.stage is Done || run.stage is Failed,
{
}

/// A group whose events cannot be stored does not fail the run: the run
/// goes on to the other groups, or to the deduplication if it was the last.
pub proof fn lemma_store_failure_is_not_fatal(run: Run, task: int, events: nat, message: Seq<char>)
    requires
        run.wf(),
        run.stage is Fetching,
    ensures
        !(run.after(
            Occurrence::TaskFinished {
                task,
                outcome: Outcome::StoreFailed { events, message },
            },
        ).stage is Failed),
{
}

/// What a failed fetch does to a run is what the policy says: under
/// `AbortRun` the run fails with that failure, under `SkipGroup` it goes on.
pub proof fn lemma_fetch_failure_follows_policy(run: Run, task: int, message: Seq<char>)
    requires
        run.wf(),
        run.stage matches Stage::Fetching { pool, starting, .. } && pool.holds_slot(task)
            && starting != Some(task),
    ensures
        run.policy is AbortRun ==> run.after(
            Occurrence::TaskFinished { task, outcome: Outcome::FetchFailed { reason: message } },
        ).stage == (Stage::Failed { fault: Fault::RemoteCall { message } }),
        run.policy is SkipGroup ==> !(run.after(
            Occurrence::TaskFinished { task, outcome: Outcome::FetchFailed { reason: message } },
        ).stage is Failed),
{
}

/// What a run asks for.
#[derive(Debug)]
pub enum Action {
    /// Open the store as `store` says, issue the statements of `schema`
    /// in order, and make the remote client from `loader`.
    Connect { store: StoreSettings, schema: Vec<Statement>, loader: LoaderSettings },
    /// Fetch one page of the remote service's log groups.
    ListLogGroups { next_token: Option<String> },
    /// Nothing but to take note that all log groups are known.
    Select { discovered: usize },
    /// Read the clock.
    ReadClock { selected: usize },
    /// Start the task `task`, whose work is `work`.
    StartTask { task: usize, work: GroupTask },
    /// Wait until the body of a running task has completed.
    AwaitTask,
    /// Run the transaction that removes duplicate rows.
    Dedupe { transaction: Transaction },
    /// Leave, with this exit code.
    Exit { code: i32 },
}

impl View for Action {
    type V = Act;

    open spec fn view(&self) -> Act {
        match *self {
            Action::Connect { store, schema, loader } => Act::Connect {
                filename: store.filename@,
                create_if_missing: store.create_if_missing,
                slow_statement_seconds: store.slow_statement_seconds as int,
                schema: statement_texts(schema@),
                profile: optional_text(loader.profile_name),
                region: optional_text(loader.region),
            },
            Action::ListLogGroups { next_token } => Act::ListLogGroups {
                next_token: optional_text(next_token),
            },
            Action::Select { discovered } => Act::Select { discovered: discovered as nat },
            Action::ReadClock { selected } => Act::ReadClock { selected: selected as nat },
            Action::StartTask { task, work } => Act::StartTask { task: task as int, work: work@ },
            Action::AwaitTask => Act::AwaitTask,
            Action::Dedupe { transaction } => Act::Dedupe { script: transaction@ },
            Action::Exit { code } => Act::Exit { code: code as int },
        }
    }
}

/// What happened outside.
#[derive(Debug)]
pub enum Event {
    /// The store is open, its schema is set up, and the remote client is made.
    Connected,
    /// The store could not be opened, or its schema could not be set up.
    ConnectFailed(StoreError),
    /// The remote service answered the listing of its log groups with a page.
    GroupsPage(Page<LogGroup>),
    /// The listing of the log groups failed.
    ListingFailed(RemoteCallError),
    /// Note was taken that all log groups are known.
    Proceed,
    /// The clock was read.
    Clock(UtcInstant),
    /// The task that was to be started runs.
    TaskStarted,
    /// The body of a task has completed.
    TaskFinished { task: usize, outcome: TaskOutcome },
    /// The transaction that removes duplicate rows has ended.
    Deduped(Result<(), StoreError>),
    /// Something failed from which the run cannot recover.
    Fatal(RunError),
}

impl View for Event {
    type V = Occurrence;

    open spec fn view(&self) -> Occurrence {
        match *self {
            Event::Connected => Occurrence::Connected,
            Event::ConnectFailed(error) => Occurrence::ConnectFailed { message: error.message@ },
            Event::GroupsPage(page) => Occurrence::GroupsListed { answer: page.answer() },
            Event::ListingFailed(error) => Occurrence::GroupsListed { answer: error.answer() },
            Event::Proceed => Occurrence::Proceed,
            Event::Clock(now) => Occurrence::Clock { now },
            Event::TaskStarted => Occurrence::TaskStarted,
            Event::TaskFinished { task, outcome } => Occurrence::TaskFinished {
                task: task as int,
                outcome: outcome@,
            },
            Event::Deduped(result) => Occurrence::Deduped {
                reply: match result {
                    Ok(_) => Reply::Done,
                    Err(error) => Reply::Failed { message: error.message@ },
                },
            },
            Event::Fatal(error) => Occurrence::Fatal { fault: error@ },
        }
    }
}

/// Where a run stands.
#[derive(Debug)]
enum RunStage {
    Init,
    Connected { listing: Paginator<LogGroup> },
    GroupsDiscovered { groups: Vec<LogGroup> },
    GroupsSelected { groups: Vec<LogGroup> },
    Fetching {
        groups: Vec<LogGroup>,
        window: TimeWindow,
        pool: BoundedWorkerPool,
        starting: Option<usize>,
    },
    Deduping,
    Done,
    Failed { error: RunError },
}

impl View for RunStage {
    type V = Stage;

    closed spec fn view(&self) -> Stage {
        match *self {
            RunStage::Init => Stage::Init,
            RunStage::Connected { listing } => Stage::Connected { listing: listing@ },
            RunStage::GroupsDiscovered { groups } => Stage::GroupsDiscovered { groups: groups@ },
            RunStage::GroupsSelected { groups } => Stage::GroupsSelected { groups: groups@ },
            RunStage::Fetching { groups, window, pool, starting } => Stage::Fetching {
                groups: groups@,
                start: window.start as int,
                end: window.end as int,
                pool: pool@,
                starting: match starting {
                    Some(task) => Some(task as int),
                    None => None,
                },
            },
            RunStage::Deduping => Stage::Deduping,
            RunStage::Done => Stage::Done,
            RunStage::Failed { error } => Stage::Failed { fault: error@ },
        }
    }
}

/// The name of a stage.
#[derive(Clone, Copy, PartialEq, Eq, Debug)]
pub enum StageName {
    Init,
    Connected,
    GroupsDiscovered,
    GroupsSelected,
    Fetching,
    Deduping,
    Done,
    Failed,
}

impl Stage {
    /// The name of the stage.
    pub open spec fn name(self) -> StageName {
        match self {
            Stage::Init => StageName::Init,
            Stage::Connected { .. } => StageName::Connected,
            Stage::GroupsDiscovered { .. } => StageName::GroupsDiscovered,
            Stage::GroupsSelected { .. } => StageName::GroupsSelected,
            Stage::Fetching { .. } => StageName::Fetching,
            Stage::Deduping => StageName::Deduping,
            Stage::Done => StageName::Done,
            Stage::Failed { .. } => StageName::Failed,
        }
    }
}

/// A run.
#[derive(Debug)]
pub struct Orchestrator {
    config: AppConfig,
    policy: FetchFailurePolicy,
    limit: usize,
    stage: RunStage,
}

impl View for Orchestrator {
    type V = Run;

    closed spec fn view(&self) -> Run {
        Run {
            settings: self.config@,
            policy: self.policy,
            limit: self.limit as nat,
            stage: self.stage@,
        }
    }
}

impl Orchestrator {
    #[verifier::type_invariant]
    spec fn inv(self) -> bool {
        self@.wf()
    }

    /// A run with the settings `config`, before its first step, in which
    /// at most `MAX_CONCURRENT_TASKS` tasks hold a slot at a time.
    pub fn new(config: AppConfig, policy: FetchFailurePolicy) -> (run: Orchestrator)
        ensures
            run@ == Run::start(config@, policy, MAX_CONCURRENT_TASKS as nat),
            run@.wf(),
    {
        Orchestrator { config, policy, limit: MAX_CONCURRENT_TASKS, stage: RunStage::Init }
    }

    /// A run with the settings `config`, before its first step, in which
    /// at most `max_concurrent` tasks hold a slot at a time. There is no
    /// run in which no task may hold a slot.
    pub fn with_limit(config: AppConfig, policy: FetchFailurePolicy, max_concurrent: usize) -> (run:
        Option<Orchestrator>)
        ensures
            match run {
                Some(made) => max_concurrent > 0 && made@ == Run::start(
                    config@,
                    policy,
                    max_concurrent as nat,
                ) && made@.wf(),
                None => max_concurrent == 0,
            },
    {
        if max_concurrent == 0 {
            None
        } else {
            Some(Orchestrator { config, policy, limit: max_concurrent, stage: RunStage::Init })
        }
    }

    /// The name of the stage at which the run stands.
    pub fn stage(&self) -> (name: StageName)
        ensures
            name == self@.stage.name(),
            self@.wf(),
    {
        proof {
            use_type_invariant(self);
        }
        match &self.stage {
            RunStage::Init => StageName::Init,
            RunStage::Connected { .. } => StageName::Connected,
            RunStage::GroupsDiscovered { .. } => StageName::GroupsDiscovered,
            RunStage::GroupsSelected { .. } => StageName::GroupsSelected,
            RunStage::Fetching { .. } => StageName::Fetching,
            RunStage::Deduping => StageName::Deduping,
            RunStage::Done => StageName::Done,
            RunStage::Failed { .. } => StageName::Failed,
        }
    }

    /// How many tasks hold a slot: never more than the run's limit.
    pub fn tasks_running(&self) -> (count: usize)
        ensures
            count == self@.stage.tasks_running(),
            count <= self@.limit,
    {
        proof {
            use_type_invariant(self);
        }
        match &self.stage {
            RunStage::Fetching { pool, .. } => pool.running(),
            _ => 0,
        }
    }

    /// Why the run failed, if it did.
    pub fn failure(&self) -> (error: Option<&RunError>)
        ensures
            match error {
                Some(found) => self@.stage == (Stage::Failed { fault: found@ }),
                None => !(self@.stage is Failed),
            },
    {
        match &self.stage {
            RunStage::Failed { error } => Some(error),
            _ => None,
        }
    }

    /// The action that is due.
    pub fn next_action(&self) -> (action: Action)
        ensures
            action@ == self@.due(),
    {
        proof {
            use_type_invariant(self);
        }
        match &self.stage {
            RunStage::Init => Action::Connect {
                store: init_connection(&self.config),
                schema: init_sqlite_db(),
                loader: build_config(&self.config),
            },
            RunStage::Connected { listing } => Action::ListLogGroups {
                next_token: listing.cursor(),
            },
            RunStage::GroupsDiscovered { groups } => Action::Select { discovered: groups.len() },
            RunStage::GroupsSelected { groups } => Action::ReadClock { selected: groups.len() },
            RunStage::Fetching { groups, window, pool, starting } => match starting {
                Some(task) => Action::StartTask {
                    task: *task,
                    work: process_one_log_group(&groups[*task], window),
                },
                None => Action::AwaitTask,
            },
            RunStage::Deduping => Action::Dedupe { transaction: dedupe_rows() },
            RunStage::Done => Action::Exit { code: 0 },
            RunStage::Failed { .. } => Action::Exit { code: 1 },
        }
    }

    /// Where the listing of the log groups leads.
    fn listed(listing: Paginator<LogGroup>) -> (stage: RunStage)
        ensures
            stage@ == Stage::listed(listing@),
    {
        if listing.is_fetching() {
            return RunStage::Connected { listing };
        }
        match listing.finish() {
            Some(Ok(found)) => RunStage::GroupsDiscovered { groups: found },
            Some(Err(error)) => RunStage::Failed { error: RunError::RemoteCall(error) },
            None => unreached(),
        }
    }

    /// The fetching stage, with the next waiting task admitted if none is
    /// about to be started and a slot is free.
    fn refilled(
        groups: Vec<LogGroup>,
        window: TimeWindow,
        pool: BoundedWorkerPool,
        starting: Option<usize>,
    ) -> (stage: RunStage)
        ensures
            pool@.wf(),
            stage@ == Stage::refilled(
                groups@,
                window.start as int,
                window.end as int,
                pool@,
                match starting {
                    Some(task) => Some(task as int),
                    None => None,
                },
            ),
    {
        match starting {
            Some(task) => {
                let _ = pool.all_joined();
                RunStage::Fetching { groups, window, pool, starting: Some(task) }
            },
            None => {
                let (pool, admitted) = pool.acquire();
                RunStage::Fetching { groups, window, pool, starting: admitted }
            },
        }
    }

    /// Takes what happened, and goes on from it.
    pub fn handle(self, event: Event) -> (next: Orchestrator)
        ensures
            self@.wf(),
            next@.wf(),
            next@ == self@.after(event@),
    {
        proof {
            use_type_invariant(&self);
            lemma_step_keeps_run(self@, event@);
        }
        let Orchestrator { config, policy, limit, stage } = self;
        let stage = match (stage, event) {
            (RunStage::Done, _) => RunStage::Done,
            (RunStage::Failed { error }, _) => RunStage::Failed { error },
            (_, Event::Fatal(error)) => RunStage::Failed { error },
            (stage, event) => Orchestrator::taken(&config, policy, limit, stage, event),
        };
        Orchestrator { config, policy, limit, stage }
    }

    /// Where a run that goes on stands after `event`.
    fn taken(
        config: &AppConfig,
        policy: FetchFailurePolicy,
        limit: usize,
        stage: RunStage,
        event: Event,
    ) -> (next: RunStage)
        requires
            (Run { settings: config@, policy, limit: limit as nat, stage: stage@ }).wf(),
            !(stage@ is Done),
            !(stage@ is Failed),
            !(event@ is Fatal),
        ensures
            next@ == (Run { settings: config@, policy, limit: limit as nat, stage: stage@ }).after(
                event@,
            ).stage,
    {
        match stage {
            RunStage::Init => match event {
                Event::Connected => RunStage::Connected { listing: get_log_groups() },
                Event::ConnectFailed(error) => RunStage::Failed { error: RunError::Store(error) },
                _ => RunStage::Init,
            },
            RunStage::Connected { listing } => match event {
                Event::GroupsPage(page) => Orchestrator::listed(listing.on_page(page)),
                Event::ListingFailed(error) => Orchestrator::listed(listing.on_failure(error)),
                _ => RunStage::Connected { listing },
            },
            RunStage::GroupsDiscovered { groups } => match event {
                Event::Proceed => {
                    let chosen = filter_log_groups(groups, config.requested_log_groups());
                    if chosen.len() == 0 {
                        RunStage::Done
                    } else {
                        RunStage::GroupsSelected { groups: chosen }
                    }
                },
                _ => RunStage::GroupsDiscovered { groups },
            },
            RunStage::GroupsSelected { groups } => match event {
                Event::Clock(now) => match config.get_duration(&now) {
                    Ok(window) => {
                        let pool = BoundedWorkerPool::new(groups.len(), limit);
                        Orchestrator::refilled(groups, window, pool, None)
                    },
                    Err(error) => RunStage::Failed { error: RunError::Config(error) },
                },
                _ => RunStage::GroupsSelected { groups },
            },
            RunStage::Fetching { groups, window, pool, starting } => match event {
                Event::TaskStarted => Orchestrator::refilled(groups, window, pool, None),
                Event::TaskFinished { task, outcome } => {
                    if !pool.holds_slot(task) || starting == Some(task) {
                        RunStage::Fetching { groups, window, pool, starting }
                    } else {
                        match (outcome, policy) {
                            (
                                TaskOutcome::FetchFailed { failure },
                                FetchFailurePolicy::AbortRun,
                            ) => RunStage::Failed { error: RunError::RemoteCall(failure) },
                            _ => {
                                let (pool, _) = pool.release(task);
                                if pool.all_joined() {
                                    RunStage::Deduping
                                } else {
                                    Orchestrator::refilled(groups, window, pool, starting)
                                }
                            },
                        }
                    }
                },
                _ => RunStage::Fetching { groups, window, pool, starting },
            },
            RunStage::Deduping => match event {
                Event::Deduped(Ok(_)) => RunStage::Done,
                Event::Deduped(Err(error)) => RunStage::Failed { error: RunError::Store(error) },
                _ => RunStage::Deduping,
            },
            RunStage::Done => RunStage::Done,
            RunStage::Failed { error } => RunStage::Failed { error },
        }
    }
}

} // verus!
