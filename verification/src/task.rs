//! The work on one log group: fetch its events, then store them.

use vstd::prelude::*;
use vstd::pervasive::unreached;
use crate::aws::{EventFetcher, EventListing, EventQuery, EventQueryText, fetch_logs};
use crate::db::{
    Call, Progress, Reply, Script, Step, StoreError, Transaction, insertion_texts,
    lemma_calls_run_in_order, lemma_ended_transaction_stays, store_events_in_sqlite,
};
use crate::models::{LogGroup, SavedLogEvent};
use crate::paginator::{
    Answer, Listing, Page, RemoteCallError, concatenated, lemma_ended_listing_stays,
    lemma_failure_ends_listing, lemma_listing_concatenates_pages, lemma_pages_accumulate,
};
use crate::window::TimeWindow;

verus! {

/// How the work on a log group ended, as plain data.
pub enum Outcome {
    /// The events were fetched and stored.
    Stored { events: nat },
    /// The events were fetched, but the store refused them: none of them is
    /// stored.
    StoreFailed { events: nat, message: Seq<char> },
    /// The events could not be fetched: none was stored.
    FetchFailed { reason: Seq<char> },
}

/// What the work on a log group asks for next.
pub enum Demand {
    Fetch { query: EventQueryText },
    Store { call: Call },
    Nothing,
}

/// What came back for the last demand.
pub enum Feedback {
    Fetched { answer: Answer<SavedLogEvent> },
    Stored { reply: Reply },
}

/// The state of the work on a log group, as plain data.
pub enum Work {
    Fetching { listing: EventListing },
    Storing { events: nat, script: Script },
    Finished { outcome: Outcome },
}

/// The name under which a log group is fetched and stored: its own, or the
/// empty name where it has none.
pub open spec fn group_name(group: LogGroup) -> Seq<char> {
    match group.log_group_name {
        Some(name) => name@,
        None => Seq::empty(),
    }
}

impl Work {
    /// The work on the group `name` over the interval from `start` to `end`,
    /// before anything was fetched.
    pub open spec fn start(name: Seq<char>, start: int, end: int) -> Work {
        Work::Fetching {
            listing: EventListing {
                log_group_name: name,
                start_time: start,
                end_time: end,
                listing: Listing::start(),
            },
        }
    }

    /// What is due: fetches until the listing has ended, then the calls of
    /// the transaction that stores what was fetched, then nothing.
    pub open spec fn due(self) -> Demand {
        match self {
            Work::Fetching { listing } => match listing.due() {
                Some(query) => Demand::Fetch { query },
                None => Demand::Nothing,
            },
            Work::Storing { script, .. } => Demand::Store { call: script.due() },
            Work::Finished { .. } => Demand::Nothing,
        }
    }

    /// The work once the listing is in the state `listing`: it goes on while
    /// fetches are due; a complete listing is stored, one insertion for each
    /// event in the order of the events; a failed one ends the work.
    pub open spec fn fetched(events: EventListing, listing: Listing<SavedLogEvent>) -> Work {
        match listing {
            Listing::Fetching { .. } => Work::Fetching { listing: events.with(listing) },
            Listing::Complete { items } => Work::Storing {
                events: items.len(),
                script: Script::start(insertion_texts(events.log_group_name, items)),
            },
            Listing::Failed { message } => Work::Finished {
                outcome: Outcome::FetchFailed { reason: message },
            },
        }
    }

    /// The work once the transaction is in the state `script`: it goes on
    /// while calls are due, and ends with the transaction.
    pub open spec fn stored(events: nat, script: Script) -> Work {
        match script.progress {
            Progress::Committed => Work::Finished { outcome: Outcome::Stored { events } },
            Progress::Abandoned { message } => Work::Finished {
                outcome: Outcome::StoreFailed { events, message },
            },
            _ => Work::Storing { events, script },
        }
    }

    /// The work after what came back for the last demand. What does not
    /// answer the demand that was due changes nothing.
    pub open spec fn after(self, feedback: Feedback) -> Work {
        match (self, feedback) {
            (Work::Fetching { listing }, Feedback::Fetched { answer }) => Work::fetched(
                listing,
                listing.listing.after(answer),
            ),
            (Work::Storing { events, script }, Feedback::Stored { reply }) => Work::stored(
                events,
                script.after(reply),
            ),
            _ => self,
        }
    }

    /// The work after all of `feedback`, in order.
    pub open spec fn after_all(self, feedback: Seq<Feedback>) -> Work
        decreases feedback.len(),
    {
        if feedback.len() == 0 {
            self
        } else {
            self.after(feedback[0]).after_all(feedback.drop_first())
        }
    }
}

/// The answers to the fetches of a listing, as what came back to the work.
pub open spec fn as_fetched(answers: Seq<Answer<SavedLogEvent>>) -> Seq<Feedback> {
    answers.map_values(|answer: Answer<SavedLogEvent>| Feedback::Fetched { answer })
}

/// The replies of the store, as what came back to the work.
pub open spec fn as_stored(replies: Seq<Reply>) -> Seq<Feedback> {
    replies.map_values(|reply: Reply| Feedback::Stored { reply })
}

/// Work that is not fetching is changed by no answer to a fetch.
pub proof fn lemma_fetching_is_over(work: Work, answers: Seq<Answer<SavedLogEvent>>)
    requires
        !(work is Fetching),
    ensures
        work.after_all(as_fetched(answers)) == work,
    decreases answers.len(),
{
    if answers.len() > 0 {
        assert(as_fetched(answers).drop_first() == as_fetched(answers.drop_first()));
        lemma_fetching_is_over(work, answers.drop_first());
    }
}

/// While a group is fetched, the work follows the listing: after any
/// answers it is where the listing after those answers leads.
pub proof fn lemma_work_follows_listing(events: EventListing, answers: Seq<Answer<SavedLogEvent>>)
    requires
        events.listing is Fetching,
    ensures
        (Work::Fetching { listing: events }).after_all(as_fetched(answers)) == Work::fetched(
            events,
            events.listing.after_all(answers),
        ),
    decreases answers.len(),
{
    if answers.len() > 0 {
        let rest = answers.drop_first();
        let next = events.listing.after(answers[0]);
        assert(as_fetched(answers).drop_first() == as_fetched(rest));
        if next is Fetching {
            lemma_work_follows_listing(events.with(next), rest);
        } else {
            lemma_fetching_is_over(Work::fetched(events, next), rest);
            lemma_ended_listing_stays(next, rest);
        }
    }
}

/// While a group is stored, the work follows the transaction: after any
/// replies it is where the transaction after those replies leads.
pub proof fn lemma_work_follows_transaction(events: nat, script: Script, replies: Seq<Reply>)
    requires
        !script.ended(),
    ensures
        (Work::Storing { events, script }).after_all(as_stored(replies)) == Work::stored(
            events,
            script.after_all(replies),
        ),
    decreases replies.len(),
{
    if replies.len() > 0 {
        let rest = replies.drop_first();
        let next = script.after(replies[0]);
        assert(as_stored(replies).drop_first() == as_stored(rest));
        if next.ended() {
            lemma_work_is_over(Work::stored(events, next), as_stored(rest));
            lemma_ended_transaction_stays(next, rest);
        } else {
            lemma_work_follows_transaction(events, next, rest);
        }
    }
}

/// Work that has ended is changed by nothing.
pub proof fn lemma_work_is_over(work: Work, feedback: Seq<Feedback>)
    requires
        work is Finished,
    ensures
        work.after_all(feedback) == work,
    decreases feedback.len(),
{
    if feedback.len() > 0 {
        lemma_work_is_over(work, feedback.drop_first());
    }
}

/// What is stored for a group is what was fetched for it: when the pages
/// `answers[0]` to `answers[n - 1]` each name a cursor and `answers[n]`
/// names none, the work goes on to a transaction that inserts the events of
/// all pages, one row for each event, in the order in which the remote
/// returned them, under the name of the group.
pub proof fn lemma_work_stores_what_was_fetched(
    name: Seq<char>,
    start: int,
    end: int,
    answers: Seq<Answer<SavedLogEvent>>,
)
    requires
        answers.len() > 0,
        forall|i: int| 0 <= i < answers.len() - 1 ==> (#[trigger] answers[i]).has_next(),
        answers.last().is_last(),
    ensures
        Work::start(name, start, end).after_all(as_fetched(answers)) == (Work::Storing {
            events: concatenated(answers).len(),
            script: Script::start(insertion_texts(name, concatenated(answers))),
        }),
{
    let events = EventListing {
        log_group_name: name,
        start_time: start,
        end_time: end,
        listing: Listing::start(),
    };
    lemma_work_follows_listing(events, answers);
    lemma_listing_concatenates_pages(answers);
}

/// A group whose fetch fails is not stored: when the pages before
/// `answers[k]` each name a cursor and `answers[k]` is a failure, the work
/// ends with that failure, and no call to the store was due at any point.
pub proof fn lemma_failed_fetch_stores_nothing(
    name: Seq<char>,
    start: int,
    end: int,
    answers: Seq<Answer<SavedLogEvent>>,
    k: int,
)
    requires
        0 <= k < answers.len(),
        forall|i: int| 0 <= i < k ==> (#[trigger] answers[i]).has_next(),
        answers[k] is Failure,
    ensures
        Work::start(name, start, end).after_all(as_fetched(answers)) == (Work::Finished {
            outcome: Outcome::FetchFailed { reason: answers[k]->message },
        }),
        forall|j: int|
            0 <= j <= answers.len() ==> !(#[trigger] Work::start(name, start, end).after_all(
                as_fetched(answers.take(j)),
            ).due() is Store),
{
    let events = EventListing {
        log_group_name: name,
        start_time: start,
        end_time: end,
        listing: Listing::start(),
    };
    lemma_work_follows_listing(events, answers);
    lemma_failure_ends_listing(answers, k);
    assert forall|j: int| 0 <= j <= answers.len() implies !(#[trigger] Work::start(
        name,
        start,
        end,
    ).after_all(as_fetched(answers.take(j))).due() is Store) by {
        let head = answers.take(j);
        lemma_work_follows_listing(events, head);
        if j <= k {
            lemma_pages_accumulate(Seq::<SavedLogEvent>::empty(), None, head);
        } else {
            lemma_failure_ends_listing(head, k);
        }
    }
}

/// A batch whose calls all go through is stored: after the begin, one
/// insertion for each event and the commit, the work has ended with all
/// events stored.
pub proof fn lemma_batch_that_goes_through_is_stored(
    name: Seq<char>,
    items: Seq<SavedLogEvent>,
    replies: Seq<Reply>,
)
    requires
        replies.len() == items.len() + 2,
        forall|i: int| 0 <= i < replies.len() ==> #[trigger] replies[i] is Done,
    ensures
        (Work::Storing {
            events: items.len(),
            script: Script::start(insertion_texts(name, items)),
        }).after_all(as_stored(replies)) == (Work::Finished {
            outcome: Outcome::Stored { events: items.len() },
        }),
{
    let script = Script::start(insertion_texts(name, items));
    lemma_work_follows_transaction(items.len(), script, replies);
    lemma_calls_run_in_order(insertion_texts(name, items), replies);
}

/// How the work on a log group ended.
#[derive(Debug, Clone, PartialEq, Eq)]
pub enum TaskOutcome {
    Stored { events: usize },
    StoreFailed { events: usize, error: StoreError },
    FetchFailed { failure: RemoteCallError },
}

impl View for TaskOutcome {
    type V = Outcome;

    open spec fn view(&self) -> Outcome {
        match *self {
            TaskOutcome::Stored { events } => Outcome::Stored { events: events as nat },
            TaskOutcome::StoreFailed { events, error } => Outcome::StoreFailed {
                events: events as nat,
                message: error.message@,
            },
            TaskOutcome::FetchFailed { failure } => Outcome::FetchFailed {
                reason: failure.message@,
            },
        }
    }
}

/// The work on one log group.
#[derive(Debug)]
pub enum GroupTask {
    Fetching { fetcher: EventFetcher },
    Storing { events: usize, transaction: Transaction },
    Finished { outcome: TaskOutcome },
}

impl View for GroupTask {
    type V = Work;

    open spec fn view(&self) -> Work {
        match *self {
            GroupTask::Fetching { fetcher } => Work::Fetching { listing: fetcher@ },
            GroupTask::Storing { events, transaction } => Work::Storing {
                events: events as nat,
                script: transaction@,
            },
            GroupTask::Finished { outcome } => Work::Finished { outcome: outcome@ },
        }
    }
}

/// What the work on a log group asks for next.
#[derive(Debug)]
pub enum TaskStep<'a> {
    Fetch(EventQuery),
    Store(Step<'a>),
    Nothing,
}

impl<'a> View for TaskStep<'a> {
    type V = Demand;

    open spec fn view(&self) -> Demand {
        match *self {
            TaskStep::Fetch(query) => Demand::Fetch { query: query@ },
            TaskStep::Store(step) => Demand::Store { call: step@ },
            TaskStep::Nothing => Demand::Nothing,
        }
    }
}

/// The work on `log_group` over `window`, before anything was fetched. A
/// group without a name is fetched and stored under the empty name.
pub fn process_one_log_group(log_group: &LogGroup, window: &TimeWindow) -> (task: GroupTask)
    ensures
        task@ == Work::start(group_name(*log_group), window.start as int, window.end as int),
{
    let fetcher = match &log_group.log_group_name {
        Some(name) => fetch_logs(name.as_str(), window.start, window.end),
        None => fetch_logs("", window.start, window.end),
    };
    proof {
        reveal_strlit("");
        assert(""@ =~= Seq::<char>::empty());
    }
    GroupTask::Fetching { fetcher }
}

impl GroupTask {
    /// What to do next.
    pub fn next_step(&self) -> (step: TaskStep<'_>)
        ensures
            step@ == self@.due(),
    {
        match self {
            GroupTask::Fetching { fetcher } => match fetcher.next_query() {
                Some(query) => TaskStep::Fetch(query),
                None => TaskStep::Nothing,
            },
            GroupTask::Storing { transaction, .. } => TaskStep::Store(transaction.next_step()),
            GroupTask::Finished { .. } => TaskStep::Nothing,
        }
    }

    /// Whether the work has ended.
    pub fn is_finished(&self) -> (finished: bool)
        ensures
            finished == (self@ is Finished),
    {
        match self {
            GroupTask::Finished { .. } => true,
            _ => false,
        }
    }

    /// Goes on from a listing that took an answer.
    fn settle_fetch(fetcher: EventFetcher, Ghost(before): Ghost<EventListing>) -> (task: GroupTask)
        requires
            fetcher@ == before.with(fetcher@.listing),
        ensures
            task@ == Work::fetched(before, fetcher@.listing),
    {
        if fetcher.is_fetching() {
            return GroupTask::Fetching { fetcher };
        }
        let name = fetcher.group_name();
        match fetcher.finish() {
            Some(Ok(events)) => {
                let transaction = store_events_in_sqlite(name.as_str(), events.as_slice());
                GroupTask::Storing { events: events.len(), transaction }
            },
            Some(Err(failure)) => GroupTask::Finished {
                outcome: TaskOutcome::FetchFailed { failure },
            },
            None => unreached(),
        }
    }

    /// Goes on from a transaction that took a reply.
    fn settle_store(events: usize, transaction: Transaction) -> (task: GroupTask)
        ensures
            task@ == Work::stored(events as nat, transaction@),
    {
        if !transaction.has_ended() {
            return GroupTask::Storing { events, transaction };
        }
        match transaction.outcome() {
            Some(Ok(())) => GroupTask::Finished { outcome: TaskOutcome::Stored { events } },
            Some(Err(error)) => GroupTask::Finished {
                outcome: TaskOutcome::StoreFailed { events, error },
            },
            None => unreached(),
        }
    }

    /// Takes the page that answered the last fetch.
    pub fn on_page(self, page: Page<SavedLogEvent>) -> (next: GroupTask)
        ensures
            next@ == self@.after(Feedback::Fetched { answer: page.answer() }),
    {
        match self {
            GroupTask::Fetching { fetcher } => {
                let ghost before = fetcher@;
                GroupTask::settle_fetch(fetcher.on_page(page), Ghost(before))
            },
            other => other,
        }
    }

    /// Takes the failure of the last fetch.
    pub fn on_fetch_failure(self, error: RemoteCallError) -> (next: GroupTask)
        ensures
            next@ == self@.after(Feedback::Fetched { answer: error.answer() }),
    {
        match self {
            GroupTask::Fetching { fetcher } => {
                let ghost before = fetcher@;
                GroupTask::settle_fetch(fetcher.on_failure(error), Ghost(before))
            },
            other => other,
        }
    }

    /// Takes the store's word that the last call went through.
    pub fn on_store_success(self) -> (next: GroupTask)
        ensures
            next@ == self@.after(Feedback::Stored { reply: Reply::Done }),
    {
        match self {
            GroupTask::Storing { events, transaction } => GroupTask::settle_store(
                events,
                transaction.on_success(),
            ),
            other => other,
        }
    }

    /// Takes the failure of the last call to the store.
    pub fn on_store_failure(self, error: StoreError) -> (next: GroupTask)
        ensures
            next@ == self@.after(
                Feedback::Stored { reply: Reply::Failed { message: error.message@ } },
            ),
    {
        match self {
            GroupTask::Storing { events, transaction } => GroupTask::settle_store(
                events,
                transaction.on_failure(error),
            ),
            other => other,
        }
    }

    /// How the work ended, once it has.
    pub fn outcome(self) -> (result: Option<TaskOutcome>)
        ensures
            match self@ {
                Work::Finished { outcome } => result matches Some(ended) && ended@ == outcome,
                _ => result is None,
            },
    {
        match self {
            GroupTask::Finished { outcome } => Some(outcome),
            _ => None,
        }
    }
}

} // verus!
