//! Driving a cursor-paginated remote listing to completion.
//!
//! The listing itself is a remote call, so the paginator is a state machine:
//! it says which cursor the next fetch carries, takes the answer, and ends
//! with every page's items in the order in which the remote returned them, or
//! with the first failure and nothing else.

use vstd::prelude::*;
use crate::models::optional_text;

verus! {

/// One page of a remote listing.
#[derive(Debug, Clone, PartialEq, Eq)]
pub struct Page<T> {
    pub items: Vec<T>,
    pub next_token: Option<String>,
}

/// A failed call to the remote service, with the collaborator's own words.
#[derive(Debug, Clone, PartialEq, Eq)]
pub struct RemoteCallError {
    pub message: String,
}

/// How the remote answered one fetch.
pub enum Answer<T> {
    Page { items: Seq<T>, next: Option<Seq<char>> },
    Failure { message: Seq<char> },
}

/// The state of a listing.
pub enum Listing<T> {
    /// More is to be fetched, and the next fetch carries `cursor`.
    Fetching { items: Seq<T>, cursor: Option<Seq<char>> },
    /// The remote returned a page without a cursor.
    Complete { items: Seq<T> },
    /// A fetch failed. Whatever earlier pages held is gone.
    Failed { message: Seq<char> },
}

impl<T> Listing<T> {
    /// A listing of which nothing was fetched yet: its first fetch carries no cursor.
    pub open spec fn start() -> Self {
        Listing::Fetching { items: Seq::empty(), cursor: None }
    }

    /// The listing after one more answer. A listing that has ended takes no
    /// further answers.
    pub open spec fn after(self, answer: Answer<T>) -> Self {
        match self {
            Listing::Fetching { items, cursor } => match answer {
                Answer::Page { items: more, next } => match next {
                    Some(token) => Listing::Fetching { items: items + more, cursor: Some(token) },
                    None => Listing::Complete { items: items + more },
                },
                Answer::Failure { message } => Listing::Failed { message },
            },
            _ => self,
        }
    }

    /// The listing after the remote answered its fetches with `answers`, in order.
    pub open spec fn after_all(self, answers: Seq<Answer<T>>) -> Self
        decreases answers.len(),
    {
        if answers.len() == 0 {
            self
        } else {
            self.after(answers[0]).after_all(answers.drop_first())
        }
    }

    /// How many fetches a listing makes when the remote would answer with
    /// `answers`: one for each answer until the listing ends.
    pub open spec fn fetches(self, answers: Seq<Answer<T>>) -> nat
        decreases answers.len(),
    {
        if answers.len() == 0 || !(self is Fetching) {
            0
        } else {
            1 + self.after(answers[0]).fetches(answers.drop_first())
        }
    }
}

impl<T> Answer<T> {
    /// The items that the answer brought: those of the page, and none with a failure.
    pub open spec fn items(self) -> Seq<T> {
        match self {
            Answer::Page { items, .. } => items,
            Answer::Failure { .. } => Seq::empty(),
        }
    }

    /// Whether the answer is a page that points to a further page.
    pub open spec fn has_next(self) -> bool {
        self matches Answer::Page { next, .. } && next is Some
    }

    /// Whether the answer is a page after which nothing is left.
    pub open spec fn is_last(self) -> bool {
        self matches Answer::Page { next, .. } && next is None
    }
}

/// The items of all the answers, one answer's items after the other's.
pub open spec fn concatenated<T>(answers: Seq<Answer<T>>) -> Seq<T>
    decreases answers.len(),
{
    if answers.len() == 0 {
        Seq::empty()
    } else {
        answers[0].items() + concatenated(answers.drop_first())
    }
}

/// The cursor that follows a run of pages: the one that the last page named.
pub open spec fn cursor_after<T>(cursor: Option<Seq<char>>, answers: Seq<Answer<T>>) -> Option<
    Seq<char>,
> {
    if answers.len() == 0 {
        cursor
    } else {
        match answers.last() {
            Answer::Page { next, .. } => next,
            Answer::Failure { .. } => None,
        }
    }
}

/// While every page points to a further page, the listing goes on: it holds
/// the pages' items in order, makes one fetch for each page, and its next
/// fetch carries the cursor of the last page.
pub proof fn lemma_pages_accumulate<T>(
    items: Seq<T>,
    cursor: Option<Seq<char>>,
    answers: Seq<Answer<T>>,
)
    requires
        forall|i: int| 0 <= i < answers.len() ==> (#[trigger] answers[i]).has_next(),
    ensures
        (Listing::Fetching { items, cursor }).after_all(answers) == (Listing::Fetching {
            items: items + concatenated(answers),
            cursor: cursor_after(cursor, answers),
        }),
        (Listing::Fetching { items, cursor }).fetches(answers) == answers.len(),
    decreases answers.len(),
{
    if answers.len() > 0 {
        let first = answers[0];
        let rest = answers.drop_first();
        let token = first->next;
        lemma_pages_accumulate(items + first.items(), token, rest);
        assert((items + first.items()) + concatenated(rest) == items + concatenated(answers));
    }
}

/// A listing whose pages `answers[0]` to `answers[n - 1]` each name a cursor
/// and whose page `answers[n]` names none ends complete, with the pages'
/// items one after the other, after exactly `n + 1` fetches. Every fetch but
/// the first carries the cursor that the page before it named.
pub proof fn lemma_listing_concatenates_pages<T>(answers: Seq<Answer<T>>)
    requires
        answers.len() > 0,
        forall|i: int| 0 <= i < answers.len() - 1 ==> (#[trigger] answers[i]).has_next(),
        answers.last().is_last(),
    ensures
        Listing::<T>::start().after_all(answers) == (Listing::Complete {
            items: concatenated(answers),
        }),
        Listing::<T>::start().fetches(answers) == answers.len(),
        forall|k: int|
            0 < k < answers.len() ==> #[trigger] Listing::<T>::start().after_all(answers.take(k))
                == (Listing::Fetching {
                items: concatenated(answers.take(k)),
                cursor: answers[k - 1]->next,
            }),
{
    let start = Listing::<T>::start();
    let n = answers.len() - 1;
    let pages = answers.take(n);
    let last = answers.last();
    lemma_pages_accumulate(Seq::<T>::empty(), None, pages);
    let before = start.after_all(pages);
    assert(answers == pages + seq![last]);
    lemma_after_all_splits(start, pages, seq![last]);
    lemma_fetches_split(start, pages, seq![last]);
    lemma_concatenated_splits(pages, seq![last]);
    assert(concatenated(seq![last]) == last.items()) by {
        assert(concatenated(seq![last].drop_first()) == Seq::<T>::empty());
    }
    assert(before.after_all(seq![last]) == before.after(last)) by {
        assert(before.after(last).after_all(seq![last].drop_first()) == before.after(last));
    }
    assert(before.fetches(seq![last]) == 1) by {
        assert(before.after(last).fetches(seq![last].drop_first()) == 0);
    }
    assert forall|k: int| 0 < k < answers.len() implies #[trigger] start.after_all(
        answers.take(k),
    ) == (Listing::Fetching {
        items: concatenated(answers.take(k)),
        cursor: answers[k - 1]->next,
    }) by {
        let head = answers.take(k);
        lemma_pages_accumulate(Seq::<T>::empty(), None, head);
    }
}

/// A failed fetch ends the listing at once: when the pages before
/// `answers[k]` each name a cursor and `answers[k]` is a failure, the listing
/// ends failed after exactly `k + 1` fetches, with the failure's message and
/// none of the items that the earlier pages held, whatever answers would follow.
pub proof fn lemma_failure_ends_listing<T>(answers: Seq<Answer<T>>, k: int)
    requires
        0 <= k < answers.len(),
        forall|i: int| 0 <= i < k ==> (#[trigger] answers[i]).has_next(),
        answers[k] is Failure,
    ensures
        Listing::<T>::start().after_all(answers) == (Listing::<T>::Failed {
            message: answers[k]->message,
        }),
        Listing::<T>::start().fetches(answers) == k + 1,
{
    let start = Listing::<T>::start();
    let pages = answers.take(k);
    let tail = answers.skip(k);
    lemma_pages_accumulate(Seq::<T>::empty(), None, pages);
    assert(answers == pages + tail);
    lemma_after_all_splits(start, pages, tail);
    lemma_fetches_split(start, pages, tail);
    let failed = Listing::<T>::Failed { message: answers[k]->message };
    lemma_ended_listing_stays(failed, tail.drop_first());
}

/// A listing that has ended is changed by no further answer, and makes no
/// further fetch.
pub proof fn lemma_ended_listing_stays<T>(state: Listing<T>, answers: Seq<Answer<T>>)
    requires
        !(state is Fetching),
    ensures
        state.after_all(answers) == state,
        state.fetches(answers) == 0,
    decreases answers.len(),
{
    if answers.len() > 0 {
        lemma_ended_listing_stays(state, answers.drop_first());
    }
}

/// Answers taken in two runs come to the same listing as taken in one.
pub proof fn lemma_after_all_splits<T>(
    state: Listing<T>,
    first: Seq<Answer<T>>,
    second: Seq<Answer<T>>,
)
    ensures
        state.after_all(first + second) == state.after_all(first).after_all(second),
    decreases first.len(),
{
    if first.len() > 0 {
        assert((first + second).drop_first() == first.drop_first() + second);
        lemma_after_all_splits(state.after(first[0]), first.drop_first(), second);
    }
}

/// The fetches of two runs of answers add up, as long as the listing is
/// still going when the first run is over.
pub proof fn lemma_fetches_split<T>(
    state: Listing<T>,
    first: Seq<Answer<T>>,
    second: Seq<Answer<T>>,
)
    requires
        state.fetches(first) == first.len(),
    ensures
        state.fetches(first + second) == first.len() + state.after_all(first).fetches(second),
    decreases first.len(),
{
    if first.len() > 0 {
        assert((first + second).drop_first() == first.drop_first() + second);
        lemma_fetches_split(state.after(first[0]), first.drop_first(), second);
    }
}

/// The items of two runs of answers are those of the first run, then those
/// of the second.
pub proof fn lemma_concatenated_splits<T>(first: Seq<Answer<T>>, second: Seq<Answer<T>>)
    ensures
        concatenated(first + second) == concatenated(first) + concatenated(second),
    decreases first.len(),
{
    if first.len() > 0 {
        assert((first + second).drop_first() == first.drop_first() + second);
        lemma_concatenated_splits(first.drop_first(), second);
        assert(first[0].items() + (concatenated(first.drop_first()) + concatenated(second)) == (
        first[0].items() + concatenated(first.drop_first())) + concatenated(second));
    }
}

impl<T> Page<T> {
    /// The page that a response stands for: an absent list of items is an empty one.
    pub fn from_response(items: Option<Vec<T>>, next_token: Option<String>) -> (page: Page<T>)
        ensures
            page.next_token == next_token,
            page.items@ == (match items {
                Some(list) => list@,
                None => Seq::<T>::empty(),
            }),
    {
        match items {
            Some(list) => Page { items: list, next_token },
            None => Page { items: Vec::new(), next_token },
        }
    }

    /// The page as an answer to a fetch.
    pub open spec fn answer(self) -> Answer<T> {
        Answer::Page { items: self.items@, next: optional_text(self.next_token) }
    }
}

impl RemoteCallError {
    /// The failure as an answer to a fetch.
    pub open spec fn answer<T>(self) -> Answer<T> {
        Answer::Failure { message: self.message@ }
    }
}

/// A listing in progress.
#[derive(Debug)]
pub enum Paginator<T> {
    Fetching { items: Vec<T>, cursor: Option<String> },
    Complete { items: Vec<T> },
    Failed { error: RemoteCallError },
}

impl<T> View for Paginator<T> {
    type V = Listing<T>;

    open spec fn view(&self) -> Listing<T> {
        match *self {
            Paginator::Fetching { items, cursor } => Listing::Fetching {
                items: items@,
                cursor: optional_text(cursor),
            },
            Paginator::Complete { items } => Listing::Complete { items: items@ },
            Paginator::Failed { error } => Listing::Failed { message: error.message@ },
        }
    }
}

impl<T> Paginator<T> {
    /// A listing of which nothing was fetched yet.
    pub fn new() -> (paginator: Self)
        ensures
            paginator@ == Listing::<T>::start(),
    {
        Paginator::Fetching { items: Vec::new(), cursor: None }
    }

    /// Whether another fetch is to be made.
    pub fn is_fetching(&self) -> (fetching: bool)
        ensures
            fetching == (self@ is Fetching),
    {
        match self {
            Paginator::Fetching { .. } => true,
            _ => false,
        }
    }

    /// The cursor that the next fetch carries: none on the first fetch, and
    /// none once the listing has ended.
    pub fn cursor(&self) -> (token: Option<String>)
        ensures
            optional_text(token) == (match self@ {
                Listing::Fetching { cursor, .. } => cursor,
                _ => None,
            }),
    {
        match self {
            Paginator::Fetching { cursor, .. } => cursor.clone(),
            _ => None,
        }
    }

    /// Takes the page that answered the last fetch.
    pub fn on_page(self, page: Page<T>) -> (next: Self)
        ensures
            next@ == self@.after(page.answer()),
    {
        match self {
            Paginator::Fetching { items, cursor: _ } => {
                let mut items = items;
                let mut more = page.items;
                items.append(&mut more);
                match page.next_token {
                    Some(token) => Paginator::Fetching { items, cursor: Some(token) },
                    None => Paginator::Complete { items },
                }
            },
            ended => ended,
        }
    }

    /// Takes the failure of the last fetch.
    pub fn on_failure(self, error: RemoteCallError) -> (next: Self)
        ensures
            next@ == self@.after(error.answer()),
    {
        match self {
            Paginator::Fetching { .. } => Paginator::Failed { error },
            ended => ended,
        }
    }

    /// What the listing came to: every item in the order in which the remote
    /// returned it, or the failure that ended it. While fetches are still to
    /// be made there is no result.
    pub fn finish(self) -> (result: Option<Result<Vec<T>, RemoteCallError>>)
        ensures
            match self@ {
                Listing::Fetching { .. } => result is None,
                Listing::Complete { items } => result matches Some(Ok(all)) && all@ == items,
                Listing::Failed { message } => result matches Some(Err(error)) && error.message@
                    == message,
            },
    {
        match self {
            Paginator::Fetching { .. } => None,
            Paginator::Complete { items } => Some(Ok(items)),
            Paginator::Failed { error } => Some(Err(error)),
        }
    }
}

} // verus!
