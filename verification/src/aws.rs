//! What the pipeline asks of the remote log service.

use vstd::prelude::*;
use crate::config::AppConfig;
use crate::models::{LogGroup, SavedLogEvent, optional_text};
use crate::paginator::{Listing, Page, Paginator, RemoteCallError};

verus! {

/// The regions that the remote service is known to have.
pub const AWS_REGIONS: [&'static str; 26] = [
    "us-east-1",
    "us-east-2",
    "us-west-1",
    "us-west-2",
    "af-south-1",
    "ap-east-1",
    "ap-south-1",
    "ap-south-2",
    "ap-southeast-1",
    "ap-southeast-2",
    "ap-southeast-3",
    "ap-northeast-1",
    "ap-northeast-2",
    "ap-northeast-3",
    "ca-central-1",
    "eu-central-1",
    "eu-central-2",
    "eu-west-1",
    "eu-west-2",
    "eu-west-3",
    "eu-south-1",
    "eu-south-2",
    "eu-north-1",
    "me-central-1",
    "me-south-1",
    "sa-east-1",
];

/// Whether `name` is the name of a known region.
pub open spec fn is_known_region(name: Seq<char>) -> bool {
    exists|i: int| 0 <= i < AWS_REGIONS@.len() && (#[trigger] AWS_REGIONS@[i])@ == name
}

/// Looks `input` up among the known regions.
pub fn find_region(input: &str) -> (found: Option<&'static str>)
    ensures
        match found {
            Some(region) => region@ == input@ && is_known_region(input@),
            None => !is_known_region(input@),
        },
{
    let wanted = String::from_str(input);
    let mut i: usize = 0;
    while i < 26
        invariant
            i <= 26,
            wanted@ == input@,
            forall|j: int| 0 <= j < i ==> (#[trigger] AWS_REGIONS@[j])@ != input@,
        decreases 26 - i,
    {
        let region: &'static str = AWS_REGIONS[i];
        if String::from_str(region) == wanted {
            return Some(region);
        }
        i = i + 1;
    }
    None
}

/// What is handed to the remote service's configuration loader.
#[derive(Debug, Clone, PartialEq, Eq)]
pub struct LoaderSettings {
    pub profile_name: Option<String>,
    pub region: Option<String>,
}

/// The settings for the remote service's configuration loader: the named
/// profile and the region of the run, each handed on as it is. Whether the
/// region exists is left to the remote service.
pub fn build_config(app_config: &AppConfig) -> (settings: LoaderSettings)
    ensures
        optional_text(settings.profile_name) == optional_text(app_config.profile),
        optional_text(settings.region) == optional_text(app_config.region),
{
    LoaderSettings { profile_name: app_config.profile.clone(), region: app_config.region.clone() }
}

/// The listing of all log groups of the remote service, of which nothing
/// was fetched yet.
pub fn get_log_groups() -> (groups: Paginator<LogGroup>)
    ensures
        groups@ == Listing::<LogGroup>::start(),
{
    Paginator::new()
}

/// One fetch of the events of a log group within a closed interval of
/// time, both ends in milliseconds since the first of January 1970.
#[derive(Debug, Clone, PartialEq, Eq)]
pub struct EventQuery {
    pub log_group_name: String,
    pub start_time: i64,
    pub end_time: i64,
    pub next_token: Option<String>,
}

/// An event query, as plain data.
pub struct EventQueryText {
    pub log_group_name: Seq<char>,
    pub start_time: int,
    pub end_time: int,
    pub next_token: Option<Seq<char>>,
}

impl View for EventQuery {
    type V = EventQueryText;

    open spec fn view(&self) -> EventQueryText {
        EventQueryText {
            log_group_name: self.log_group_name@,
            start_time: self.start_time as int,
            end_time: self.end_time as int,
            next_token: optional_text(self.next_token),
        }
    }
}

/// The listing of the events of one log group within an interval of time,
/// as plain data.
pub struct EventListing {
    pub log_group_name: Seq<char>,
    pub start_time: int,
    pub end_time: int,
    pub listing: Listing<SavedLogEvent>,
}

impl EventListing {
    /// The fetch that is due: for the group and the interval of the listing,
    /// with the cursor that the last page named. None is due once the
    /// listing has ended.
    pub open spec fn due(self) -> Option<EventQueryText> {
        match self.listing {
            Listing::Fetching { cursor, .. } => Some(
                EventQueryText {
                    log_group_name: self.log_group_name,
                    start_time: self.start_time,
                    end_time: self.end_time,
                    next_token: cursor,
                },
            ),
            _ => None,
        }
    }

    /// The same listing with its pages in another state.
    pub open spec fn with(self, listing: Listing<SavedLogEvent>) -> EventListing {
        EventListing { listing, ..self }
    }
}

/// The listing of the events of one log group within an interval of time.
/// The events come in the order in which the remote returns them, neither
/// sorted nor filtered.
#[derive(Debug)]
pub struct EventFetcher {
    log_group_name: String,
    start_time: i64,
    end_time: i64,
    pages: Paginator<SavedLogEvent>,
}

impl View for EventFetcher {
    type V = EventListing;

    closed spec fn view(&self) -> EventListing {
        EventListing {
            log_group_name: self.log_group_name@,
            start_time: self.start_time as int,
            end_time: self.end_time as int,
            listing: self.pages@,
        }
    }
}

/// The listing of the events of `log_group_name` between `start_time` and
/// `end_time`, of which nothing was fetched yet.
pub fn fetch_logs(log_group_name: &str, start_time: i64, end_time: i64) -> (fetcher: EventFetcher)
    ensures
        fetcher@ == (EventListing {
            log_group_name: log_group_name@,
            start_time: start_time as int,
            end_time: end_time as int,
            listing: Listing::start(),
        }),
{
    EventFetcher {
        log_group_name: String::from_str(log_group_name),
        start_time,
        end_time,
        pages: Paginator::new(),
    }
}

impl EventFetcher {
    /// The fetch to make next, if one is due.
    pub fn next_query(&self) -> (query: Option<EventQuery>)
        ensures
            match query {
                Some(due) => self@.due() == Some(due@),
                None => self@.due() is None,
            },
    {
        if self.pages.is_fetching() {
            Some(
                EventQuery {
                    log_group_name: self.log_group_name.clone(),
                    start_time: self.start_time,
                    end_time: self.end_time,
                    next_token: self.pages.cursor(),
                },
            )
        } else {
            None
        }
    }

    /// The name of the log group whose events are listed.
    pub fn group_name(&self) -> (name: String)
        ensures
            name@ == self@.log_group_name,
    {
        self.log_group_name.clone()
    }

    /// Whether another fetch is to be made.
    pub fn is_fetching(&self) -> (fetching: bool)
        ensures
            fetching == (self@.listing is Fetching),
    {
        self.pages.is_fetching()
    }

    /// Takes the page that answered the last fetch.
    pub fn on_page(self, page: Page<SavedLogEvent>) -> (next: EventFetcher)
        ensures
            next@ == self@.with(self@.listing.after(page.answer())),
    {
        EventFetcher {
            log_group_name: self.log_group_name,
            start_time: self.start_time,
            end_time: self.end_time,
            pages: self.pages.on_page(page),
        }
    }

    /// Takes the failure of the last fetch.
    pub fn on_failure(self, error: RemoteCallError) -> (next: EventFetcher)
        ensures
            next@ == self@.with(self@.listing.after(error.answer())),
    {
        EventFetcher {
            log_group_name: self.log_group_name,
            start_time: self.start_time,
            end_time: self.end_time,
            pages: self.pages.on_failure(error),
        }
    }

    /// What the listing came to: the events in the order in which the
    /// remote returned them, or the failure that ended it, unchanged. While
    /// fetches are still to be made there is no result.
    pub fn finish(self) -> (result: Option<Result<Vec<SavedLogEvent>, RemoteCallError>>)
        ensures
            match self@.listing {
                Listing::Fetching { .. } => result is None,
                Listing::Complete { items } => result matches Some(Ok(events)) && events@ == items,
                Listing::Failed { message } => result matches Some(Err(error)) && error.message@
                    == message,
            },
    {
        self.pages.finish()
    }
}

} // verus!
