//! Extraction of log events from a remote log service into a local
//! relational store, for the log groups and the time window of a run.
//!
//! This library is the part of the pipeline that decides: which log groups
//! a run selects, which page a listing fetches next and what it adds up to,
//! which statements store a batch of events and when a transaction is
//! committed, how many tasks run at a time, and in which order a run goes
//! from connecting to deduplicating. It makes no remote call and holds no
//! connection. Each of its machines says what is to be done next and takes
//! what came of it; the program around the library does the calls.
//!
//! - [`selector`]: the log groups that a request selects.
//! - [`paginator`]: a cursor-paginated listing, driven to completion.
//! - [`aws`]: what is asked of the remote service.
//! - [`db`]: the schema, the rows and the transactions of the store.
//! - [`pool`]: the bound on concurrent tasks.
//! - [`task`]: the work on one log group, fetching and then storing.
//! - [`orchestrator`]: a run from its first step to its exit.
//! - [`config`]: the settings of a run, and the time window they ask for.
//! - [`window`], [`utilities`], [`models`]: instants, dates, and the values
//!   that travel through the pipeline.

pub mod aws;
pub mod config;
pub mod db;
pub mod models;
pub mod orchestrator;
pub mod paginator;
pub mod pool;
pub mod selector;
pub mod task;
pub mod utilities;
pub mod window;
