//! The task scheduler of a search service with many indexes.
//!
//! Clients enqueue tasks: imports and deletions of documents, changes of
//! settings, the creation, update, deletion and swap of indexes, the
//! cancellation and deletion of tasks, dump exports and snapshots. The
//! scheduler stores them, fuses enqueued tasks into batches, and records
//! what came of each batch.
//!
//! - [`tasks`]: the tasks and what they are made of.
//! - [`bitmap`]: the sets of task ids, kept in roaring bitmaps.
//! - [`queue`]: the task store, with its tables by status, kind and index.
//! - [`query`] and [`top`]: listings of tasks, the greatest uids first.
//! - [`autobatcher`] and [`batch`]: which tasks run together, and what a
//!   fused batch owes the scheduler.
//! - [`scheduler`]: registration, listings, and the two halves of a tick.
//! - [`index_mapper`]: which indexes exist.
//! - [`dump`], [`duration`], [`routes`], [`error`]: tasks in dumps, the
//!   time a task took, what the routes decide, and the errors.

pub mod autobatcher;
pub mod batch;
pub mod bitmap;
pub mod dump;
pub mod duration;
pub mod error;
pub mod index_mapper;
pub mod query;
pub mod queue;
pub mod routes;
pub mod scheduler;
pub mod tasks;
pub mod text;
pub mod top;
