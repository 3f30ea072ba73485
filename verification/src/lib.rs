//! Garbage collection of unreferenced text and vector index segments in search
//! storage.
//!
//! Every text and vector index segment lives in a deployment's search storage
//! and is referenced by object key from the index's metadata document in the
//! `_index` system table. Flushes and compactions upload new segments and then
//! commit a new `_index` revision that points at them; the segments they replace
//! are not deleted. The collector reverses that from the metadata side:
//!
//! 1. A scan builds a keep set of every string that appears in any `_index`
//!    revision the database still retains ([`keep_set`], [`value`]).
//! 2. Of the objects that storage lists, those absent from the keep set and older
//!    than a minimum age are orphans ([`orphans`]).
//! 3. A round deletes orphans up to a cap, unless the keep set protects none of
//!    the listed objects or an index build was already running ([`round`],
//!    [`builds`]).
//!
//! The library decides and counts; reading the database, listing storage and
//! deleting from it are the caller's. What holds of a round as a whole is stated
//! and proved in [`laws`].
//!
//! The collector assumes that its deployment is the only writer of its search
//! storage. Two deployments that share one would each take the other's segments
//! for orphans.

pub mod builds;
pub mod config;
pub mod digest;
pub mod keep_set;
pub mod laws;
pub mod listing;
pub mod metrics;
pub mod orphans;
pub mod round;
pub mod seqs;
pub mod string_set;
pub mod text;
pub mod time;
pub mod value;
