//! A macro-timing engine: it records timed key transitions, keeps several
//! takes of one sequence, fuses them into a single timing profile, and
//! schedules the replay of a timeline with offsets and cancellation.
//!
//! Listening for keys, injecting them, threads and files are the caller's
//! part; every decision in between is taken here.

pub mod aggregate;
pub mod aggregate_laws;
pub mod bucket;
pub mod bucket_sums;
pub mod keys;
pub mod keytable;
pub mod macro_play;
pub mod names;
pub mod natural;
pub mod persist;
pub mod plan;
pub mod recorder;
pub mod schema;
pub mod session;
pub mod sorting;
pub mod state;
pub mod tags;
