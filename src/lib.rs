//! A journal of timed activities: a versioned store of events, categories,
//! tags and daily notes, the intents that change it, and the read-only
//! dashboard that filters and totals its events.
use vstd::prelude::*;

pub mod time;
pub mod date;
pub mod store;
pub mod schema;
pub mod delta;
pub mod filter;
pub mod names;
pub mod aggregate;
pub mod dashboard;
pub mod commands;
pub mod timeline;

verus! {

} // verus!
