//! Verified core of a capital-market surveillance platform: query-context
//! resolution and manipulation heuristics, case management, entity-graph
//! query building, regulatory report assembly, notification texts, the
//! dashboard's state store, trade aggregation and UPSI window checks.
use vstd::prelude::*;

pub mod text;
pub mod json;
pub mod listing;
pub mod anomaly;
pub mod dashboard;
pub mod cases;
pub mod entities;
pub mod reports;
pub mod slack;
pub mod trades;
pub mod upsi;
pub mod counter;
pub mod webserver;

verus! {
} // verus!
