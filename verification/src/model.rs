//! The statistics that the Headroom proxy reports on its `/stats` endpoint.

use vstd::prelude::*;
use crate::counts::CountTable;
use crate::json::Json;

verus! {

/// Request counters, overall and per model.
#[derive(Debug)]
pub struct RequestStats {
    pub total: u64,
    pub cached: u64,
    pub failed: u64,
    pub rate_limited: u64,
    pub by_model: CountTable,
}

/// Token counters. The savings percentage is a floating-point figure that
/// the library carries, as its IEEE-754 bit pattern, without reading it.
#[derive(Debug)]
pub struct TokenStats {
    pub input: u64,
    pub output: u64,
    pub saved: u64,
    pub savings_percent_bits: u64,
}

/// Optimisation overhead in milliseconds: floating-point figures carried as
/// their IEEE-754 bit patterns.
#[derive(Debug)]
pub struct LatencyStats {
    pub average_ms_bits: u64,
    pub min_ms_bits: u64,
    pub max_ms_bits: u64,
}

/// How often the content router took each route.
#[derive(Debug)]
pub struct RouterStats {
    pub route_counts: CountTable,
}

/// One report of the proxy's statistics.
#[derive(Debug)]
pub struct StatsResponse {
    pub requests: RequestStats,
    pub tokens: TokenStats,
    pub overhead: LatencyStats,
    pub prefix_cache: Json,
    pub router: RouterStats,
    pub toin: Json,
    pub compressions_by_strategy: CountTable,
    pub tokens_saved_by_strategy: CountTable,
    pub cost: Json,
}

} // verus!
