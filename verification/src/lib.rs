//! Verified core of a terminal dashboard for the Headroom token-optimisation
//! proxy: the statistics model, the JSON paths it reads, the figures each
//! panel shows, number formatting and the state of the running dashboard.

pub mod text;
pub mod digits;
pub mod json;
pub mod counts;
pub mod pricing;
pub mod model;
pub mod dashboard;
pub mod state;
pub mod endpoint;
