//! Star-history tracking: ingestion of paginated stargazer events,
//! idempotent in-memory persistence, job lifecycle tracking, and
//! derivation of position / speed / acceleration time series.

pub mod chart;
pub mod daily_graph;
pub mod dates;
pub mod host;
pub mod jobs;
pub mod page;
pub mod series;
pub mod store;
pub mod sync;
pub mod text;
