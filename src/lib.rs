//! Parsing of the plain-text winds aloft bulletin into per-station wind records,
//! and the policy that decides when a held forecast is stale.

pub mod forecast;
pub mod report;
pub mod station;
pub mod text;
pub mod wind;

pub use forecast::WindsAloftForecast;
pub use report::winds_from_body;
pub use station::{StationForecast, StationRecord};
pub use wind::{parse_wind, Wind};
