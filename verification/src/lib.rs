//! Verified core of a sports-statistics selection wizard.
//!
//! The library models a stepwise selection workflow (sport, competition,
//! season, statistic kind, result count) against a remote sports-data API:
//! the domain value types, the allow-list filters, the per-competitor
//! statistics merge, the ranking of players, and the session state machine.
//! All network and terminal I/O stays outside the library; callers hand the
//! fetched payloads in as plain values.

pub mod aggregate;
pub mod domain;
pub mod filter;
pub mod rank;
pub mod responses;
pub mod services;
pub mod state;
pub mod text;
pub mod urls;

pub use domain::Competition;
pub use domain::CompetitionSeason;
pub use domain::Country;
pub use domain::Player;
pub use domain::PlayerStatistics;
pub use domain::Players;
pub use domain::Sport;
pub use domain::SportEvent;
pub use domain::Team;
