//! Capability interfaces of the domain: identity, naming, country, season
//! enablement, competitor lists, construction, and player statistics. Each
//! entity implements the subset it needs.

use crate::domain::PlayerStatistics;
use crate::domain::Team;
use crate::domain::TeamView;
use crate::domain::spec_saturating_add_stats;
use vstd::prelude::*;

verus! {

/// Identity and canonical naming of an entity.
pub trait BaseInfoService: Sized {
    /// The characters of the entity's identifier.
    spec fn spec_id(&self) -> Seq<char>;

    /// The characters of the entity's canonical name.
    spec fn spec_name(&self) -> Seq<char>;

    /// The entity's identifier.
    fn id(&self) -> (r: String)
        ensures
            r@ == self.spec_id(),
    ;

    /// The entity's canonical name.
    fn name(&self) -> (r: String)
        ensures
            r@ == self.spec_name(),
    ;
}

/// Identity alone, for entities whose name is never consumed.
pub trait IdService: Sized {
    /// The characters of the entity's identifier.
    spec fn spec_event_id(&self) -> Seq<char>;

    /// The entity's identifier.
    fn id(&self) -> (r: String)
        ensures
            r@ == self.spec_event_id(),
    ;
}

/// The country an entity belongs to.
pub trait CountryService: Sized {
    /// The characters of the country's name.
    spec fn spec_country_name(&self) -> Seq<char>;

    /// The name of the entity's country.
    fn country_name(&self) -> (r: String)
        ensures
            r@ == self.spec_country_name(),
    ;
}

/// Administrative enablement of a season.
pub trait SeasonService: Sized {
    /// Whether the season is enabled.
    spec fn spec_enabled(&self) -> bool;

    /// Whether the season may be offered for selection.
    fn is_enabled(&self) -> (r: bool)
        ensures
            r == self.spec_enabled(),
    ;
}

/// The competitor list of an entity.
pub trait CompetitorsService: Sized {
    /// The images of the entity's competitors, in order.
    spec fn spec_competitors(&self) -> Seq<TeamView>;

    /// The entity's competitors.
    fn competitors(&self) -> (r: Vec<Team>)
        ensures
            r.deep_view() == self.spec_competitors(),
    ;
}

/// Construction of an entity from a bare identifier and name pair.
pub trait ConstructService: Sized {
    /// Whether the entity carries exactly this identifier and name.
    spec fn constructed_from(&self, id: Seq<char>, name: Seq<char>) -> bool;

    /// Builds the entity from an identifier and a name.
    fn construct(id: String, name: String) -> (r: Self)
        ensures
            r.constructed_from(id@, name@),
    ;
}

/// Per-call statistics of an entity.
pub trait PlayerStatisticsService: Sized {
    /// The goals of the per-call snapshot.
    spec fn spec_goals(&self) -> u8;

    /// The assists of the per-call snapshot.
    spec fn spec_assists(&self) -> u8;

    /// Goals scored in the snapshot.
    fn goals(&self) -> (r: u8)
        ensures
            r == self.spec_goals(),
    ;

    /// Assists given in the snapshot.
    fn assists(&self) -> (r: u8)
        ensures
            r == self.spec_assists(),
    ;
}

/// Accumulated season statistics of a player.
pub trait PlayerSeasonStatisticsService: PlayerStatisticsService {
    /// The accumulated season totals.
    spec fn spec_season_statistics(&self) -> PlayerStatistics;

    /// Goals accumulated over the season.
    fn season_goals(&self) -> (r: u8)
        ensures
            r == self.spec_season_statistics().goals_scored,
    ;

    /// Assists accumulated over the season.
    fn season_assists(&self) -> (r: u8)
        ensures
            r == self.spec_season_statistics().assists,
    ;

    /// Adds the other player's per-call snapshot to these season totals,
    /// clamped at the `u8` maximum.
    fn update_season_statistics(&mut self, other: &Self)
        ensures
            final(self).spec_season_statistics() == spec_saturating_add_stats(
                old(self).spec_season_statistics(),
                PlayerStatistics { assists: other.spec_assists(), goals_scored: other.spec_goals() },
            ),
    ;
}

/// Assignment of a competitor to a player.
pub trait PlayerService: Sized {
    /// Whether the player carries this competitor.
    spec fn has_team(&self, team: TeamView) -> bool;

    /// Assigns the competitor the player was reported for.
    fn set_team(&mut self, team: &Team)
        ensures
            final(self).has_team(team@),
    ;
}

} // verus!
