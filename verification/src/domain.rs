//! Domain value types of the wizard: sports, competitions, seasons, teams,
//! players and their statistics, together with their mathematical views.

use crate::services::BaseInfoService;
use crate::services::CompetitorsService;
use crate::services::ConstructService;
use crate::services::CountryService;
use crate::services::IdService;
use crate::services::PlayerSeasonStatisticsService;
use crate::services::PlayerService;
use crate::services::PlayerStatisticsService;
use crate::services::SeasonService;
use crate::text::lower_of;
use crate::text::lowercase;
use vstd::prelude::*;
use vstd::string::StringExecFns;

verus! {

/// Per-call snapshot of a player's statistics: assists and goals scored.
///
/// The same shape also carries the accumulated season totals; accumulation
/// clamps at the `u8` maximum instead of overflowing.
#[derive(Clone, Copy, PartialEq, Eq, Structural, Debug)]
pub struct PlayerStatistics {
    pub assists: u8,
    pub goals_scored: u8,
}

/// Statistics totals add componentwise, clamped at the `u8` maximum.
pub open spec fn spec_saturating_add_stats(
    a: PlayerStatistics,
    b: PlayerStatistics,
) -> PlayerStatistics {
    PlayerStatistics {
        assists: if a.assists + b.assists > 255 {
            255u8
        } else {
            (a.assists + b.assists) as u8
        },
        goals_scored: if a.goals_scored + b.goals_scored > 255 {
            255u8
        } else {
            (a.goals_scored + b.goals_scored) as u8
        },
    }
}

impl PlayerStatistics {
    /// Componentwise addition, clamped at the `u8` maximum.
    pub fn saturating_add(self, other: PlayerStatistics) -> (r: PlayerStatistics)
        ensures
            r == spec_saturating_add_stats(self, other),
    {
        let assists: u8 = if self.assists > 255 - other.assists {
            255
        } else {
            self.assists + other.assists
        };
        let goals_scored: u8 = if self.goals_scored > 255 - other.goals_scored {
            255
        } else {
            self.goals_scored + other.goals_scored
        };
        PlayerStatistics { assists, goals_scored }
    }
}

/// Mathematical image of a [`Country`]: its identifier and name as
/// character sequences.
#[verifier::ext_equal]
pub ghost struct CountryView {
    pub id: Seq<char>,
    pub name: Seq<char>,
}

/// The country a competition belongs to.
pub struct Country {
    pub id: String,
    pub name: String,
}

impl View for Country {
    type V = CountryView;

    open spec fn view(&self) -> CountryView {
        CountryView { id: self.id@, name: self.name@ }
    }
}

impl DeepView for Country {
    type V = CountryView;

    open spec fn deep_view(&self) -> CountryView {
        self.view()
    }
}

impl Clone for Country {
    fn clone(&self) -> (r: Self)
        ensures
            r@ == self@,
    {
        Country { id: self.id.clone(), name: self.name.clone() }
    }
}

impl PartialEq for Country {
    fn eq(&self, other: &Self) -> (r: bool) {
        self.id == other.id && self.name == other.name
    }
}

impl vstd::std_specs::cmp::PartialEqSpecImpl for Country {
    open spec fn obeys_eq_spec() -> bool {
        true
    }

    open spec fn eq_spec(&self, other: &Self) -> bool {
        self@ == other@
    }
}

/// Mathematical image of a [`Sport`]: its identifier and its name as it
/// arrived from the catalog, before lower-casing.
#[verifier::ext_equal]
pub ghost struct SportView {
    pub id: Seq<char>,
    pub name: Seq<char>,
}

/// A sport of the catalog. Its canonical name, used in URL segments, is the
/// lower-cased form of the catalog name.
pub struct Sport {
    pub id: String,
    pub name: String,
}

impl View for Sport {
    type V = SportView;

    open spec fn view(&self) -> SportView {
        SportView { id: self.id@, name: self.name@ }
    }
}

impl DeepView for Sport {
    type V = SportView;

    open spec fn deep_view(&self) -> SportView {
        self.view()
    }
}

impl Clone for Sport {
    fn clone(&self) -> (r: Self)
        ensures
            r@ == self@,
    {
        Sport { id: self.id.clone(), name: self.name.clone() }
    }
}

impl PartialEq for Sport {
    fn eq(&self, other: &Self) -> (r: bool) {
        self.id == other.id && self.name == other.name
    }
}

impl vstd::std_specs::cmp::PartialEqSpecImpl for Sport {
    open spec fn obeys_eq_spec() -> bool {
        true
    }

    open spec fn eq_spec(&self, other: &Self) -> bool {
        self@ == other@
    }
}

/// Mathematical image of a [`Team`].
#[verifier::ext_equal]
pub ghost struct TeamView {
    pub id: Seq<char>,
    pub name: Seq<char>,
}

/// A competitor taking part in the events of a season. Its identity is the
/// pair of identifier and name.
pub struct Team {
    pub id: String,
    pub name: String,
}

impl View for Team {
    type V = TeamView;

    open spec fn view(&self) -> TeamView {
        TeamView { id: self.id@, name: self.name@ }
    }
}

impl DeepView for Team {
    type V = TeamView;

    open spec fn deep_view(&self) -> TeamView {
        self.view()
    }
}

impl Clone for Team {
    fn clone(&self) -> (r: Self)
        ensures
            r@ == self@,
    {
        Team { id: self.id.clone(), name: self.name.clone() }
    }
}

impl PartialEq for Team {
    fn eq(&self, other: &Self) -> (r: bool) {
        self.id == other.id && self.name == other.name
    }
}

impl vstd::std_specs::cmp::PartialEqSpecImpl for Team {
    open spec fn obeys_eq_spec() -> bool {
        true
    }

    open spec fn eq_spec(&self, other: &Self) -> bool {
        self@ == other@
    }
}

impl Default for Team {
    /// The placeholder competitor a player carries until a statistics record
    /// assigns the real one.
    fn default() -> (r: Self)
        ensures
            r@.id.len() == 0,
            r@.name.len() == 0,
    {
        Team { id: String::new(), name: String::new() }
    }
}

/// Mathematical image of a [`Competition`].
#[verifier::ext_equal]
pub ghost struct CompetitionView {
    pub id: Seq<char>,
    pub name: Seq<char>,
    pub country: CountryView,
}

/// A competition of a sport, together with the country it belongs to.
pub struct Competition {
    pub id: String,
    pub name: String,
    pub country: Country,
}

impl View for Competition {
    type V = CompetitionView;

    open spec fn view(&self) -> CompetitionView {
        CompetitionView { id: self.id@, name: self.name@, country: self.country@ }
    }
}

impl DeepView for Competition {
    type V = CompetitionView;

    open spec fn deep_view(&self) -> CompetitionView {
        self.view()
    }
}

impl Clone for Competition {
    fn clone(&self) -> (r: Self)
        ensures
            r@ == self@,
    {
        Competition { id: self.id.clone(), name: self.name.clone(), country: self.country.clone() }
    }
}

impl Competition {
    /// The wording under which the competition is offered for selection: its
    /// name with its country in parentheses.
    pub fn display_label(&self) -> (r: String)
        ensures
            r@ == self@.name + " ("@ + self@.country.name + ")"@,
    {
        let mut r = self.name.clone();
        r.append(" (");
        r.append(self.country.name.as_str());
        r.append(")");
        r
    }
}

impl PartialEq for Competition {
    fn eq(&self, other: &Self) -> (r: bool) {
        self.id == other.id && self.name == other.name && self.country == other.country
    }
}

impl vstd::std_specs::cmp::PartialEqSpecImpl for Competition {
    open spec fn obeys_eq_spec() -> bool {
        true
    }

    open spec fn eq_spec(&self, other: &Self) -> bool {
        self@ == other@
    }
}

/// Mathematical image of a [`CompetitionSeason`].
#[verifier::ext_equal]
pub ghost struct CompetitionSeasonView {
    pub id: Seq<char>,
    pub name: Seq<char>,
    pub disabled: bool,
}

/// A season of a competition; an administratively disabled season is kept out
/// of every selection list.
pub struct CompetitionSeason {
    pub id: String,
    pub name: String,
    pub disabled: bool,
}

impl View for CompetitionSeason {
    type V = CompetitionSeasonView;

    open spec fn view(&self) -> CompetitionSeasonView {
        CompetitionSeasonView { id: self.id@, name: self.name@, disabled: self.disabled }
    }
}

impl DeepView for CompetitionSeason {
    type V = CompetitionSeasonView;

    open spec fn deep_view(&self) -> CompetitionSeasonView {
        self.view()
    }
}

impl Clone for CompetitionSeason {
    fn clone(&self) -> (r: Self)
        ensures
            r@ == self@,
    {
        CompetitionSeason { id: self.id.clone(), name: self.name.clone(), disabled: self.disabled }
    }
}

impl PartialEq for CompetitionSeason {
    fn eq(&self, other: &Self) -> (r: bool) {
        self.id == other.id && self.name == other.name && self.disabled == other.disabled
    }
}

impl vstd::std_specs::cmp::PartialEqSpecImpl for CompetitionSeason {
    open spec fn obeys_eq_spec() -> bool {
        true
    }

    open spec fn eq_spec(&self, other: &Self) -> bool {
        self@ == other@
    }
}

/// Mathematical image of a [`SportEvent`]: its identifier and the images of
/// its competitors.
#[verifier::ext_equal]
pub ghost struct SportEventView {
    pub id: Seq<char>,
    pub competitors: Seq<TeamView>,
}

/// One scheduled event of a season; only its competitor list is consumed.
pub struct SportEvent {
    id: String,
    competitors: Vec<Team>,
}

impl View for SportEvent {
    type V = SportEventView;

    closed spec fn view(&self) -> SportEventView {
        SportEventView { id: self.id@, competitors: self.competitors.deep_view() }
    }
}

impl DeepView for SportEvent {
    type V = SportEventView;

    open spec fn deep_view(&self) -> SportEventView {
        self.view()
    }
}

/// Decides whether two competitor lists agree element for element.
fn teams_equal(a: &Vec<Team>, b: &Vec<Team>) -> (r: bool)
    ensures
        r == (a.deep_view() == b.deep_view()),
{
    if a.len() != b.len() {
        proof {
            assert(a.deep_view().len() != b.deep_view().len());
        }
        return false;
    }
    let mut i: usize = 0;
    while i < a.len()
        invariant
            0 <= i <= a.len(),
            a.len() == b.len(),
            forall|j: int| 0 <= j < i ==> a.deep_view()[j] == b.deep_view()[j],
        decreases a.len() - i,
    {
        if !(a[i] == b[i]) {
            proof {
                assert(a.deep_view()[i as int] != b.deep_view()[i as int]);
            }
            return false;
        }
        i = i + 1;
    }
    proof {
        assert(a.deep_view() =~= b.deep_view());
    }
    true
}

impl Clone for SportEvent {
    fn clone(&self) -> (r: Self)
        ensures
            r@ == self@,
    {
        let r = SportEvent { id: self.id.clone(), competitors: self.competitors.clone() };
        proof {
            assert forall|i: int| 0 <= i < self.competitors.len() implies r.competitors.deep_view()[i]
                == self.competitors.deep_view()[i] by {}
            assert(r.competitors.deep_view() =~= self.competitors.deep_view());
            assert(r@ =~= self@);
        }
        r
    }
}

impl PartialEq for SportEvent {
    fn eq(&self, other: &Self) -> (r: bool) {
        self.id == other.id && teams_equal(&self.competitors, &other.competitors)
    }
}

impl vstd::std_specs::cmp::PartialEqSpecImpl for SportEvent {
    open spec fn obeys_eq_spec() -> bool {
        true
    }

    open spec fn eq_spec(&self, other: &Self) -> bool {
        self@ == other@
    }
}

impl SportEvent {
    /// Builds an event from its identifier and its competitor list.
    pub fn new(id: String, competitors: Vec<Team>) -> (r: Self)
        ensures
            r@.id == id@,
            r@.competitors == competitors.deep_view(),
    {
        SportEvent { id, competitors }
    }
}

/// Mathematical image of a [`Player`].
#[verifier::ext_equal]
pub ghost struct PlayerView {
    pub id: Seq<char>,
    pub name: Seq<char>,
    pub statistics: PlayerStatistics,
    pub season_statistics: PlayerStatistics,
    pub team: TeamView,
}

/// A player as one statistics record reports it, together with the season
/// totals accumulated over all records that mention the same identifier.
pub struct Player {
    pub id: String,
    pub name: String,
    pub statistics: PlayerStatistics,
    pub season_statistics: PlayerStatistics,
    pub team: Team,
}

impl View for Player {
    type V = PlayerView;

    open spec fn view(&self) -> PlayerView {
        PlayerView {
            id: self.id@,
            name: self.name@,
            statistics: self.statistics,
            season_statistics: self.season_statistics,
            team: self.team@,
        }
    }
}

impl DeepView for Player {
    type V = PlayerView;

    open spec fn deep_view(&self) -> PlayerView {
        self.view()
    }
}

impl Clone for Player {
    fn clone(&self) -> (r: Self)
        ensures
            r@ == self@,
    {
        Player {
            id: self.id.clone(),
            name: self.name.clone(),
            statistics: self.statistics,
            season_statistics: self.season_statistics,
            team: self.team.clone(),
        }
    }
}

impl Player {
    /// Builds a player from one statistics record; the team placeholder
    /// stands until a record assigns the competitor.
    pub fn new(
        id: String,
        name: String,
        statistics: PlayerStatistics,
        season_statistics: PlayerStatistics,
    ) -> (r: Self)
        ensures
            r@.id == id@,
            r@.name == name@,
            r@.statistics == statistics,
            r@.season_statistics == season_statistics,
    {
        Player { id, name, statistics, season_statistics, team: Team::default() }
    }

    /// The competitor this player was last reported for.
    pub fn team(&self) -> (r: &Team)
        ensures
            r@ == self@.team,
    {
        &self.team
    }
}

impl PartialEq for Player {
    fn eq(&self, other: &Self) -> (r: bool) {
        self.id == other.id && self.name == other.name && self.statistics == other.statistics
            && self.season_statistics == other.season_statistics && self.team == other.team
    }
}

impl vstd::std_specs::cmp::PartialEqSpecImpl for Player {
    open spec fn obeys_eq_spec() -> bool {
        true
    }

    open spec fn eq_spec(&self, other: &Self) -> bool {
        self@ == other@
    }
}

impl Player {
    /// The wording under which the player is shown: the name with the
    /// assigned competitor in parentheses.
    pub fn display_label(&self) -> (r: String)
        ensures
            r@ == self@.name + " ("@ + self@.team.name + ")"@,
    {
        let mut r = self.name.clone();
        r.append(" (");
        r.append(self.team.name.as_str());
        r.append(")");
        r
    }

    /// Assigns the competitor the player was reported for, leaving every
    /// other field alone.
    pub fn assign_team(&mut self, team: &Team)
        ensures
            final(self)@ == (PlayerView { team: team@, ..old(self)@ }),
    {
        self.team = team.clone();
    }

    /// Rewrites the player as one statistics record directs: name and
    /// competitor come from the record, and the record's per-call snapshot is
    /// added to the season totals. Identifier and stored snapshot stay.
    pub fn absorb_record(&mut self, record: &Player)
        ensures
            final(self)@ == (PlayerView {
                name: record@.name,
                team: record@.team,
                season_statistics: spec_saturating_add_stats(
                    old(self)@.season_statistics,
                    record@.statistics,
                ),
                ..old(self)@
            }),
    {
        self.name = record.name.clone();
        self.team = record.team.clone();
        self.season_statistics = self.season_statistics.saturating_add(record.statistics);
    }
}

impl BaseInfoService for Sport {
    open spec fn spec_id(&self) -> Seq<char> {
        self@.id
    }

    /// A sport's canonical name is the lower-cased catalog name, the form the
    /// URL segments use.
    open spec fn spec_name(&self) -> Seq<char> {
        lower_of(self@.name)
    }

    fn id(&self) -> (r: String) {
        self.id.clone()
    }

    fn name(&self) -> (r: String) {
        lowercase(self.name.as_str())
    }
}

impl ConstructService for Sport {
    open spec fn constructed_from(&self, id: Seq<char>, name: Seq<char>) -> bool {
        self@.id == id && self@.name == name
    }

    fn construct(id: String, name: String) -> (r: Self) {
        Sport { id, name }
    }
}

impl BaseInfoService for Country {
    open spec fn spec_id(&self) -> Seq<char> {
        self@.id
    }

    open spec fn spec_name(&self) -> Seq<char> {
        self@.name
    }

    fn id(&self) -> (r: String) {
        self.id.clone()
    }

    fn name(&self) -> (r: String) {
        self.name.clone()
    }
}

impl BaseInfoService for Competition {
    open spec fn spec_id(&self) -> Seq<char> {
        self@.id
    }

    open spec fn spec_name(&self) -> Seq<char> {
        self@.name
    }

    fn id(&self) -> (r: String) {
        self.id.clone()
    }

    fn name(&self) -> (r: String) {
        self.name.clone()
    }
}

impl CountryService for Competition {
    open spec fn spec_country_name(&self) -> Seq<char> {
        self@.country.name
    }

    fn country_name(&self) -> (r: String) {
        self.country.name.clone()
    }
}

impl BaseInfoService for CompetitionSeason {
    open spec fn spec_id(&self) -> Seq<char> {
        self@.id
    }

    open spec fn spec_name(&self) -> Seq<char> {
        self@.name
    }

    fn id(&self) -> (r: String) {
        self.id.clone()
    }

    fn name(&self) -> (r: String) {
        self.name.clone()
    }
}

impl SeasonService for CompetitionSeason {
    open spec fn spec_enabled(&self) -> bool {
        !self@.disabled
    }

    fn is_enabled(&self) -> (r: bool) {
        !self.disabled
    }
}

impl BaseInfoService for Team {
    open spec fn spec_id(&self) -> Seq<char> {
        self@.id
    }

    open spec fn spec_name(&self) -> Seq<char> {
        self@.name
    }

    fn id(&self) -> (r: String) {
        self.id.clone()
    }

    fn name(&self) -> (r: String) {
        self.name.clone()
    }
}

impl ConstructService for Team {
    open spec fn constructed_from(&self, id: Seq<char>, name: Seq<char>) -> bool {
        self@.id == id && self@.name == name
    }

    fn construct(id: String, name: String) -> (r: Self) {
        Team { id, name }
    }
}

impl IdService for SportEvent {
    open spec fn spec_event_id(&self) -> Seq<char> {
        self@.id
    }

    fn id(&self) -> (r: String) {
        self.id.clone()
    }
}

impl CompetitorsService for SportEvent {
    open spec fn spec_competitors(&self) -> Seq<TeamView> {
        self@.competitors
    }

    fn competitors(&self) -> (r: Vec<Team>) {
        let r = self.competitors.clone();
        proof {
            assert forall|i: int| 0 <= i < self.competitors.len() implies r.deep_view()[i]
                == self.competitors.deep_view()[i] by {}
            assert(r.deep_view() =~= self.competitors.deep_view());
        }
        r
    }
}

impl BaseInfoService for Player {
    open spec fn spec_id(&self) -> Seq<char> {
        self@.id
    }

    open spec fn spec_name(&self) -> Seq<char> {
        self@.name
    }

    fn id(&self) -> (r: String) {
        self.id.clone()
    }

    fn name(&self) -> (r: String) {
        self.name.clone()
    }
}

impl PlayerStatisticsService for Player {
    open spec fn spec_goals(&self) -> u8 {
        self@.statistics.goals_scored
    }

    open spec fn spec_assists(&self) -> u8 {
        self@.statistics.assists
    }

    fn goals(&self) -> (r: u8) {
        self.statistics.goals_scored
    }

    fn assists(&self) -> (r: u8) {
        self.statistics.assists
    }
}

impl PlayerSeasonStatisticsService for Player {
    open spec fn spec_season_statistics(&self) -> PlayerStatistics {
        self@.season_statistics
    }

    fn season_goals(&self) -> (r: u8) {
        self.season_statistics.goals_scored
    }

    fn season_assists(&self) -> (r: u8) {
        self.season_statistics.assists
    }

    fn update_season_statistics(&mut self, other: &Self) {
        self.season_statistics = self.season_statistics.saturating_add(other.statistics);
    }
}

impl PlayerService for Player {
    open spec fn has_team(&self, team: TeamView) -> bool {
        self@.team == team
    }

    fn set_team(&mut self, team: &Team) {
        self.team = team.clone();
    }
}

impl PlayerStatisticsService for PlayerStatistics {
    open spec fn spec_goals(&self) -> u8 {
        self.goals_scored
    }

    open spec fn spec_assists(&self) -> u8 {
        self.assists
    }

    fn goals(&self) -> (r: u8) {
        self.goals_scored
    }

    fn assists(&self) -> (r: u8) {
        self.assists
    }
}

/// The two statistic kinds a ranking can be asked for.
#[derive(Clone, Copy, PartialEq, Eq, Structural, Debug)]
pub enum Players {
    TopGoalScorers,
    TopAssistants,
}

impl Players {
    /// The wording under which the statistic kind is offered for selection.
    pub fn label(&self) -> (r: String)
        ensures
            *self is TopGoalScorers ==> r@ == "Top Goal Scorers"@,
            *self is TopAssistants ==> r@ == "Top Assistants"@,
    {
        match self {
            Players::TopGoalScorers => String::from_str("Top Goal Scorers"),
            Players::TopAssistants => String::from_str("Top Assistants"),
        }
    }
}

} // verus!
