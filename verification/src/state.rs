//! The selection state machine: the session state the wizard mutates in
//! place, its reset, and the transitions that store each step's fetched and
//! filtered data. Fetching itself happens outside the library; each
//! transition takes the fetched payload as a value.

use crate::aggregate::PlayerMap;
use crate::aggregate::spec_merge_outcomes;
use crate::aggregate::spec_outcome_views;
use crate::domain::Competition;
use crate::domain::CompetitionSeason;
use crate::domain::CompetitionSeasonView;
use crate::domain::CompetitionView;
use crate::domain::Player;
use crate::domain::PlayerView;
use crate::domain::Players;
use crate::domain::Sport;
use crate::domain::SportEvent;
use crate::domain::SportEventView;
use crate::domain::SportView;
use crate::domain::Team;
use crate::domain::TeamView;
use crate::filter::filter_and_sort_seasons;
use crate::filter::filter_competitions;
use crate::filter::spec_competition_allowed;
use crate::filter::spec_filter_and_sort_seasons;
use crate::rank::spec_top_by_metric;
use crate::rank::top_by_metric;
use crate::responses::CompetitionSeasonsApiResponse;
use crate::responses::CompetitionsApiResponse;
use crate::responses::CompetitorStatisticsApiResponse;
use crate::responses::SchedulesApiResponse;
use crate::services::CompetitorsService;
use crate::services::ConstructService;
use crate::text::lower_of;
use crate::urls::ApiConfig;
use crate::urls::get_api_url;
use crate::urls::schedules_endpoint;
use crate::urls::seasons_endpoint;
use crate::urls::spec_api_url;
use crate::urls::statistics_endpoint;
use vstd::prelude::*;
use vstd::string::StringExecFns;

verus! {

/// The state the wizard stands in, read off the session state: how far the
/// fixed selection order has advanced. Each state names what has been chosen;
/// `LimitChosen` means every selection is made and the ranking can be shown.
#[derive(Clone, Copy, PartialEq, Eq, Structural, Debug)]
pub enum WizardStep {
    NoSport,
    SportChosen,
    CompetitionChosen,
    SeasonChosen,
    StatKindChosen,
    LimitChosen,
}

/// A precondition violation: a step was run without its required prior
/// selection. Such a flow error fails fast and changes nothing.
#[derive(Clone, Copy, PartialEq, Eq, Structural, Debug)]
pub enum AppError {
    MissingSport,
    MissingCompetition,
    MissingSeason,
}

impl AppError {
    /// The wording of the flow error.
    pub fn message(&self) -> (r: String)
        ensures
            *self is MissingSport ==> r@ == "no sport has been selected"@,
            *self is MissingCompetition ==> r@ == "no competition has been selected"@,
            *self is MissingSeason ==> r@ == "no season has been selected"@,
    {
        match self {
            AppError::MissingSport => String::from_str("no sport has been selected"),
            AppError::MissingCompetition => String::from_str("no competition has been selected"),
            AppError::MissingSeason => String::from_str("no season has been selected"),
        }
    }
}

/// Mathematical image of the session state.
#[verifier::ext_equal]
pub ghost struct AppStateView {
    pub sports: Seq<SportView>,
    pub selected_sport: Option<SportView>,
    pub competitions: Seq<CompetitionView>,
    pub selected_competition: Option<CompetitionView>,
    pub seasons: Seq<CompetitionSeasonView>,
    pub selected_season: Option<CompetitionSeasonView>,
    pub sport_events: Seq<SportEventView>,
    pub competitors: Seq<TeamView>,
    pub players: Seq<PlayerView>,
    pub selected_player_statistics: Option<Players>,
    pub limit: Option<usize>,
}

/// The session state before anything was fetched or chosen.
pub open spec fn spec_initial_state() -> AppStateView {
    AppStateView {
        sports: Seq::empty(),
        selected_sport: None,
        competitions: Seq::empty(),
        selected_competition: None,
        seasons: Seq::empty(),
        selected_season: None,
        sport_events: Seq::empty(),
        competitors: Seq::empty(),
        players: Seq::empty(),
        selected_player_statistics: None,
        limit: None,
    }
}

/// The state the session stands in: how far the selections have advanced.
pub open spec fn spec_current_step(v: AppStateView) -> WizardStep {
    if v.selected_sport is None {
        WizardStep::NoSport
    } else if v.selected_competition is None {
        WizardStep::SportChosen
    } else if v.selected_season is None {
        WizardStep::CompetitionChosen
    } else if v.selected_player_statistics is None {
        WizardStep::SeasonChosen
    } else if v.limit is None {
        WizardStep::StatKindChosen
    } else {
        WizardStep::LimitChosen
    }
}

/// The count a ranking is truncated to: the chosen limit, or ten as the
/// safety net where the session was never asked.
pub open spec fn spec_effective_limit(limit: Option<usize>) -> int {
    match limit {
        Some(n) => n as int,
        None => 10,
    }
}

/// The session state of the wizard, created once at startup and mutated in
/// place until `reset` clears everything but the sport catalog.
pub struct AppState {
    sports: Vec<Sport>,
    selected_sport: Option<Sport>,
    competitions: Vec<Competition>,
    selected_competition: Option<Competition>,
    seasons: Vec<CompetitionSeason>,
    selected_season: Option<CompetitionSeason>,
    sport_events: Vec<SportEvent>,
    competitors: Vec<Team>,
    players: PlayerMap,
    selected_player_statistics: Option<Players>,
    limit: Option<usize>,
}

impl View for AppState {
    type V = AppStateView;

    closed spec fn view(&self) -> AppStateView {
        AppStateView {
            sports: self.sports.deep_view(),
            selected_sport: match self.selected_sport {
                Some(s) => Some(s@),
                None => None,
            },
            competitions: self.competitions.deep_view(),
            selected_competition: match self.selected_competition {
                Some(c) => Some(c@),
                None => None,
            },
            seasons: self.seasons.deep_view(),
            selected_season: match self.selected_season {
                Some(s) => Some(s@),
                None => None,
            },
            sport_events: self.sport_events.deep_view(),
            competitors: self.competitors.deep_view(),
            players: self.players@,
            selected_player_statistics: self.selected_player_statistics,
            limit: self.limit,
        }
    }
}

impl AppState {
    /// The fresh session state: nothing fetched, nothing chosen.
    pub fn new() -> (r: AppState)
        ensures
            r@ == spec_initial_state(),
    {
        let r = AppState {
            sports: Vec::new(),
            selected_sport: None,
            competitions: Vec::new(),
            selected_competition: None,
            seasons: Vec::new(),
            selected_season: None,
            sport_events: Vec::new(),
            competitors: Vec::new(),
            players: PlayerMap::new(),
            selected_player_statistics: None,
            limit: None,
        };
        proof {
            assert(r@ =~~= spec_initial_state());
        }
        r
    }

    /// The step the wizard stands at.
    pub fn current_step(&self) -> (r: WizardStep)
        ensures
            r == spec_current_step(self@),
    {
        if self.selected_sport.is_none() {
            WizardStep::NoSport
        } else if self.selected_competition.is_none() {
            WizardStep::SportChosen
        } else if self.selected_season.is_none() {
            WizardStep::CompetitionChosen
        } else if self.selected_player_statistics.is_none() {
            WizardStep::SeasonChosen
        } else if self.limit.is_none() {
            WizardStep::StatKindChosen
        } else {
            WizardStep::LimitChosen
        }
    }

    /// The fetched sport catalog.
    pub fn sports(&self) -> (r: Vec<Sport>)
        ensures
            r.deep_view() == self@.sports,
    {
        let r = self.sports.clone();
        proof {
            assert forall|i: int| 0 <= i < self.sports.len() implies r.deep_view()[i]
                == self.sports.deep_view()[i] by {}
            assert(r.deep_view() =~= self.sports.deep_view());
        }
        r
    }

    /// Stores the fetched sport catalog.
    pub fn set_sports(&mut self, sports: Vec<Sport>)
        ensures
            final(self)@ == (AppStateView { sports: sports.deep_view(), ..old(self)@ }),
    {
        self.sports = sports;
        proof {
            assert(self@ =~~= (AppStateView { sports: self.sports.deep_view(), ..old(self)@ }));
        }
    }

    /// The chosen sport, if one was chosen.
    pub fn selected_sport(&self) -> (r: Option<Sport>)
        ensures
            match r {
                Some(s) => self@.selected_sport == Some(s@),
                None => self@.selected_sport is None,
            },
    {
        match &self.selected_sport {
            Some(s) => Some(s.clone()),
            None => None,
        }
    }

    /// Chooses the sport.
    pub fn set_selected_sport(&mut self, sport: &Sport)
        ensures
            final(self)@ == (AppStateView { selected_sport: Some(sport@), ..old(self)@ }),
    {
        self.selected_sport = Some(sport.clone());
        proof {
            assert(self@ =~~= (AppStateView { selected_sport: Some(sport@), ..old(self)@ }));
        }
    }

    /// The filtered competitions of the chosen sport.
    pub fn competitions(&self) -> (r: Vec<Competition>)
        ensures
            r.deep_view() == self@.competitions,
    {
        let r = self.competitions.clone();
        proof {
            assert forall|i: int| 0 <= i < self.competitions.len() implies r.deep_view()[i]
                == self.competitions.deep_view()[i] by {}
            assert(r.deep_view() =~= self.competitions.deep_view());
        }
        r
    }

    /// Stores the filtered competitions.
    pub fn set_competitions(&mut self, competitions: Vec<Competition>)
        ensures
            final(self)@ == (AppStateView { competitions: competitions.deep_view(), ..old(self)@ }),
    {
        self.competitions = competitions;
        proof {
            assert(self@ =~~= (AppStateView {
                competitions: self.competitions.deep_view(),
                ..old(self)@
            }));
        }
    }

    /// The chosen competition, if one was chosen.
    pub fn selected_competition(&self) -> (r: Option<Competition>)
        ensures
            match r {
                Some(c) => self@.selected_competition == Some(c@),
                None => self@.selected_competition is None,
            },
    {
        match &self.selected_competition {
            Some(c) => Some(c.clone()),
            None => None,
        }
    }

    /// Chooses the competition.
    pub fn set_selected_competition(&mut self, competition: &Competition)
        ensures
            final(self)@ == (AppStateView {
                selected_competition: Some(competition@),
                ..old(self)@
            }),
    {
        self.selected_competition = Some(competition.clone());
        proof {
            assert(self@ =~~= (AppStateView {
                selected_competition: Some(competition@),
                ..old(self)@
            }));
        }
    }

    /// The filtered, sorted seasons of the chosen competition.
    pub fn seasons(&self) -> (r: Vec<CompetitionSeason>)
        ensures
            r.deep_view() == self@.seasons,
    {
        let r = self.seasons.clone();
        proof {
            assert forall|i: int| 0 <= i < self.seasons.len() implies r.deep_view()[i]
                == self.seasons.deep_view()[i] by {}
            assert(r.deep_view() =~= self.seasons.deep_view());
        }
        r
    }

    /// Stores the filtered, sorted seasons.
    pub fn set_seasons(&mut self, seasons: Vec<CompetitionSeason>)
        ensures
            final(self)@ == (AppStateView { seasons: seasons.deep_view(), ..old(self)@ }),
    {
        self.seasons = seasons;
        proof {
            assert(self@ =~~= (AppStateView { seasons: self.seasons.deep_view(), ..old(self)@ }));
        }
    }

    /// The chosen season, if one was chosen.
    pub fn selected_season(&self) -> (r: Option<CompetitionSeason>)
        ensures
            match r {
                Some(s) => self@.selected_season == Some(s@),
                None => self@.selected_season is None,
            },
    {
        match &self.selected_season {
            Some(s) => Some(s.clone()),
            None => None,
        }
    }

    /// Chooses the season.
    pub fn set_selected_season(&mut self, season: CompetitionSeason)
        ensures
            final(self)@ == (AppStateView { selected_season: Some(season@), ..old(self)@ }),
    {
        let ghost v = season@;
        self.selected_season = Some(season);
        proof {
            assert(self@ =~~= (AppStateView { selected_season: Some(v), ..old(self)@ }));
        }
    }

    /// The events of the chosen season.
    pub fn sport_events(&self) -> (r: Vec<SportEvent>)
        ensures
            r.deep_view() == self@.sport_events,
    {
        let r = self.sport_events.clone();
        proof {
            assert forall|i: int| 0 <= i < self.sport_events.len() implies r.deep_view()[i]
                == self.sport_events.deep_view()[i] by {}
            assert(r.deep_view() =~= self.sport_events.deep_view());
        }
        r
    }

    /// Stores the events of the chosen season.
    pub fn set_sport_events(&mut self, sport_events: Vec<SportEvent>)
        ensures
            final(self)@ == (AppStateView { sport_events: sport_events.deep_view(), ..old(self)@ }),
    {
        self.sport_events = sport_events;
        proof {
            assert(self@ =~~= (AppStateView {
                sport_events: self.sport_events.deep_view(),
                ..old(self)@
            }));
        }
    }

    /// The competitors derived from the events.
    pub fn competitors(&self) -> (r: Vec<Team>)
        ensures
            r.deep_view() == self@.competitors,
    {
        let r = self.competitors.clone();
        proof {
            assert forall|i: int| 0 <= i < self.competitors.len() implies r.deep_view()[i]
                == self.competitors.deep_view()[i] by {}
            assert(r.deep_view() =~= self.competitors.deep_view());
        }
        r
    }

    /// Stores the derived competitors.
    pub fn set_competitors(&mut self, competitors: Vec<Team>)
        ensures
            final(self)@ == (AppStateView { competitors: competitors.deep_view(), ..old(self)@ }),
    {
        self.competitors = competitors;
        proof {
            assert(self@ =~~= (AppStateView {
                competitors: self.competitors.deep_view(),
                ..old(self)@
            }));
        }
    }

    /// The accumulated player map.
    pub fn players(&self) -> (r: PlayerMap)
        ensures
            r@ == self@.players,
    {
        self.players.clone()
    }

    /// Stores the accumulated player map.
    pub fn set_players(&mut self, players: PlayerMap)
        ensures
            final(self)@ == (AppStateView { players: players@, ..old(self)@ }),
    {
        let ghost v = players@;
        self.players = players;
        proof {
            assert(self@ =~~= (AppStateView { players: v, ..old(self)@ }));
        }
    }

    /// The chosen statistic kind, if one was chosen.
    pub fn selected_player_statistics(&self) -> (r: Option<Players>)
        ensures
            r == self@.selected_player_statistics,
    {
        self.selected_player_statistics
    }

    /// Chooses the statistic kind.
    pub fn set_selected_player_statistics(&mut self, players: Players)
        ensures
            final(self)@ == (AppStateView {
                selected_player_statistics: Some(players),
                ..old(self)@
            }),
    {
        self.selected_player_statistics = Some(players);
        proof {
            assert(self@ =~~= (AppStateView {
                selected_player_statistics: Some(players),
                ..old(self)@
            }));
        }
    }

    /// The chosen result count, if one was chosen.
    pub fn limit(&self) -> (r: Option<usize>)
        ensures
            r == self@.limit,
    {
        self.limit
    }

    /// Chooses the result count.
    pub fn set_limit(&mut self, limit: usize)
        ensures
            final(self)@ == (AppStateView { limit: Some(limit), ..old(self)@ }),
    {
        self.limit = Some(limit);
        proof {
            assert(self@ =~~= (AppStateView { limit: Some(limit), ..old(self)@ }));
        }
    }

    /// Clears every session field except the sport catalog, which is stable
    /// for the process lifetime, and returns the wizard to its first step.
    pub fn reset(&mut self)
        ensures
            final(self)@ == (AppStateView { sports: old(self)@.sports, ..spec_initial_state() }),
            spec_current_step(final(self)@) == WizardStep::NoSport,
    {
        self.selected_sport = None;
        self.competitions = Vec::new();
        self.selected_competition = None;
        self.seasons = Vec::new();
        self.selected_season = None;
        self.sport_events = Vec::new();
        self.competitors = Vec::new();
        self.players = PlayerMap::new();
        self.selected_player_statistics = None;
        self.limit = None;
        proof {
            assert(self@ =~~= (AppStateView {
                sports: old(self)@.sports,
                ..spec_initial_state()
            }));
        }
    }
}

/// Whether a sequence holds no two equal entries: the set shape of the
/// fetched collections.
pub open spec fn spec_distinct<T>(s: Seq<T>) -> bool {
    forall|i: int, j: int| 0 <= i < j < s.len() ==> s[i] != s[j]
}

/// The competitors of a season: those of all its events, in order of
/// appearance and with repetitions.
pub open spec fn spec_event_teams(events: Seq<SportEventView>) -> Seq<TeamView>
    decreases events.len(),
{
    if events.len() == 0 {
        Seq::empty()
    } else {
        spec_event_teams(events.drop_last()) + events.last().competitors
    }
}

/// A team appears among a season's competitors exactly when some event lists
/// it.
pub proof fn lemma_event_teams_member(events: Seq<SportEventView>, t: TeamView)
    ensures
        spec_event_teams(events).contains(t) <==> exists|k: int|
            0 <= k < events.len() && (#[trigger] events[k]).competitors.contains(t),
    decreases events.len(),
{
    if events.len() > 0 {
        let rest = events.drop_last();
        let last = events.last();
        lemma_event_teams_member(rest, t);
        let flat = spec_event_teams(events);
        if flat.contains(t) {
            let k = choose|k: int| 0 <= k < flat.len() && flat[k] == t;
            if k < spec_event_teams(rest).len() {
                assert(spec_event_teams(rest).contains(t));
                let m = choose|m: int|
                    0 <= m < rest.len() && (#[trigger] rest[m]).competitors.contains(t);
                assert(events[m].competitors.contains(t));
            } else {
                assert(last.competitors[k - spec_event_teams(rest).len()] == t);
                assert(events[events.len() - 1].competitors.contains(t));
            }
        }
        if exists|k: int| 0 <= k < events.len() && (#[trigger] events[k]).competitors.contains(t) {
            let k = choose|k: int|
                0 <= k < events.len() && (#[trigger] events[k]).competitors.contains(t);
            if k < events.len() - 1 {
                assert(rest[k].competitors.contains(t));
                assert(spec_event_teams(rest).contains(t));
                let m = choose|m: int|
                    0 <= m < spec_event_teams(rest).len() && spec_event_teams(rest)[m] == t;
                assert(flat[m] == t);
            } else {
                let m = choose|m: int|
                    0 <= m < last.competitors.len() && last.competitors[m] == t;
                assert(flat[spec_event_teams(rest).len() + m] == t);
            }
        }
    }
}

/// Decides whether the vector already holds an event equal to this one.
fn events_contain(v: &Vec<SportEvent>, e: &SportEvent) -> (r: bool)
    ensures
        r == v.deep_view().contains(e@),
{
    let mut i: usize = 0;
    while i < v.len()
        invariant
            0 <= i <= v.len(),
            forall|j: int| 0 <= j < i ==> v.deep_view()[j] != e@,
        decreases v.len() - i,
    {
        if v[i] == *e {
            assert(v.deep_view()[i as int] == e@);
            return true;
        }
        i = i + 1;
    }
    false
}

/// Decides whether the vector already holds a team equal to this one.
fn teams_contain(v: &Vec<Team>, t: &Team) -> (r: bool)
    ensures
        r == v.deep_view().contains(t@),
{
    let mut i: usize = 0;
    while i < v.len()
        invariant
            0 <= i <= v.len(),
            forall|j: int| 0 <= j < i ==> v.deep_view()[j] != t@,
        decreases v.len() - i,
    {
        if v[i] == *t {
            assert(v.deep_view()[i as int] == t@);
            return true;
        }
        i = i + 1;
    }
    false
}

/// Keeps each distinct event of the schedules once, in order of first
/// appearance.
fn dedup_events(response: &SchedulesApiResponse) -> (r: Vec<SportEvent>)
    ensures
        forall|ev: SportEventView| #[trigger] r.deep_view().contains(ev) <==> response@.contains(ev),
        spec_distinct(r.deep_view()),
{
    let mut out: Vec<SportEvent> = Vec::new();
    let mut i: usize = 0;
    while i < response.schedules.len()
        invariant
            0 <= i <= response.schedules.len(),
            forall|ev: SportEventView| #[trigger]
                out.deep_view().contains(ev) <==> response@.take(i as int).contains(ev),
            spec_distinct(out.deep_view()),
        decreases response.schedules.len() - i,
    {
        let ghost taken = response@.take(i as int);
        let ghost extended = response@.take(i + 1);
        let ghost taken_out = out.deep_view();
        let cand = &response.schedules[i].sport_event;
        proof {
            assert(response@[i as int] == cand@);
        }
        if !events_contain(&out, cand) {
            let ghost before = out.deep_view();
            out.push(cand.clone());
            proof {
                assert(out.deep_view() =~= before.push(cand@));
            }
        }
        proof {
            let now = out.deep_view();
            assert forall|ev: SportEventView| #[trigger] now.contains(ev) implies extended.contains(
                ev,
            ) by {
                let k = choose|k: int| 0 <= k < now.len() && now[k] == ev;
                if k < taken_out.len() {
                    assert(taken_out[k] == ev);
                    assert(taken_out.contains(ev));
                    let m = choose|m: int| 0 <= m < taken.len() && taken[m] == ev;
                    assert(extended[m] == ev);
                } else {
                    assert(ev == cand@);
                    assert(extended[i as int] == ev);
                }
            }
            assert forall|ev: SportEventView| extended.contains(ev) implies #[trigger] now.contains(
                ev,
            ) by {
                let k = choose|k: int| 0 <= k < extended.len() && extended[k] == ev;
                if k < i {
                    assert(taken[k] == ev);
                    assert(taken.contains(ev));
                    assert(taken_out.contains(ev));
                    let m = choose|m: int| 0 <= m < taken_out.len() && taken_out[m] == ev;
                    assert(now[m] == ev);
                } else {
                    assert(ev == cand@);
                    if now.len() > taken_out.len() {
                        assert(now[now.len() - 1] == ev);
                    }
                }
            }
        }
        i = i + 1;
    }
    proof {
        assert(response@.take(response.schedules.len() as int) =~= response@);
    }
    out
}

/// Gathers the competitors of all events, in order and with repetitions.
fn gather_event_teams(response: &SchedulesApiResponse) -> (r: Vec<Team>)
    ensures
        r.deep_view() == spec_event_teams(response@),
{
    let mut all: Vec<Team> = Vec::new();
    let mut i: usize = 0;
    while i < response.schedules.len()
        invariant
            0 <= i <= response.schedules.len(),
            all.deep_view() == spec_event_teams(response@.take(i as int)),
        decreases response.schedules.len() - i,
    {
        let ghost taken = response@.take(i as int);
        let ghost extended = response@.take(i + 1);
        proof {
            assert(extended.drop_last() =~= taken);
            assert(extended.last() == response@[i as int]);
        }
        let ghost before = all.deep_view();
        let mut teams = response.schedules[i].sport_event.competitors();
        let ghost teams_v = teams.deep_view();
        all.append(&mut teams);
        proof {
            assert(response@[i as int] == response.schedules[i as int].sport_event@);
            assert(all.deep_view() =~= before + teams_v);
        }
        i = i + 1;
    }
    proof {
        assert(response@.take(response.schedules.len() as int) =~= response@);
    }
    all
}

/// Keeps each distinct team once, in order of first appearance.
fn dedup_teams(all: &Vec<Team>) -> (r: Vec<Team>)
    ensures
        forall|t: TeamView| #[trigger] r.deep_view().contains(t) <==> all.deep_view().contains(t),
        spec_distinct(r.deep_view()),
{
    let mut out: Vec<Team> = Vec::new();
    let mut i: usize = 0;
    while i < all.len()
        invariant
            0 <= i <= all.len(),
            forall|t: TeamView| #[trigger]
                out.deep_view().contains(t) <==> all.deep_view().take(i as int).contains(t),
            spec_distinct(out.deep_view()),
        decreases all.len() - i,
    {
        let ghost taken = all.deep_view().take(i as int);
        let ghost extended = all.deep_view().take(i + 1);
        let ghost taken_out = out.deep_view();
        let cand = &all[i];
        proof {
            assert(all.deep_view()[i as int] == cand@);
        }
        if !teams_contain(&out, cand) {
            let ghost before = out.deep_view();
            out.push(cand.clone());
            proof {
                assert(out.deep_view() =~= before.push(cand@));
            }
        }
        proof {
            let now = out.deep_view();
            assert forall|t: TeamView| #[trigger] now.contains(t) implies extended.contains(t) by {
                let k = choose|k: int| 0 <= k < now.len() && now[k] == t;
                if k < taken_out.len() {
                    assert(taken_out[k] == t);
                    assert(taken_out.contains(t));
                    let m = choose|m: int| 0 <= m < taken.len() && taken[m] == t;
                    assert(extended[m] == t);
                } else {
                    assert(t == cand@);
                    assert(extended[i as int] == t);
                }
            }
            assert forall|t: TeamView| extended.contains(t) implies #[trigger] now.contains(t) by {
                let k = choose|k: int| 0 <= k < extended.len() && extended[k] == t;
                if k < i {
                    assert(taken[k] == t);
                    assert(taken.contains(t));
                    assert(taken_out.contains(t));
                    let m = choose|m: int| 0 <= m < taken_out.len() && taken_out[m] == t;
                    assert(now[m] == t);
                } else {
                    assert(t == cand@);
                    if now.len() > taken_out.len() {
                        assert(now[now.len() - 1] == t);
                    }
                }
            }
        }
        i = i + 1;
    }
    proof {
        assert(all.deep_view().take(all.len() as int) =~= all.deep_view());
    }
    out
}

impl AppState {
    /// Fetches the sport catalog: in this deployment the catalog is the one
    /// configured sport, constructed once; a non-empty catalog is returned
    /// unchanged.
    pub fn on_start(&mut self) -> (r: Vec<Sport>)
        ensures
            old(self)@.sports.len() == 0 ==> final(self)@ == (AppStateView {
                sports: seq![SportView { id: "sr:sport:1"@, name: "Soccer"@ }],
                ..old(self)@
            }),
            old(self)@.sports.len() > 0 ==> final(self)@ == old(self)@,
            r.deep_view() == final(self)@.sports,
    {
        if self.sports.is_empty() {
            let sport = Sport::construct(
                String::from_str("sr:sport:1"),
                String::from_str("Soccer"),
            );
            let ghost sport_v = sport@;
            let mut catalog: Vec<Sport> = Vec::new();
            catalog.push(sport);
            proof {
                assert(catalog.deep_view() =~= seq![sport_v]);
                assert(sport_v =~= (SportView { id: "sr:sport:1"@, name: "Soccer"@ }));
            }
            self.set_sports(catalog);
        }
        self.sports()
    }

    /// The URL of the competitions endpoint for the chosen sport; a flow
    /// error when no sport has been chosen.
    pub fn competitions_url(&self, config: &ApiConfig) -> (r: Result<String, AppError>)
        ensures
            match r {
                Ok(url) => self@.selected_sport matches Some(s) && url@ == spec_api_url(
                    config@,
                    lower_of(s.name),
                    "competitions"@,
                ),
                Err(e) => self@.selected_sport is None && e == AppError::MissingSport,
            },
    {
        match &self.selected_sport {
            Some(sport) => Ok(get_api_url(config, sport, "competitions")),
            None => Err(AppError::MissingSport),
        }
    }

    /// The URL of the seasons endpoint for the chosen competition; a flow
    /// error when no sport or no competition has been chosen.
    pub fn seasons_url(&self, config: &ApiConfig) -> (r: Result<String, AppError>)
        ensures
            match r {
                Ok(url) => self@.selected_sport matches Some(s)
                    && self@.selected_competition matches Some(c) && url@ == spec_api_url(
                    config@,
                    lower_of(s.name),
                    "competitions/"@ + c.id + "/seasons"@,
                ),
                Err(e) => (e == AppError::MissingSport && self@.selected_sport is None) || (e
                    == AppError::MissingCompetition && self@.selected_sport is Some
                    && self@.selected_competition is None),
            },
    {
        match &self.selected_sport {
            Some(sport) => match &self.selected_competition {
                Some(competition) => {
                    let endpoint = seasons_endpoint(&competition.id);
                    Ok(get_api_url(config, sport, endpoint.as_str()))
                },
                None => Err(AppError::MissingCompetition),
            },
            None => Err(AppError::MissingSport),
        }
    }

    /// The URL of the schedules endpoint for the chosen season; a flow error
    /// when no sport or no season has been chosen.
    pub fn schedules_url(&self, config: &ApiConfig) -> (r: Result<String, AppError>)
        ensures
            match r {
                Ok(url) => self@.selected_sport matches Some(s)
                    && self@.selected_season matches Some(season) && url@ == spec_api_url(
                    config@,
                    lower_of(s.name),
                    "seasons/"@ + season.id + "/schedules"@,
                ),
                Err(e) => (e == AppError::MissingSport && self@.selected_sport is None) || (e
                    == AppError::MissingSeason && self@.selected_sport is Some
                    && self@.selected_season is None),
            },
    {
        match &self.selected_sport {
            Some(sport) => match &self.selected_season {
                Some(season) => {
                    let endpoint = schedules_endpoint(&season.id);
                    Ok(get_api_url(config, sport, endpoint.as_str()))
                },
                None => Err(AppError::MissingSeason),
            },
            None => Err(AppError::MissingSport),
        }
    }

    /// One statistics URL for every competitor of the chosen season, in the
    /// competitors' stored order; a flow error when no sport or no season has
    /// been chosen.
    pub fn competitors_api_urls(&self, config: &ApiConfig) -> (r: Result<Vec<String>, AppError>)
        ensures
            match r {
                Ok(urls) => self@.selected_sport matches Some(s)
                    && self@.selected_season matches Some(season) && urls.deep_view().len()
                    == self@.competitors.len() && (forall|i: int|
                    0 <= i < self@.competitors.len() ==> urls.deep_view()[i] == spec_api_url(
                        config@,
                        lower_of(s.name),
                        "seasons/"@ + season.id + "/competitors/"@
                            + (#[trigger] self@.competitors[i]).id + "/statistics"@,
                    )),
                Err(e) => (e == AppError::MissingSport && self@.selected_sport is None) || (e
                    == AppError::MissingSeason && self@.selected_sport is Some
                    && self@.selected_season is None),
            },
    {
        let sport = match &self.selected_sport {
            Some(sport) => sport,
            None => {
                return Err(AppError::MissingSport);
            },
        };
        let season = match &self.selected_season {
            Some(season) => season,
            None => {
                return Err(AppError::MissingSeason);
            },
        };
        let mut urls: Vec<String> = Vec::new();
        let mut i: usize = 0;
        while i < self.competitors.len()
            invariant
                0 <= i <= self.competitors.len(),
                urls.deep_view().len() == i,
                self@.selected_sport == Some(sport@),
                self@.selected_season == Some(season@),
                forall|j: int|
                    0 <= j < i ==> urls.deep_view()[j] == spec_api_url(
                        config@,
                        lower_of(sport@.name),
                        "seasons/"@ + season@.id + "/competitors/"@
                            + (#[trigger] self@.competitors[j]).id + "/statistics"@,
                    ),
            decreases self.competitors.len() - i,
        {
            let endpoint = statistics_endpoint(&season.id, &self.competitors[i].id);
            let url = get_api_url(config, sport, endpoint.as_str());
            let ghost before = urls.deep_view();
            urls.push(url);
            proof {
                assert(urls.deep_view() =~= before.push(urls.deep_view().last()));
                assert(self@.competitors[i as int] == self.competitors[i as int]@);
            }
            i = i + 1;
        }
        Ok(urls)
    }

    /// Stores the competitions of the fetched list that the allow-lists
    /// admit, each once; a flow error, changing nothing, when no sport has
    /// been chosen.
    pub fn on_sport_select(
        &mut self,
        response: &CompetitionsApiResponse,
        allowed_competitions: &Vec<String>,
        allowed_countries: &Vec<String>,
    ) -> (r: Result<(), AppError>)
        ensures
            match r {
                Ok(_) => old(self)@.selected_sport is Some && final(self)@ == (AppStateView {
                    competitions: final(self)@.competitions,
                    ..old(self)@
                }) && spec_distinct(final(self)@.competitions) && (forall|c: CompetitionView|
                    #[trigger] final(self)@.competitions.contains(c) <==> (
                    response.competitions.deep_view().contains(c) && spec_competition_allowed(
                        c,
                        allowed_competitions.deep_view(),
                        allowed_countries.deep_view(),
                    ))),
                Err(e) => e == AppError::MissingSport && old(self)@.selected_sport is None && final(self)@ == old(self)@,
            },
    {
        if self.selected_sport.is_none() {
            return Err(AppError::MissingSport);
        }
        let filtered = filter_competitions(
            &response.competitions,
            allowed_competitions,
            allowed_countries,
        );
        let ghost filtered_v = filtered.deep_view();
        self.competitions = filtered;
        proof {
            assert(self@ =~~= (AppStateView { competitions: filtered_v, ..old(self)@ }));
        }
        Ok(())
    }

    /// Stores the enabled seasons of the fetched list, sorted by name
    /// descending; a flow error, changing nothing, when no sport or no
    /// competition has been chosen.
    pub fn on_competition_select(&mut self, response: &CompetitionSeasonsApiResponse) -> (r: Result<
        (),
        AppError,
    >)
        ensures
            match r {
                Ok(_) => old(self)@.selected_sport is Some && old(self)@.selected_competition is Some && final(self)@ == (AppStateView {
                    seasons: spec_filter_and_sort_seasons(response.seasons.deep_view()),
                    ..old(self)@
                }),
                Err(e) => final(self)@ == old(self)@ && ((e == AppError::MissingSport && old(self)@.selected_sport is None) || (e == AppError::MissingCompetition && old(self)@.selected_sport is Some && old(self)@.selected_competition is None)),
            },
    {
        if self.selected_sport.is_none() {
            return Err(AppError::MissingSport);
        }
        if self.selected_competition.is_none() {
            return Err(AppError::MissingCompetition);
        }
        let sorted = filter_and_sort_seasons(&response.seasons);
        let ghost sorted_v = sorted.deep_view();
        self.seasons = sorted;
        proof {
            assert(self@ =~~= (AppStateView { seasons: sorted_v, ..old(self)@ }));
        }
        Ok(())
    }

    /// Stores the events of the fetched schedules, each distinct event once,
    /// and derives the competitors: each team of any event, once. A flow
    /// error, changing nothing, when no sport or no season has been chosen.
    pub fn on_season_select(&mut self, response: &SchedulesApiResponse) -> (r: Result<(), AppError>)
        ensures
            match r {
                Ok(_) => old(self)@.selected_sport is Some && old(self)@.selected_season is Some
                    && final(self)@ == (AppStateView {
                    sport_events: final(self)@.sport_events,
                    competitors: final(self)@.competitors,
                    ..old(self)@
                }) && spec_distinct(final(self)@.sport_events) && (forall|ev: SportEventView|
                    #[trigger] final(self)@.sport_events.contains(ev) <==> response@.contains(ev))
                    && spec_distinct(final(self)@.competitors) && (forall|t: TeamView| #[trigger]
                    final(self)@.competitors.contains(t) <==> spec_event_teams(
                    response@,
                ).contains(t)),
                Err(e) => final(self)@ == old(self)@ && ((e == AppError::MissingSport && old(self)@.selected_sport is None) || (e == AppError::MissingSeason && old(self)@.selected_sport is Some && old(self)@.selected_season is None)),
            },
    {
        if self.selected_sport.is_none() {
            return Err(AppError::MissingSport);
        }
        if self.selected_season.is_none() {
            return Err(AppError::MissingSeason);
        }
        let events = dedup_events(response);
        let all_teams = gather_event_teams(response);
        let competitors = dedup_teams(&all_teams);
        let ghost events_v = events.deep_view();
        let ghost competitors_v = competitors.deep_view();
        self.sport_events = events;
        self.competitors = competitors;
        proof {
            assert(self@ =~~= (AppStateView {
                sport_events: events_v,
                competitors: competitors_v,
                ..old(self)@
            }));
        }
        Ok(())
    }

    /// Stores the player map merged from the settled per-competitor fetch
    /// outcomes: successes accumulate, failures contribute nothing, and no
    /// error is propagated.
    pub fn on_statistics_fetched(
        &mut self,
        outcomes: &Vec<Result<CompetitorStatisticsApiResponse, String>>,
    )
        ensures
            final(self)@ == (AppStateView {
                players: spec_merge_outcomes(
                    Seq::<PlayerView>::empty(),
                    spec_outcome_views(outcomes@),
                ),
                ..old(self)@
            }),
    {
        let map = crate::aggregate::merge_statistics_outcomes(outcomes);
        let ghost map_v = map@;
        self.players = map;
        proof {
            assert(self@ =~~= (AppStateView { players: map_v, ..old(self)@ }));
        }
    }

    /// The top goal scorers: the accumulated players sorted by season goals
    /// descending, truncated to the chosen limit, or to ten where none was
    /// chosen.
    pub fn get_top_goal_scorers(&self) -> (r: Vec<Player>)
        ensures
            r.deep_view() == spec_top_by_metric(
                Players::TopGoalScorers,
                self@.players,
                spec_effective_limit(self@.limit),
            ),
    {
        let lim = match self.limit {
            Some(n) => n,
            None => 10,
        };
        top_by_metric(&self.players, Players::TopGoalScorers, lim)
    }

    /// The top assistants: the accumulated players sorted by season assists
    /// descending, truncated to the chosen limit, or to ten where none was
    /// chosen.
    pub fn get_top_assistants(&self) -> (r: Vec<Player>)
        ensures
            r.deep_view() == spec_top_by_metric(
                Players::TopAssistants,
                self@.players,
                spec_effective_limit(self@.limit),
            ),
    {
        let lim = match self.limit {
            Some(n) => n,
            None => 10,
        };
        top_by_metric(&self.players, Players::TopAssistants, lim)
    }
}

} // verus!
