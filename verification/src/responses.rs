//! The shapes in which the remote API answers: competition lists, season
//! lists, schedules, and per-competitor statistics. Callers decode the wire
//! payloads outside the library and hand them in as these plain values.

use crate::domain::Competition;
use crate::domain::CompetitionSeason;
use crate::domain::Player;
use crate::domain::PlayerView;
use crate::domain::SportEvent;
use crate::domain::SportEventView;
use vstd::prelude::*;

verus! {

/// Answer to the competitions endpoint: the competitions of a sport.
pub struct CompetitionsApiResponse {
    pub competitions: Vec<Competition>,
}

/// Answer to the seasons endpoint: the seasons of a competition.
pub struct CompetitionSeasonsApiResponse {
    pub seasons: Vec<CompetitionSeason>,
}

/// One schedule entry; only its event is consumed.
pub struct Schedule {
    pub sport_event: SportEvent,
}

impl View for Schedule {
    type V = SportEventView;

    open spec fn view(&self) -> SportEventView {
        self.sport_event@
    }
}

impl DeepView for Schedule {
    type V = SportEventView;

    open spec fn deep_view(&self) -> SportEventView {
        self.view()
    }
}

/// Answer to the schedules endpoint: the events of a season.
pub struct SchedulesApiResponse {
    pub schedules: Vec<Schedule>,
}

impl View for SchedulesApiResponse {
    type V = Seq<SportEventView>;

    open spec fn view(&self) -> Seq<SportEventView> {
        self.schedules.deep_view()
    }
}

/// Mathematical image of a [`Competitor`] record: its identity and the
/// players it reports.
#[verifier::ext_equal]
pub ghost struct CompetitorView {
    pub id: Seq<char>,
    pub name: Seq<char>,
    pub players: Seq<PlayerView>,
}

/// The competitor block of a statistics answer: the competitor's own
/// identity, authoritative for the record, and its players.
pub struct Competitor {
    pub id: String,
    pub name: String,
    pub players: Vec<Player>,
}

impl View for Competitor {
    type V = CompetitorView;

    open spec fn view(&self) -> CompetitorView {
        CompetitorView { id: self.id@, name: self.name@, players: self.players.deep_view() }
    }
}

impl DeepView for Competitor {
    type V = CompetitorView;

    open spec fn deep_view(&self) -> CompetitorView {
        self.view()
    }
}

/// Answer to the statistics endpoint for one competitor of a season.
pub struct CompetitorStatisticsApiResponse {
    pub competitor: Competitor,
}

impl View for CompetitorStatisticsApiResponse {
    type V = CompetitorView;

    open spec fn view(&self) -> CompetitorView {
        self.competitor@
    }
}

} // verus!
