use sportstats::domain::Competition;
use sportstats::domain::CompetitionSeason;
use sportstats::domain::Country;
use sportstats::domain::Player;
use sportstats::domain::PlayerStatistics;
use sportstats::domain::Players;
use sportstats::domain::Sport;
use sportstats::responses::Competitor;
use sportstats::responses::CompetitionSeasonsApiResponse;
use sportstats::responses::CompetitionsApiResponse;
use sportstats::responses::CompetitorStatisticsApiResponse;
use sportstats::responses::SchedulesApiResponse;
use sportstats::state::AppError;
use sportstats::state::AppState;
use sportstats::state::WizardStep;

fn competition(id: &str, name: &str, country: &str) -> Competition {
    Competition {
        id: id.to_string(),
        name: name.to_string(),
        country: Country { id: format!("cat-{}", country), name: country.to_string() },
    }
}

fn season(id: &str, name: &str) -> CompetitionSeason {
    CompetitionSeason { id: id.to_string(), name: name.to_string(), disabled: false }
}

fn wire_player(id: &str, name: &str, goals: u8, assists: u8) -> Player {
    Player::new(
        id.to_string(),
        name.to_string(),
        PlayerStatistics { assists, goals_scored: goals },
        PlayerStatistics { assists: 0, goals_scored: 0 },
    )
}

#[test]
fn wizard_steps_follow_the_selection_order() {
    let mut state = AppState::new();
    assert_eq!(state.current_step(), WizardStep::NoSport);
    state.set_selected_sport(&Sport { id: "s1".to_string(), name: "Soccer".to_string() });
    assert_eq!(state.current_step(), WizardStep::SportChosen);
    state.set_selected_competition(&competition("c1", "Premier League", "England"));
    assert_eq!(state.current_step(), WizardStep::CompetitionChosen);
    state.set_selected_season(season("se1", "2023"));
    assert_eq!(state.current_step(), WizardStep::SeasonChosen);
    state.set_selected_player_statistics(Players::TopGoalScorers);
    assert_eq!(state.current_step(), WizardStep::StatKindChosen);
    state.set_limit(5);
    assert_eq!(state.current_step(), WizardStep::LimitChosen);
}

#[test]
fn on_start_mocks_the_sport_catalog_once() {
    let mut state = AppState::new();
    let sports = state.on_start();
    assert_eq!(sports.len(), 1);
    assert_eq!(sports[0].id, "sr:sport:1");
    assert_eq!(sports[0].name, "Soccer");
    let again = state.on_start();
    assert_eq!(again.len(), 1);
    assert_eq!(again[0].name, "Soccer");
}

#[test]
fn reset_clears_everything_but_the_sport_catalog() {
    let mut state = AppState::new();
    state.on_start();
    state.set_selected_sport(&Sport { id: "s1".to_string(), name: "Soccer".to_string() });
    state
        .on_sport_select(
            &CompetitionsApiResponse {
                competitions: vec![competition("c1", "Premier League", "England")],
            },
            &vec!["Premier League".to_string()],
            &vec!["England".to_string()],
        )
        .expect("competitions must be stored");
    state.set_selected_competition(&competition("c1", "Premier League", "England"));
    state.set_seasons(vec![season("se1", "2023")]);
    state.set_selected_season(season("se1", "2023"));
    state.set_selected_player_statistics(Players::TopAssistants);
    state.set_limit(3);
    state.on_statistics_fetched(&vec![Ok(CompetitorStatisticsApiResponse {
        competitor: Competitor {
            id: "t1".to_string(),
            name: "Alpha".to_string(),
            players: vec![wire_player("p1", "Pat", 1, 1)],
        },
    })]);

    state.reset();

    assert_eq!(state.sports().len(), 1);
    assert_eq!(state.sports()[0].name, "Soccer");
    assert!(state.selected_sport().is_none());
    assert!(state.competitions().is_empty());
    assert!(state.selected_competition().is_none());
    assert!(state.seasons().is_empty());
    assert!(state.selected_season().is_none());
    assert!(state.sport_events().is_empty());
    assert!(state.competitors().is_empty());
    assert_eq!(state.players().len(), 0);
    assert!(state.selected_player_statistics().is_none());
    assert!(state.limit().is_none());
    assert_eq!(state.current_step(), WizardStep::NoSport);
}

#[test]
fn competition_step_without_sport_fails_fast() {
    let mut state = AppState::new();
    let r = state.on_sport_select(
        &CompetitionsApiResponse { competitions: Vec::new() },
        &Vec::new(),
        &Vec::new(),
    );
    assert_eq!(r, Err(AppError::MissingSport));
    assert!(state.competitions().is_empty());
}

#[test]
fn season_step_without_competition_fails_fast() {
    let mut state = AppState::new();
    state.set_selected_sport(&Sport { id: "s1".to_string(), name: "Soccer".to_string() });
    let r = state.on_competition_select(&CompetitionSeasonsApiResponse { seasons: Vec::new() });
    assert_eq!(r, Err(AppError::MissingCompetition));
}

#[test]
fn schedules_step_without_season_fails_fast() {
    let mut state = AppState::new();
    state.set_selected_sport(&Sport { id: "s1".to_string(), name: "Soccer".to_string() });
    let r = state.on_season_select(&SchedulesApiResponse { schedules: Vec::new() });
    assert_eq!(r, Err(AppError::MissingSeason));
}

#[test]
fn schedules_step_without_sport_fails_fast() {
    let mut state = AppState::new();
    let r = state.on_season_select(&SchedulesApiResponse { schedules: Vec::new() });
    assert_eq!(r, Err(AppError::MissingSport));
}

#[test]
fn error_messages_name_the_missing_selection() {
    assert_eq!(AppError::MissingSport.message(), "no sport has been selected");
    assert_eq!(AppError::MissingCompetition.message(), "no competition has been selected");
    assert_eq!(AppError::MissingSeason.message(), "no season has been selected");
}

#[test]
fn default_limit_of_ten_applies_when_never_asked() {
    let mut state = AppState::new();
    let players: Vec<Player> = (0..12)
        .map(|n: u8| wire_player(&format!("p{}", n), &format!("Player {}", n), n, 0))
        .collect();
    state.on_statistics_fetched(&vec![Ok(CompetitorStatisticsApiResponse {
        competitor: Competitor { id: "t1".to_string(), name: "Alpha".to_string(), players },
    })]);
    let top = state.get_top_goal_scorers();
    assert_eq!(top.len(), 10);
    assert_eq!(top[0].season_statistics.goals_scored, 11);
}
