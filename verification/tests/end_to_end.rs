use sportstats::domain::Competition;
use sportstats::domain::CompetitionSeason;
use sportstats::domain::Country;
use sportstats::domain::Player;
use sportstats::domain::PlayerStatistics;
use sportstats::domain::Players;
use sportstats::domain::SportEvent;
use sportstats::domain::Team;
use sportstats::responses::Competitor;
use sportstats::responses::CompetitionSeasonsApiResponse;
use sportstats::responses::CompetitionsApiResponse;
use sportstats::responses::CompetitorStatisticsApiResponse;
use sportstats::responses::Schedule;
use sportstats::responses::SchedulesApiResponse;
use sportstats::state::AppState;
use sportstats::state::WizardStep;

fn competition(id: &str, name: &str, country: &str) -> Competition {
    Competition {
        id: id.to_string(),
        name: name.to_string(),
        country: Country { id: format!("cat-{}", country), name: country.to_string() },
    }
}

fn wire_player(id: &str, name: &str, goals: u8, assists: u8) -> Player {
    Player::new(
        id.to_string(),
        name.to_string(),
        PlayerStatistics { assists, goals_scored: goals },
        PlayerStatistics { assists: 0, goals_scored: 0 },
    )
}

#[test]
fn full_wizard_cycle_ranks_the_union_of_both_competitors() {
    let mut state = AppState::new();

    // Sport catalog and selection.
    let sports = state.on_start();
    assert_eq!(sports.len(), 1);
    state.set_selected_sport(&sports[0]);

    // Competitions, narrowed by the allow-lists.
    let competitions_response = CompetitionsApiResponse {
        competitions: vec![
            competition("c-pl", "PremierLeague", "England"),
            competition("c-sa", "SerieA", "Italy"),
            competition("c-mx", "LigaMX", "Mexico"),
        ],
    };
    let names = vec!["PremierLeague".to_string(), "SerieA".to_string()];
    let countries = vec!["England".to_string(), "Italy".to_string()];
    state
        .on_sport_select(&competitions_response, &names, &countries)
        .expect("competitions must be stored");
    let filtered = state.competitions();
    let mut kept: Vec<String> = filtered.iter().map(|c| c.name.clone()).collect();
    kept.sort();
    assert_eq!(kept, vec!["PremierLeague".to_string(), "SerieA".to_string()]);

    let premier_league = filtered
        .iter()
        .find(|c| c.name == "PremierLeague")
        .expect("the allow-listed competition must be offered");
    state.set_selected_competition(premier_league);

    // Seasons of the chosen competition.
    let seasons_response = CompetitionSeasonsApiResponse {
        seasons: vec![CompetitionSeason {
            id: "se-23".to_string(),
            name: "2023".to_string(),
            disabled: false,
        }],
    };
    state.on_competition_select(&seasons_response).expect("seasons must be stored");
    let seasons = state.seasons();
    assert_eq!(seasons.len(), 1);
    state.set_selected_season(seasons[0].clone());

    // Events of the season, with two competitors.
    let alpha = Team { id: "t-a".to_string(), name: "Alpha".to_string() };
    let beta = Team { id: "t-b".to_string(), name: "Beta".to_string() };
    let schedules_response = SchedulesApiResponse {
        schedules: vec![Schedule {
            sport_event: SportEvent::new("ev1".to_string(), vec![alpha.clone(), beta.clone()]),
        }],
    };
    state.on_season_select(&schedules_response).expect("events must be stored");
    assert_eq!(state.competitors().len(), 2);

    // Per-competitor statistics with disjoint players, merged.
    let outcomes: Vec<Result<CompetitorStatisticsApiResponse, String>> = vec![
        Ok(CompetitorStatisticsApiResponse {
            competitor: Competitor {
                id: alpha.id.clone(),
                name: alpha.name.clone(),
                players: vec![wire_player("p1", "Pat", 7, 2), wire_player("p2", "Quinn", 3, 5)],
            },
        }),
        Ok(CompetitorStatisticsApiResponse {
            competitor: Competitor {
                id: beta.id.clone(),
                name: beta.name.clone(),
                players: vec![wire_player("p3", "Riley", 5, 1), wire_player("p4", "Sam", 9, 0)],
            },
        }),
    ];
    state.on_statistics_fetched(&outcomes);
    assert_eq!(state.players().len(), 4);

    // Statistic kind and limit, then the ranking.
    state.set_selected_player_statistics(Players::TopGoalScorers);
    state.set_limit(4);
    assert_eq!(state.current_step(), WizardStep::LimitChosen);

    let top = state.get_top_goal_scorers();
    let ids: Vec<&str> = top.iter().map(|p| p.id.as_str()).collect();
    assert_eq!(ids, vec!["p4", "p1", "p3", "p2"]);
    assert_eq!(top[0].season_statistics.goals_scored, 9);
    assert_eq!(top[0].team().name, "Beta");
    assert_eq!(top[1].team().name, "Alpha");

    // A fresh cycle starts with the catalog kept.
    state.reset();
    assert_eq!(state.current_step(), WizardStep::NoSport);
    assert_eq!(state.sports().len(), 1);
}
