use sportstats::domain::Competition;
use sportstats::domain::CompetitionSeason;
use sportstats::domain::Country;
use sportstats::domain::Player;
use sportstats::domain::PlayerStatistics;
use sportstats::domain::Sport;
use sportstats::domain::Team;
use sportstats::services::BaseInfoService;
use sportstats::services::ConstructService;
use sportstats::services::PlayerSeasonStatisticsService;
use sportstats::services::PlayerService;
use sportstats::services::PlayerStatisticsService;
use sportstats::services::SeasonService;

#[test]
fn competition_label_names_the_country() {
    let c = Competition {
        id: "c1".to_string(),
        name: "Premier League".to_string(),
        country: Country { id: "cat-1".to_string(), name: "England".to_string() },
    };
    assert_eq!(c.display_label(), "Premier League (England)");
}

#[test]
fn player_label_names_the_assigned_team() {
    let mut p = Player::new(
        "p1".to_string(),
        "Pat".to_string(),
        PlayerStatistics { assists: 1, goals_scored: 2 },
        PlayerStatistics { assists: 0, goals_scored: 0 },
    );
    assert_eq!(p.display_label(), "Pat ()");
    p.set_team(&Team::construct("t1".to_string(), "Alpha".to_string()));
    assert_eq!(p.display_label(), "Pat (Alpha)");
}

#[test]
fn saturating_add_clamps_each_component() {
    let a = PlayerStatistics { assists: 250, goals_scored: 3 };
    let b = PlayerStatistics { assists: 10, goals_scored: 4 };
    let sum = a.saturating_add(b);
    assert_eq!(sum.assists, 255);
    assert_eq!(sum.goals_scored, 7);
}

#[test]
fn season_is_enabled_unless_disabled() {
    let on = CompetitionSeason { id: "s1".to_string(), name: "2023".to_string(), disabled: false };
    let off = CompetitionSeason { id: "s2".to_string(), name: "2022".to_string(), disabled: true };
    assert!(on.is_enabled());
    assert!(!off.is_enabled());
}

#[test]
fn update_season_statistics_adds_the_snapshot() {
    let mut p = Player::new(
        "p1".to_string(),
        "Pat".to_string(),
        PlayerStatistics { assists: 1, goals_scored: 2 },
        PlayerStatistics { assists: 5, goals_scored: 6 },
    );
    let record = Player::new(
        "p1".to_string(),
        "Pat".to_string(),
        PlayerStatistics { assists: 3, goals_scored: 4 },
        PlayerStatistics { assists: 0, goals_scored: 0 },
    );
    p.update_season_statistics(&record);
    assert_eq!(p.season_assists(), 8);
    assert_eq!(p.season_goals(), 10);
    assert_eq!(p.goals(), 2);
    assert_eq!(p.assists(), 1);
}

#[test]
fn sport_construct_keeps_the_catalog_name_and_lower_cases_canonically() {
    let s = Sport::construct("sr:sport:1".to_string(), "Soccer".to_string());
    assert_eq!(s.id(), "sr:sport:1");
    assert_eq!(s.name, "Soccer");
    assert_eq!(s.name(), "soccer");
}
