use sportstats::aggregate::PlayerMap;
use sportstats::domain::Player;
use sportstats::domain::PlayerStatistics;
use sportstats::domain::Players;
use sportstats::rank::top_by_metric;
use sportstats::responses::Competitor;
use sportstats::responses::CompetitorStatisticsApiResponse;

fn wire_player(id: &str, name: &str, goals: u8, assists: u8) -> Player {
    Player::new(
        id.to_string(),
        name.to_string(),
        PlayerStatistics { assists, goals_scored: goals },
        PlayerStatistics { assists: 0, goals_scored: 0 },
    )
}

fn map_of(players: Vec<Player>) -> PlayerMap {
    let mut map = PlayerMap::new();
    map.apply_response(&CompetitorStatisticsApiResponse {
        competitor: Competitor { id: "t1".to_string(), name: "Alpha".to_string(), players },
    });
    map
}

#[test]
fn top_two_goal_scorers_are_the_nine_goal_pair() {
    let map = map_of(vec![
        wire_player("p", "Pat", 5, 0),
        wire_player("q", "Quinn", 9, 0),
        wire_player("r", "Riley", 9, 0),
    ]);
    let top = top_by_metric(&map, Players::TopGoalScorers, 2);
    assert_eq!(top.len(), 2);
    assert!(top[0].season_statistics.goals_scored >= top[1].season_statistics.goals_scored);
    let ids: Vec<&str> = top.iter().map(|p| p.id.as_str()).collect();
    assert!(ids.contains(&"q"));
    assert!(ids.contains(&"r"));
    assert!(!ids.contains(&"p"));
}

#[test]
fn ties_keep_the_map_order() {
    let map = map_of(vec![
        wire_player("q", "Quinn", 9, 0),
        wire_player("r", "Riley", 9, 0),
    ]);
    let top = top_by_metric(&map, Players::TopGoalScorers, 2);
    let ids: Vec<&str> = top.iter().map(|p| p.id.as_str()).collect();
    assert_eq!(ids, vec!["q", "r"]);
}

#[test]
fn limit_beyond_the_player_count_returns_everyone() {
    let map = map_of(vec![wire_player("p", "Pat", 5, 0), wire_player("q", "Quinn", 9, 0)]);
    let top = top_by_metric(&map, Players::TopGoalScorers, 10);
    assert_eq!(top.len(), 2);
    let ids: Vec<&str> = top.iter().map(|p| p.id.as_str()).collect();
    assert_eq!(ids, vec!["q", "p"]);
}

#[test]
fn limit_zero_returns_nothing() {
    let map = map_of(vec![wire_player("p", "Pat", 5, 0)]);
    let top = top_by_metric(&map, Players::TopGoalScorers, 0);
    assert!(top.is_empty());
}

#[test]
fn assists_metric_ranks_by_assists() {
    let map = map_of(vec![
        wire_player("p", "Pat", 9, 1),
        wire_player("q", "Quinn", 0, 7),
        wire_player("r", "Riley", 5, 4),
    ]);
    let top = top_by_metric(&map, Players::TopAssistants, 3);
    let ids: Vec<&str> = top.iter().map(|p| p.id.as_str()).collect();
    assert_eq!(ids, vec!["q", "r", "p"]);
}

#[test]
fn statistic_kind_labels() {
    assert_eq!(Players::TopGoalScorers.label(), "Top Goal Scorers");
    assert_eq!(Players::TopAssistants.label(), "Top Assistants");
}
