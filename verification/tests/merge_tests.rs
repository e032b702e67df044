use sportstats::aggregate::PlayerMap;
use sportstats::aggregate::merge_statistics_outcomes;
use sportstats::domain::Player;
use sportstats::domain::PlayerStatistics;
use sportstats::responses::Competitor;
use sportstats::responses::CompetitorStatisticsApiResponse;

fn wire_player(id: &str, name: &str, goals: u8, assists: u8) -> Player {
    Player::new(
        id.to_string(),
        name.to_string(),
        PlayerStatistics { assists, goals_scored: goals },
        PlayerStatistics { assists: 0, goals_scored: 0 },
    )
}

fn response(
    competitor_id: &str,
    competitor_name: &str,
    players: Vec<Player>,
) -> CompetitorStatisticsApiResponse {
    CompetitorStatisticsApiResponse {
        competitor: Competitor {
            id: competitor_id.to_string(),
            name: competitor_name.to_string(),
            players,
        },
    }
}

#[test]
fn merge_accumulates_across_competitors_in_either_order() {
    let a = response("t1", "Alpha", vec![wire_player("p1", "Pat", 2, 0)]);
    let b = response("t2", "Beta", vec![wire_player("p1", "Pat", 3, 0)]);

    let mut forward = PlayerMap::new();
    forward.apply_response(&a);
    forward.apply_response(&b);
    let mut backward = PlayerMap::new();
    backward.apply_response(&b);
    backward.apply_response(&a);

    for map in [&forward, &backward] {
        assert_eq!(map.len(), 1);
        let p = map.get(&"p1".to_string()).expect("p1 must be recorded");
        assert_eq!(p.season_statistics.goals_scored, 5);
    }
}

#[test]
fn new_player_records_first_contribution_once() {
    let a = response("t1", "Alpha", vec![wire_player("q1", "Quinn", 0, 4)]);
    let mut map = PlayerMap::new();
    map.apply_response(&a);
    let q = map.get(&"q1".to_string()).expect("q1 must be recorded");
    assert_eq!(q.season_statistics.assists, 4);
    assert_eq!(q.season_statistics.goals_scored, 0);
}

#[test]
fn failed_fetch_is_skipped_without_error() {
    let outcomes: Vec<Result<CompetitorStatisticsApiResponse, String>> = vec![
        Ok(response("t1", "Alpha", vec![wire_player("p1", "Pat", 1, 0)])),
        Err("transport failure".to_string()),
    ];
    let map = merge_statistics_outcomes(&outcomes);
    assert_eq!(map.len(), 1);
    assert!(map.contains_id(&"p1".to_string()));
}

#[test]
fn accumulation_clamps_at_the_u8_maximum() {
    let a = response("t1", "Alpha", vec![wire_player("p1", "Pat", 200, 250)]);
    let b = response("t2", "Beta", vec![wire_player("p1", "Pat", 100, 10)]);
    let mut map = PlayerMap::new();
    map.apply_response(&a);
    map.apply_response(&b);
    let p = map.get(&"p1".to_string()).expect("p1 must be recorded");
    assert_eq!(p.season_statistics.goals_scored, 255);
    assert_eq!(p.season_statistics.assists, 255);
}

#[test]
fn latest_record_overwrites_name_and_team() {
    let a = response("t1", "Alpha", vec![wire_player("p1", "Pat", 2, 0)]);
    let b = response("t2", "Beta", vec![wire_player("p1", "Patricia", 3, 0)]);
    let mut map = PlayerMap::new();
    map.apply_response(&a);
    map.apply_response(&b);
    let p = map.get(&"p1".to_string()).expect("p1 must be recorded");
    assert_eq!(p.name, "Patricia");
    assert_eq!(p.team().id, "t2");
    assert_eq!(p.team().name, "Beta");
}

#[test]
fn each_record_carries_the_responding_competitor() {
    let a = response(
        "t1",
        "Alpha",
        vec![wire_player("p1", "Pat", 2, 0), wire_player("p2", "Quinn", 1, 1)],
    );
    let mut map = PlayerMap::new();
    map.apply_response(&a);
    assert_eq!(map.len(), 2);
    for id in ["p1", "p2"] {
        let p = map.get(&id.to_string()).expect("player must be recorded");
        assert_eq!(p.team().name, "Alpha");
    }
}

#[test]
fn absent_identifier_is_not_found() {
    let map = PlayerMap::new();
    assert_eq!(map.len(), 0);
    assert!(!map.contains_id(&"p1".to_string()));
    assert!(map.get(&"p1".to_string()).is_none());
}

#[test]
fn players_are_listed_in_insertion_order() {
    let a = response("t1", "Alpha", vec![wire_player("p2", "Quinn", 1, 0)]);
    let b = response("t2", "Beta", vec![wire_player("p1", "Pat", 2, 0)]);
    let mut map = PlayerMap::new();
    map.apply_response(&a);
    map.apply_response(&b);
    let listed: Vec<String> = map.players().iter().map(|p| p.id.clone()).collect();
    assert_eq!(listed, vec!["p2".to_string(), "p1".to_string()]);
}
