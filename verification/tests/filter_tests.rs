use sportstats::domain::Competition;
use sportstats::domain::CompetitionSeason;
use sportstats::domain::Country;
use sportstats::filter::filter_and_sort_seasons;
use sportstats::filter::filter_competitions;

fn competition(id: &str, name: &str, country: &str) -> Competition {
    Competition {
        id: id.to_string(),
        name: name.to_string(),
        country: Country { id: format!("cat-{}", country), name: country.to_string() },
    }
}

fn season(id: &str, name: &str, disabled: bool) -> CompetitionSeason {
    CompetitionSeason { id: id.to_string(), name: name.to_string(), disabled }
}

#[test]
fn keeps_competition_iff_name_and_country_listed() {
    let all = vec![
        competition("c1", "Premier League", "England"),
        competition("c2", "Serie A", "Italy"),
        competition("c3", "Liga MX", "Mexico"),
        competition("c4", "Premier League", "Mexico"),
    ];
    let names = vec!["Premier League".to_string(), "Serie A".to_string()];
    let countries = vec!["England".to_string(), "Italy".to_string()];
    let out = filter_competitions(&all, &names, &countries);
    let kept: Vec<&str> = out.iter().map(|c| c.id.as_str()).collect();
    assert_eq!(kept, vec!["c1", "c2"]);
}

#[test]
fn allow_list_match_is_case_sensitive() {
    let all = vec![competition("c1", "premier league", "England")];
    let names = vec!["Premier League".to_string()];
    let countries = vec!["England".to_string()];
    let out = filter_competitions(&all, &names, &countries);
    assert!(out.is_empty());
}

#[test]
fn filtered_competitions_hold_no_duplicates() {
    let all = vec![
        competition("c1", "Premier League", "England"),
        competition("c1", "Premier League", "England"),
    ];
    let names = vec!["Premier League".to_string()];
    let countries = vec!["England".to_string()];
    let out = filter_competitions(&all, &names, &countries);
    assert_eq!(out.len(), 1);
}

#[test]
fn empty_allow_lists_keep_nothing() {
    let all = vec![competition("c1", "Premier League", "England")];
    let out = filter_competitions(&all, &Vec::new(), &Vec::new());
    assert!(out.is_empty());
}

#[test]
fn seasons_sorted_by_name_descending() {
    let all = vec![
        season("s1", "2021", false),
        season("s2", "2023", false),
        season("s3", "2022", false),
    ];
    let out = filter_and_sort_seasons(&all);
    let names: Vec<&str> = out.iter().map(|s| s.name.as_str()).collect();
    assert_eq!(names, vec!["2023", "2022", "2021"]);
}

#[test]
fn disabled_seasons_are_excluded() {
    let all = vec![
        season("s1", "2021", false),
        season("s2", "2023", true),
        season("s3", "2022", false),
    ];
    let out = filter_and_sort_seasons(&all);
    let ids: Vec<&str> = out.iter().map(|s| s.id.as_str()).collect();
    assert_eq!(ids, vec!["s3", "s1"]);
}

#[test]
fn season_sort_is_stable_for_equal_names() {
    let all = vec![
        season("first", "2022", false),
        season("second", "2022", false),
        season("third", "2023", false),
    ];
    let out = filter_and_sort_seasons(&all);
    let ids: Vec<&str> = out.iter().map(|s| s.id.as_str()).collect();
    assert_eq!(ids, vec!["third", "first", "second"]);
}

#[test]
fn no_seasons_stay_empty() {
    let out = filter_and_sort_seasons(&Vec::new());
    assert!(out.is_empty());
}
