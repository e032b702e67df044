use sportstats::domain::Sport;
use sportstats::domain::Team;
use sportstats::services::BaseInfoService;
use sportstats::state::AppState;
use sportstats::urls::ApiConfig;
use sportstats::urls::get_api_url;

fn config() -> ApiConfig {
    ApiConfig {
        base_url: "https://api.example.test".to_string(),
        access_level: "trial".to_string(),
        language_code: "en".to_string(),
        format: "json".to_string(),
        api_key: "k123".to_string(),
    }
}

#[test]
fn url_lower_cases_the_sport_name() {
    let sport = Sport { id: "s1".to_string(), name: "Soccer".to_string() };
    let url = get_api_url(&config(), &sport, "competitions");
    assert_eq!(url, "https://api.example.test/soccer/trial/en/competitions.json?api_key=k123");
}

#[test]
fn sport_name_is_canonically_lower_cased() {
    let sport = Sport { id: "s1".to_string(), name: "SoCcEr".to_string() };
    assert_eq!(sport.name(), "soccer");
    assert_eq!(sport.id(), "s1");
}

#[test]
fn competitor_statistics_urls_follow_the_stored_order() {
    let mut state = AppState::new();
    state.set_selected_sport(&Sport { id: "s1".to_string(), name: "Soccer".to_string() });
    state.set_selected_season(sportstats::domain::CompetitionSeason {
        id: "sr:season:99".to_string(),
        name: "2023".to_string(),
        disabled: false,
    });
    state.set_competitors(vec![
        Team { id: "sr:competitor:1".to_string(), name: "Alpha".to_string() },
        Team { id: "sr:competitor:2".to_string(), name: "Beta".to_string() },
    ]);
    let urls = state.competitors_api_urls(&config()).expect("urls must be built");
    assert_eq!(
        urls,
        vec![
            "https://api.example.test/soccer/trial/en/seasons/sr:season:99/competitors/sr:competitor:1/statistics.json?api_key=k123"
                .to_string(),
            "https://api.example.test/soccer/trial/en/seasons/sr:season:99/competitors/sr:competitor:2/statistics.json?api_key=k123"
                .to_string(),
        ]
    );
}

#[test]
fn season_and_schedule_urls_embed_the_identifiers() {
    let mut state = AppState::new();
    state.set_selected_sport(&Sport { id: "s1".to_string(), name: "Soccer".to_string() });
    state.set_selected_competition(&sportstats::domain::Competition {
        id: "sr:competition:17".to_string(),
        name: "Premier League".to_string(),
        country: sportstats::domain::Country {
            id: "cat-1".to_string(),
            name: "England".to_string(),
        },
    });
    state.set_selected_season(sportstats::domain::CompetitionSeason {
        id: "sr:season:99".to_string(),
        name: "2023".to_string(),
        disabled: false,
    });
    let seasons_url = state.seasons_url(&config()).expect("seasons url must be built");
    assert_eq!(
        seasons_url,
        "https://api.example.test/soccer/trial/en/competitions/sr:competition:17/seasons.json?api_key=k123"
    );
    let schedules_url = state.schedules_url(&config()).expect("schedules url must be built");
    assert_eq!(
        schedules_url,
        "https://api.example.test/soccer/trial/en/seasons/sr:season:99/schedules.json?api_key=k123"
    );
}

#[test]
fn url_steps_without_selection_fail_fast() {
    let state = AppState::new();
    assert!(state.competitions_url(&config()).is_err());
    assert!(state.seasons_url(&config()).is_err());
    assert!(state.schedules_url(&config()).is_err());
    assert!(state.competitors_api_urls(&config()).is_err());
}
