//! Construction of the remote API's URLs from an explicit configuration
//! value, the selected sport's canonical name, and an endpoint path.

use crate::domain::Sport;
use crate::domain::SportView;
use crate::services::BaseInfoService;
use vstd::prelude::*;
use vstd::string::StringExecFns;

verus! {

/// Mathematical image of an [`ApiConfig`].
#[verifier::ext_equal]
pub ghost struct ApiConfigView {
    pub base_url: Seq<char>,
    pub access_level: Seq<char>,
    pub language_code: Seq<char>,
    pub format: Seq<char>,
    pub api_key: Seq<char>,
}

/// The configuration surface of the remote API, read once at startup and
/// passed by reference into URL construction.
pub struct ApiConfig {
    pub base_url: String,
    pub access_level: String,
    pub language_code: String,
    pub format: String,
    pub api_key: String,
}

impl View for ApiConfig {
    type V = ApiConfigView;

    open spec fn view(&self) -> ApiConfigView {
        ApiConfigView {
            base_url: self.base_url@,
            access_level: self.access_level@,
            language_code: self.language_code@,
            format: self.format@,
            api_key: self.api_key@,
        }
    }
}

/// The URL of an endpoint:
/// `{base}/{sport-name}/{access-level}/{lang}/{endpoint}.{format}?api_key={key}`,
/// with the sport's canonical, lower-cased name.
pub open spec fn spec_api_url(c: ApiConfigView, sport_name: Seq<char>, endpoint: Seq<char>) -> Seq<
    char,
> {
    c.base_url + "/"@ + sport_name + "/"@ + c.access_level + "/"@ + c.language_code + "/"@
        + endpoint + "."@ + c.format + "?api_key="@ + c.api_key
}

/// Builds the URL of an endpoint for the selected sport, lower-casing the
/// sport's name for its path segment.
pub fn get_api_url(config: &ApiConfig, sport: &Sport, endpoint: &str) -> (r: String)
    ensures
        r@ == spec_api_url(config@, sport.spec_name(), endpoint@),
{
    let mut url = config.base_url.clone();
    let sport_name = sport.name();
    url.append("/");
    url.append(sport_name.as_str());
    url.append("/");
    url.append(config.access_level.as_str());
    url.append("/");
    url.append(config.language_code.as_str());
    url.append("/");
    url.append(endpoint);
    url.append(".");
    url.append(config.format.as_str());
    url.append("?api_key=");
    url.append(config.api_key.as_str());
    url
}

/// The endpoint path for the competitions of a sport.
pub fn competitions_endpoint() -> (r: String)
    ensures
        r@ == "competitions"@,
{
    String::from_str("competitions")
}

/// The endpoint path for the seasons of a competition.
pub fn seasons_endpoint(competition_id: &String) -> (r: String)
    ensures
        r@ == "competitions/"@ + competition_id@ + "/seasons"@,
{
    let mut r = String::from_str("competitions/");
    r.append(competition_id.as_str());
    r.append("/seasons");
    r
}

/// The endpoint path for the schedules of a season.
pub fn schedules_endpoint(season_id: &String) -> (r: String)
    ensures
        r@ == "seasons/"@ + season_id@ + "/schedules"@,
{
    let mut r = String::from_str("seasons/");
    r.append(season_id.as_str());
    r.append("/schedules");
    r
}

/// The endpoint path for the statistics of a competitor in a season.
pub fn statistics_endpoint(season_id: &String, competitor_id: &String) -> (r: String)
    ensures
        r@ == "seasons/"@ + season_id@ + "/competitors/"@ + competitor_id@ + "/statistics"@,
{
    let mut r = String::from_str("seasons/");
    r.append(season_id.as_str());
    r.append("/competitors/");
    r.append(competitor_id.as_str());
    r.append("/statistics");
    r
}

} // verus!
