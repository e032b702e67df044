//! The statistics aggregator: a player map keyed by player identifier and
//! the merge of per-competitor statistics responses into it. The merge is
//! insert-or-add per record, tolerates failed fetches, and its season totals
//! do not depend on the order in which responses arrive.

use crate::domain::Player;
use crate::domain::PlayerView;
use crate::domain::Team;
use crate::domain::TeamView;
use crate::domain::spec_saturating_add_stats;
use crate::responses::CompetitorStatisticsApiResponse;
use crate::responses::CompetitorView;
use crate::services::ConstructService;
use vstd::prelude::*;

verus! {

/// Whether some entry of the player list carries this identifier.
pub open spec fn spec_has_player(s: Seq<PlayerView>, id: Seq<char>) -> bool {
    exists|k: int| 0 <= k < s.len() && s[k].id == id
}

/// The first position carrying this identifier, or the length when none does.
pub open spec fn spec_player_index(s: Seq<PlayerView>, id: Seq<char>) -> int
    decreases s.len(),
{
    if s.len() == 0 {
        0
    } else if s[0].id == id {
        0
    } else {
        1 + spec_player_index(s.skip(1), id)
    }
}

/// What `spec_player_index` finds: a position within bounds exactly when the
/// identifier occurs, the first such position.
pub proof fn lemma_player_index(s: Seq<PlayerView>, id: Seq<char>)
    ensures
        0 <= spec_player_index(s, id) <= s.len(),
        spec_has_player(s, id) <==> spec_player_index(s, id) < s.len(),
        spec_player_index(s, id) < s.len() ==> s[spec_player_index(s, id)].id == id,
        forall|k: int| 0 <= k < spec_player_index(s, id) ==> (#[trigger] s[k]).id != id,
    decreases s.len(),
{
    if s.len() == 0 {
    } else if s[0].id == id {
    } else {
        lemma_player_index(s.skip(1), id);
        let t = s.skip(1);
        if spec_has_player(t, id) {
            let k = choose|k: int| 0 <= k < t.len() && t[k].id == id;
            assert(s[k + 1].id == id);
        }
        if spec_has_player(s, id) {
            let k = choose|k: int| 0 <= k < s.len() && s[k].id == id;
            assert(t[k - 1].id == id);
        }
        assert forall|k: int| 0 <= k < spec_player_index(s, id) implies (#[trigger] s[k]).id
            != id by {
            if k > 0 {
                assert(t[k - 1] == s[k]);
                assert(t[k - 1].id != id);
            }
        }
    }
}

/// The identifier positions are untouched by an update that keeps the
/// identifier at the updated place.
proof fn lemma_player_index_update(s: Seq<PlayerView>, id: Seq<char>, i: int, v: PlayerView)
    requires
        0 <= i < s.len(),
        v.id == s[i].id,
    ensures
        spec_player_index(s.update(i, v), id) == spec_player_index(s, id),
    decreases s.len(),
{
    let u = s.update(i, v);
    if s.len() == 0 {
    } else if i == 0 {
        if s[0].id == id {
        } else {
            assert(u.skip(1) =~= s.skip(1));
        }
    } else {
        if s[0].id == id {
        } else {
            assert(u.skip(1) =~= s.skip(1).update(i - 1, v));
            lemma_player_index_update(s.skip(1), id, i - 1, v);
        }
    }
}

/// Appending an entry leaves the positions of present identifiers alone and
/// places a fresh identifier at the end.
proof fn lemma_player_index_push(s: Seq<PlayerView>, id: Seq<char>, v: PlayerView)
    ensures
        spec_has_player(s, id) ==> spec_player_index(s.push(v), id) == spec_player_index(s, id),
        !spec_has_player(s, id) && v.id == id ==> spec_player_index(s.push(v), id) == s.len(),
        !spec_has_player(s, id) && v.id != id ==> !spec_has_player(s.push(v), id),
    decreases s.len(),
{
    lemma_player_index(s, id);
    lemma_player_index(s.push(v), id);
    let u = s.push(v);
    if s.len() == 0 {
    } else if s[0].id == id {
    } else {
        assert(u.skip(1) =~= s.skip(1).push(v));
        lemma_player_index_push(s.skip(1), id, v);
        if spec_has_player(s, id) {
            let k = choose|k: int| 0 <= k < s.len() && s[k].id == id;
            assert(s.skip(1)[k - 1].id == id);
        }
        if spec_has_player(s.skip(1), id) {
            let k = choose|k: int| 0 <= k < s.skip(1).len() && s.skip(1)[k].id == id;
            assert(s[k + 1].id == id);
        }
    }
}

/// Whether the player list carries distinct identifiers throughout: the map
/// shape of the aggregation.
pub open spec fn spec_unique_ids(s: Seq<PlayerView>) -> bool {
    forall|i: int, j: int| 0 <= i < j < s.len() ==> (#[trigger] s[i]).id != (#[trigger] s[j]).id
}

/// One record of a statistics response merged into the player list: an entry
/// already carrying the identifier absorbs the record, a fresh identifier is
/// appended with the record's snapshot as its first season total.
pub open spec fn spec_merge_player(
    s: Seq<PlayerView>,
    team: TeamView,
    p: PlayerView,
) -> Seq<PlayerView> {
    let i = spec_player_index(s, p.id);
    if i < s.len() {
        s.update(
            i,
            PlayerView {
                name: p.name,
                team: team,
                season_statistics: spec_saturating_add_stats(
                    s[i].season_statistics,
                    p.statistics,
                ),
                ..s[i]
            },
        )
    } else {
        s.push(PlayerView { team: team, season_statistics: p.statistics, ..p })
    }
}

/// A whole response's player records merged in order.
pub open spec fn spec_merge_players(
    s: Seq<PlayerView>,
    team: TeamView,
    ps: Seq<PlayerView>,
) -> Seq<PlayerView>
    decreases ps.len(),
{
    if ps.len() == 0 {
        s
    } else {
        spec_merge_player(spec_merge_players(s, team, ps.drop_last()), team, ps.last())
    }
}

/// A statistics response merged into the player list: every record carries
/// the competitor identity that the response itself reports.
pub open spec fn spec_merge_response(s: Seq<PlayerView>, r: CompetitorView) -> Seq<PlayerView> {
    spec_merge_players(s, TeamView { id: r.id, name: r.name }, r.players)
}

/// A sequence of settled fetch outcomes merged in order; a failed fetch
/// contributes nothing.
pub open spec fn spec_merge_outcomes(
    s: Seq<PlayerView>,
    os: Seq<Option<CompetitorView>>,
) -> Seq<PlayerView>
    decreases os.len(),
{
    if os.len() == 0 {
        s
    } else {
        let prev = spec_merge_outcomes(s, os.drop_last());
        match os.last() {
            Some(r) => spec_merge_response(prev, r),
            None => prev,
        }
    }
}

/// The image of one settled fetch: the response for a success, nothing for a
/// failure.
pub open spec fn spec_outcome_view(o: Result<CompetitorStatisticsApiResponse, String>) -> Option<
    CompetitorView,
> {
    match o {
        Ok(r) => Some(r@),
        Err(_) => None,
    }
}

/// The images of a list of settled fetches.
pub open spec fn spec_outcome_views(os: Seq<Result<CompetitorStatisticsApiResponse, String>>) -> Seq<
    Option<CompetitorView>,
>
    decreases os.len(),
{
    if os.len() == 0 {
        Seq::empty()
    } else {
        spec_outcome_views(os.drop_last()).push(spec_outcome_view(os.last()))
    }
}

/// Merging one record preserves identifier uniqueness.
proof fn lemma_merge_player_unique(s: Seq<PlayerView>, team: TeamView, p: PlayerView)
    requires
        spec_unique_ids(s),
    ensures
        spec_unique_ids(spec_merge_player(s, team, p)),
{
    lemma_player_index(s, p.id);
    let i = spec_player_index(s, p.id);
    if i < s.len() {
        let u = spec_merge_player(s, team, p);
        assert forall|a: int, b: int| 0 <= a < b < u.len() implies (#[trigger] u[a]).id != (
        #[trigger] u[b]).id by {
            assert(s[a].id != s[b].id);
        }
    } else {
        let u = spec_merge_player(s, team, p);
        assert forall|a: int, b: int| 0 <= a < b < u.len() implies (#[trigger] u[a]).id != (
        #[trigger] u[b]).id by {
            if b == s.len() {
                assert(!spec_has_player(s, p.id));
                assert(u[a] == s[a]);
                if s[a].id == p.id {
                    assert(spec_has_player(s, p.id));
                }
            } else {
                assert(s[a].id != s[b].id);
            }
        }
    }
}

/// Merging a response preserves identifier uniqueness.
proof fn lemma_merge_players_unique(s: Seq<PlayerView>, team: TeamView, ps: Seq<PlayerView>)
    requires
        spec_unique_ids(s),
    ensures
        spec_unique_ids(spec_merge_players(s, team, ps)),
    decreases ps.len(),
{
    if ps.len() > 0 {
        lemma_merge_players_unique(s, team, ps.drop_last());
        lemma_merge_player_unique(spec_merge_players(s, team, ps.drop_last()), team, ps.last());
    }
}

/// A sum clamped at the `u8` maximum.
pub open spec fn sat255(x: int) -> int {
    if x > 255 {
        255
    } else {
        x
    }
}

/// Whether any record of a response's player list carries this identifier.
pub open spec fn spec_mentions(ps: Seq<PlayerView>, id: Seq<char>) -> bool {
    exists|k: int| 0 <= k < ps.len() && ps[k].id == id
}

/// The goals this player list reports for an identifier, summed over every
/// record carrying it.
pub open spec fn spec_goals_contrib(ps: Seq<PlayerView>, id: Seq<char>) -> int
    decreases ps.len(),
{
    if ps.len() == 0 {
        0
    } else {
        spec_goals_contrib(ps.drop_last(), id) + if ps.last().id == id {
            ps.last().statistics.goals_scored as int
        } else {
            0
        }
    }
}

/// The assists this player list reports for an identifier, summed over every
/// record carrying it.
pub open spec fn spec_assists_contrib(ps: Seq<PlayerView>, id: Seq<char>) -> int
    decreases ps.len(),
{
    if ps.len() == 0 {
        0
    } else {
        spec_assists_contrib(ps.drop_last(), id) + if ps.last().id == id {
            ps.last().statistics.assists as int
        } else {
            0
        }
    }
}

/// The season goals recorded for an identifier; meaningful where the
/// identifier is present.
pub open spec fn spec_season_goals_of(s: Seq<PlayerView>, id: Seq<char>) -> int {
    s[spec_player_index(s, id)].season_statistics.goals_scored as int
}

/// The season assists recorded for an identifier; meaningful where the
/// identifier is present.
pub open spec fn spec_season_assists_of(s: Seq<PlayerView>, id: Seq<char>) -> int {
    s[spec_player_index(s, id)].season_statistics.assists as int
}

/// Clamping before adding a bounded amount is the same as clamping the
/// whole sum.
proof fn lemma_sat255_add(x: int, y: int)
    requires
        x >= 0,
        y >= 0,
    ensures
        sat255(sat255(x) + y) == sat255(x + y),
{
}

/// Contributions are sums of naturals.
proof fn lemma_contrib_nonneg(ps: Seq<PlayerView>, id: Seq<char>)
    ensures
        spec_goals_contrib(ps, id) >= 0,
        spec_assists_contrib(ps, id) >= 0,
    decreases ps.len(),
{
    if ps.len() > 0 {
        lemma_contrib_nonneg(ps.drop_last(), id);
    }
}

/// How one merged record moves the season totals of each identifier: the
/// record's own identifier gains its snapshot, every other identifier is
/// untouched.
proof fn lemma_merge_player_stats(s: Seq<PlayerView>, team: TeamView, p: PlayerView, id: Seq<char>)
    ensures
        p.id == id ==> spec_has_player(spec_merge_player(s, team, p), id),
        p.id == id && spec_has_player(s, id) ==> spec_season_goals_of(
            spec_merge_player(s, team, p),
            id,
        ) == sat255(spec_season_goals_of(s, id) + p.statistics.goals_scored)
            && spec_season_assists_of(spec_merge_player(s, team, p), id) == sat255(
            spec_season_assists_of(s, id) + p.statistics.assists,
        ),
        p.id == id && !spec_has_player(s, id) ==> spec_season_goals_of(
            spec_merge_player(s, team, p),
            id,
        ) == p.statistics.goals_scored && spec_season_assists_of(spec_merge_player(s, team, p), id)
            == p.statistics.assists,
        p.id != id ==> (spec_has_player(spec_merge_player(s, team, p), id) == spec_has_player(
            s,
            id,
        )),
        p.id != id && spec_has_player(s, id) ==> spec_season_goals_of(
            spec_merge_player(s, team, p),
            id,
        ) == spec_season_goals_of(s, id) && spec_season_assists_of(spec_merge_player(s, team, p), id)
            == spec_season_assists_of(s, id),
{
    lemma_player_index(s, p.id);
    lemma_player_index(s, id);
    let i = spec_player_index(s, p.id);
    let u = spec_merge_player(s, team, p);
    if i < s.len() {
        lemma_player_index_update(s, id, i, u[i]);
        if p.id == id {
            assert(u[i].id == id);
            assert(spec_has_player(u, id));
            assert(spec_player_index(u, id) == i);
        } else {
            if spec_has_player(s, id) {
                let idx = spec_player_index(s, id);
                assert(s[idx].id == id);
                assert(idx != i);
                assert(u[idx] == s[idx]);
                assert(spec_has_player(u, id));
            } else {
                if spec_has_player(u, id) {
                    let k = choose|k: int| 0 <= k < u.len() && u[k].id == id;
                    assert(k != i);
                    assert(s[k].id == id);
                    assert(spec_has_player(s, id));
                }
            }
        }
    } else {
        let v = PlayerView { team: team, season_statistics: p.statistics, ..p };
        lemma_player_index_push(s, id, v);
        lemma_player_index(u, id);
        assert(u =~= s.push(v));
        if p.id == id {
            assert(!spec_has_player(s, id));
            assert(u[s.len() as int].id == id);
            assert(spec_has_player(u, id));
            assert(spec_player_index(u, id) == s.len());
        } else {
            if spec_has_player(s, id) {
                let idx = spec_player_index(s, id);
                assert(u[idx] == s[idx]);
                assert(spec_has_player(u, id));
            }
        }
    }
}

/// Splitting a mention over the last record.
proof fn lemma_mentions_split(ps: Seq<PlayerView>, id: Seq<char>)
    requires
        ps.len() > 0,
    ensures
        spec_mentions(ps, id) <==> (spec_mentions(ps.drop_last(), id) || ps.last().id == id),
{
    if spec_mentions(ps, id) {
        let k = choose|k: int| 0 <= k < ps.len() && ps[k].id == id;
        if k < ps.len() - 1 {
            assert(ps.drop_last()[k].id == id);
        }
    }
    if spec_mentions(ps.drop_last(), id) {
        let k = choose|k: int| 0 <= k < ps.drop_last().len() && ps.drop_last()[k].id == id;
        assert(ps[k].id == id);
    }
    if ps.last().id == id {
        assert(ps[ps.len() - 1].id == id);
    }
}

/// How a whole response moves the season totals of one identifier: the
/// response's records for it are summed onto whatever stood before, clamped
/// at the `u8` maximum; identifiers it never mentions are untouched.
pub proof fn lemma_merge_players_stats(
    s: Seq<PlayerView>,
    team: TeamView,
    ps: Seq<PlayerView>,
    id: Seq<char>,
)
    ensures
        spec_has_player(spec_merge_players(s, team, ps), id) <==> (spec_has_player(s, id)
            || spec_mentions(ps, id)),
        spec_has_player(s, id) ==> spec_season_goals_of(spec_merge_players(s, team, ps), id)
            == sat255(spec_season_goals_of(s, id) + spec_goals_contrib(ps, id))
            && spec_season_assists_of(spec_merge_players(s, team, ps), id) == sat255(
            spec_season_assists_of(s, id) + spec_assists_contrib(ps, id),
        ),
        !spec_has_player(s, id) && spec_mentions(ps, id) ==> spec_season_goals_of(
            spec_merge_players(s, team, ps),
            id,
        ) == sat255(spec_goals_contrib(ps, id)) && spec_season_assists_of(
            spec_merge_players(s, team, ps),
            id,
        ) == sat255(spec_assists_contrib(ps, id)),
    decreases ps.len(),
{
    if ps.len() == 0 {
    } else {
        let rest = ps.drop_last();
        let last = ps.last();
        let prev = spec_merge_players(s, team, rest);
        lemma_merge_players_stats(s, team, rest, id);
        lemma_merge_player_stats(prev, team, last, id);
        lemma_mentions_split(ps, id);
        lemma_contrib_nonneg(rest, id);
        if !spec_mentions(rest, id) {
            assert forall|j: int| 0 <= j < rest.len() implies (#[trigger] rest[j]).id != id by {
                if rest[j].id == id {
                    assert(spec_mentions(rest, id));
                }
            }
            lemma_contrib_zero(rest, id);
        }
        if last.id == id {
            if spec_has_player(s, id) {
                lemma_sat255_add(
                    spec_season_goals_of(s, id) + spec_goals_contrib(rest, id),
                    last.statistics.goals_scored as int,
                );
                lemma_sat255_add(
                    spec_season_assists_of(s, id) + spec_assists_contrib(rest, id),
                    last.statistics.assists as int,
                );
            } else if spec_mentions(rest, id) {
                lemma_sat255_add(
                    spec_goals_contrib(rest, id),
                    last.statistics.goals_scored as int,
                );
                lemma_sat255_add(
                    spec_assists_contrib(rest, id),
                    last.statistics.assists as int,
                );
            }
        }
    }
}

/// Law: merging two statistics responses into an empty map yields, in either
/// order, players for the same identifiers with the same season totals.
pub proof fn lemma_merge_order_insensitive(a: CompetitorView, b: CompetitorView, id: Seq<char>)
    ensures
        spec_has_player(
            spec_merge_response(spec_merge_response(Seq::empty(), a), b),
            id,
        ) == spec_has_player(spec_merge_response(spec_merge_response(Seq::empty(), b), a), id),
        spec_has_player(spec_merge_response(spec_merge_response(Seq::empty(), a), b), id)
            ==> spec_season_goals_of(spec_merge_response(spec_merge_response(Seq::empty(), a), b), id)
            == spec_season_goals_of(spec_merge_response(spec_merge_response(Seq::empty(), b), a), id)
            && spec_season_assists_of(
            spec_merge_response(spec_merge_response(Seq::empty(), a), b),
            id,
        ) == spec_season_assists_of(
            spec_merge_response(spec_merge_response(Seq::empty(), b), a),
            id,
        ),
{
    let empty = Seq::<PlayerView>::empty();
    let team_a = TeamView { id: a.id, name: a.name };
    let team_b = TeamView { id: b.id, name: b.name };
    let m_a = spec_merge_response(empty, a);
    let m_b = spec_merge_response(empty, b);
    lemma_merge_players_stats(empty, team_a, a.players, id);
    lemma_merge_players_stats(empty, team_b, b.players, id);
    lemma_merge_players_stats(m_a, team_b, b.players, id);
    lemma_merge_players_stats(m_b, team_a, a.players, id);
    lemma_contrib_nonneg(a.players, id);
    lemma_contrib_nonneg(b.players, id);
    if !spec_mentions(a.players, id) {
        assert forall|j: int| 0 <= j < a.players.len() implies (#[trigger] a.players[j]).id
            != id by {
            if a.players[j].id == id {
                assert(spec_mentions(a.players, id));
            }
        }
        lemma_contrib_zero(a.players, id);
    }
    if !spec_mentions(b.players, id) {
        assert forall|j: int| 0 <= j < b.players.len() implies (#[trigger] b.players[j]).id
            != id by {
            if b.players[j].id == id {
                assert(spec_mentions(b.players, id));
            }
        }
        lemma_contrib_zero(b.players, id);
    }
    lemma_sat255_add(spec_goals_contrib(a.players, id), spec_goals_contrib(b.players, id));
    lemma_sat255_add(spec_goals_contrib(b.players, id), spec_goals_contrib(a.players, id));
    lemma_sat255_add(spec_assists_contrib(a.players, id), spec_assists_contrib(b.players, id));
    lemma_sat255_add(spec_assists_contrib(b.players, id), spec_assists_contrib(a.players, id));
}

/// One identifier reported exactly once contributes exactly its snapshot.
proof fn lemma_contrib_single(ps: Seq<PlayerView>, k: int, id: Seq<char>)
    requires
        0 <= k < ps.len(),
        ps[k].id == id,
        forall|j: int| 0 <= j < ps.len() && j != k ==> (#[trigger] ps[j]).id != id,
    ensures
        spec_goals_contrib(ps, id) == ps[k].statistics.goals_scored,
        spec_assists_contrib(ps, id) == ps[k].statistics.assists,
    decreases ps.len(),
{
    let rest = ps.drop_last();
    if k == ps.len() - 1 {
        assert forall|j: int| 0 <= j < rest.len() implies (#[trigger] rest[j]).id != id by {
            assert(ps[j].id != id);
        }
        lemma_contrib_zero(rest, id);
    } else {
        assert forall|j: int| 0 <= j < rest.len() && j != k implies (#[trigger] rest[j]).id
            != id by {
            assert(ps[j].id != id);
        }
        lemma_contrib_single(rest, k, id);
        assert(ps.last().id != id);
    }
}

/// An identifier never reported contributes nothing.
proof fn lemma_contrib_zero(ps: Seq<PlayerView>, id: Seq<char>)
    requires
        forall|j: int| 0 <= j < ps.len() ==> (#[trigger] ps[j]).id != id,
    ensures
        spec_goals_contrib(ps, id) == 0,
        spec_assists_contrib(ps, id) == 0,
    decreases ps.len(),
{
    if ps.len() > 0 {
        assert forall|j: int| 0 <= j < ps.drop_last().len() implies (
        #[trigger] ps.drop_last()[j]).id != id by {
            assert(ps[j].id != id);
        }
        lemma_contrib_zero(ps.drop_last(), id);
    }
}

/// Law: a response inserting a player whose identifier was unknown records
/// exactly the record's snapshot as its season totals, not its double.
pub proof fn lemma_new_player_first_contribution(r: CompetitorView, k: int, id: Seq<char>)
    requires
        0 <= k < r.players.len(),
        r.players[k].id == id,
        forall|j: int| 0 <= j < r.players.len() && j != k ==> (#[trigger] r.players[j]).id != id,
    ensures
        spec_has_player(spec_merge_response(Seq::empty(), r), id),
        spec_season_goals_of(spec_merge_response(Seq::empty(), r), id)
            == r.players[k].statistics.goals_scored,
        spec_season_assists_of(spec_merge_response(Seq::empty(), r), id)
            == r.players[k].statistics.assists,
{
    let empty = Seq::<PlayerView>::empty();
    let team = TeamView { id: r.id, name: r.name };
    lemma_merge_players_stats(empty, team, r.players, id);
    lemma_contrib_single(r.players, k, id);
    assert(spec_mentions(r.players, id));
}

/// Law: a failed fetch contributes nothing to the merge; dropping it from
/// the outcome list leaves the merged map unchanged.
pub proof fn lemma_failed_outcome_contributes_nothing(
    s: Seq<PlayerView>,
    os: Seq<Option<CompetitorView>>,
    k: int,
)
    requires
        0 <= k < os.len(),
        os[k] is None,
    ensures
        spec_merge_outcomes(s, os) == spec_merge_outcomes(s, os.remove(k)),
    decreases os.len(),
{
    if k == os.len() - 1 {
        assert(os.remove(k) =~= os.drop_last());
    } else {
        assert(os.remove(k).drop_last() =~= os.drop_last().remove(k));
        assert(os.remove(k).last() == os.last());
        lemma_failed_outcome_contributes_nothing(s, os.drop_last(), k);
    }
}

/// The map keyed by player identifier that the aggregation fills: at most
/// one entry for each distinct identifier.
pub struct PlayerMap {
    entries: Vec<Player>,
}

impl View for PlayerMap {
    type V = Seq<PlayerView>;

    closed spec fn view(&self) -> Seq<PlayerView> {
        self.entries.deep_view()
    }
}

impl Clone for PlayerMap {
    fn clone(&self) -> (r: Self)
        ensures
            r@ == self@,
    {
        let r = PlayerMap { entries: self.entries.clone() };
        proof {
            assert forall|i: int| 0 <= i < self.entries.len() implies r.entries.deep_view()[i]
                == self.entries.deep_view()[i] by {}
            assert(r.entries.deep_view() =~= self.entries.deep_view());
        }
        r
    }
}

/// Finds the first entry carrying the identifier, or the length when none
/// does.
fn find_player_index(entries: &Vec<Player>, id: &String) -> (j: usize)
    ensures
        j as int == spec_player_index(entries.deep_view(), id@),
{
    let ghost s = entries.deep_view();
    let mut j: usize = 0;
    while j < entries.len()
        invariant
            0 <= j <= entries.len(),
            s == entries.deep_view(),
            forall|k: int| 0 <= k < j ==> (#[trigger] s[k]).id != id@,
        decreases entries.len() - j,
    {
        if entries[j].id == *id {
            proof {
                lemma_player_index(s, id@);
                assert(s[j as int].id == id@);
                assert(spec_has_player(s, id@));
                if spec_player_index(s, id@) < j as int {
                    assert(s[spec_player_index(s, id@)].id != id@);
                }
                if spec_player_index(s, id@) > j as int {
                    assert(s[j as int].id != id@);
                }
            }
            return j;
        }
        j = j + 1;
    }
    proof {
        lemma_player_index(s, id@);
        if spec_has_player(s, id@) {
            let k = choose|k: int| 0 <= k < s.len() && s[k].id == id@;
            assert(s[k].id != id@);
        }
    }
    j
}

impl PlayerMap {
    /// Distinct identifiers throughout the entries.
    pub open spec fn wf(&self) -> bool {
        spec_unique_ids(self@)
    }

    /// The empty map.
    pub fn new() -> (r: PlayerMap)
        ensures
            r@ == Seq::<PlayerView>::empty(),
            r.wf(),
    {
        let r = PlayerMap { entries: Vec::new() };
        proof {
            assert(r@ =~= Seq::<PlayerView>::empty());
        }
        r
    }

    /// How many players the map holds.
    pub fn len(&self) -> (r: usize)
        ensures
            r == self@.len(),
    {
        self.entries.len()
    }

    /// Whether a player with this identifier is recorded.
    pub fn contains_id(&self, id: &String) -> (r: bool)
        ensures
            r == spec_has_player(self@, id@),
    {
        let j = find_player_index(&self.entries, id);
        proof {
            lemma_player_index(self@, id@);
        }
        j < self.entries.len()
    }

    /// The recorded player with this identifier, if any.
    pub fn get(&self, id: &String) -> (r: Option<&Player>)
        ensures
            match r {
                Some(p) => spec_has_player(self@, id@) && p@ == self@[spec_player_index(
                    self@,
                    id@,
                )],
                None => !spec_has_player(self@, id@),
            },
    {
        let j = find_player_index(&self.entries, id);
        proof {
            lemma_player_index(self@, id@);
        }
        if j < self.entries.len() {
            Some(&self.entries[j])
        } else {
            None
        }
    }

    /// All recorded players, in insertion order.
    pub fn players(&self) -> (r: Vec<Player>)
        ensures
            r.deep_view() == self@,
    {
        let r = self.entries.clone();
        proof {
            assert forall|i: int| 0 <= i < self.entries.len() implies r.deep_view()[i]
                == self.entries.deep_view()[i] by {}
            assert(r.deep_view() =~= self.entries.deep_view());
        }
        r
    }

    /// Merges one statistics response: every reported player is assigned the
    /// response's competitor identity and inserted or accumulated.
    pub fn apply_response(&mut self, response: &CompetitorStatisticsApiResponse)
        requires
            old(self).wf(),
        ensures
            final(self)@ == spec_merge_response(old(self)@, response@),
            final(self).wf(),
    {
        let ghost orig = self@;
        let ghost team_v = TeamView { id: response@.id, name: response@.name };
        let ghost ps = response@.players;
        let team = Team::construct(response.competitor.id.clone(), response.competitor.name.clone());
        proof {
            assert(team@ =~= team_v);
        }
        let records = &response.competitor.players;
        let mut idx: usize = 0;
        while idx < records.len()
            invariant
                0 <= idx <= records.len(),
                team@ == team_v,
                ps == records.deep_view(),
                self@ == spec_merge_players(orig, team_v, ps.take(idx as int)),
                spec_unique_ids(orig),
            decreases records.len() - idx,
        {
            let ghost taken = ps.take(idx as int);
            let ghost extended = ps.take(idx + 1);
            proof {
                assert(extended.drop_last() =~= taken);
                assert(extended.last() == ps[idx as int]);
            }
            let mut record = records[idx].clone();
            record.assign_team(&team);
            proof {
                assert(records.deep_view()[idx as int] == records[idx as int]@);
                assert(record@ =~= (PlayerView { team: team_v, ..ps[idx as int] }));
            }
            let ghost before = self@;
            let pos = find_player_index(&self.entries, &record.id);
            proof {
                lemma_player_index(before, ps[idx as int].id);
            }
            if pos < self.entries.len() {
                let entry = &mut self.entries[pos];
                entry.absorb_record(&record);
                proof {
                    assert(self@ =~= spec_merge_player(before, team_v, ps[idx as int]));
                }
            } else {
                let mut fresh_entry = record;
                fresh_entry.season_statistics = fresh_entry.statistics;
                self.entries.push(fresh_entry);
                proof {
                    assert(self@ =~= before.push(
                        PlayerView {
                            team: team_v,
                            season_statistics: ps[idx as int].statistics,
                            ..ps[idx as int]
                        },
                    ));
                    assert(self@ =~= spec_merge_player(before, team_v, ps[idx as int]));
                }
            }
            idx = idx + 1;
        }
        proof {
            assert(ps.take(records.len() as int) =~= ps);
            lemma_merge_players_unique(orig, team_v, ps);
        }
    }

    /// Merges every settled fetch outcome in the order given: successes are
    /// merged, failures are skipped and contribute nothing.
    pub fn apply_outcomes(&mut self, outcomes: &Vec<Result<CompetitorStatisticsApiResponse, String>>)
        requires
            old(self).wf(),
        ensures
            final(self)@ == spec_merge_outcomes(old(self)@, spec_outcome_views(outcomes@)),
            final(self).wf(),
    {
        let ghost orig = self@;
        let mut idx: usize = 0;
        while idx < outcomes.len()
            invariant
                0 <= idx <= outcomes.len(),
                self@ == spec_merge_outcomes(
                    orig,
                    spec_outcome_views(outcomes@.take(idx as int)),
                ),
                self.wf(),
            decreases outcomes.len() - idx,
        {
            let ghost taken = outcomes@.take(idx as int);
            let ghost extended = outcomes@.take(idx + 1);
            proof {
                assert(extended.drop_last() =~= taken);
                assert(extended.last() == outcomes@[idx as int]);
                assert(spec_outcome_views(extended).drop_last() =~= spec_outcome_views(taken));
            }
            match &outcomes[idx] {
                Ok(response) => {
                    self.apply_response(response);
                }
                Err(_) => {}
            }
            proof {
                assert(spec_outcome_views(extended).last() == spec_outcome_view(
                    outcomes@[idx as int],
                ));
            }
            idx = idx + 1;
        }
        proof {
            assert(outcomes@.take(outcomes.len() as int) =~= outcomes@);
        }
    }
}

/// Builds the season's player map from the settled per-competitor fetch
/// outcomes alone: no failure is propagated, the successes are merged in
/// order and the failures skipped.
pub fn merge_statistics_outcomes(
    outcomes: &Vec<Result<CompetitorStatisticsApiResponse, String>>,
) -> (r: PlayerMap)
    ensures
        r@ == spec_merge_outcomes(
            Seq::<PlayerView>::empty(),
            spec_outcome_views(outcomes@),
        ),
        r.wf(),
{
    let mut map = PlayerMap::new();
    map.apply_outcomes(outcomes);
    map
}

} // verus!
