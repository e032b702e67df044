//! The ranker: a stable descending sort of the accumulated players by a
//! chosen metric, truncated to the requested count.

use crate::aggregate::PlayerMap;
use crate::domain::Player;
use crate::domain::PlayerView;
use crate::domain::Players;
use vstd::prelude::*;

verus! {

/// The accumulated season value the ranking is asked for.
pub open spec fn spec_metric(kind: Players, p: PlayerView) -> u8 {
    match kind {
        Players::TopGoalScorers => p.season_statistics.goals_scored,
        Players::TopAssistants => p.season_statistics.assists,
    }
}

/// The accumulated season value the ranking is asked for.
pub fn metric_value(kind: Players, p: &Player) -> (r: u8)
    ensures
        r == spec_metric(kind, p@),
{
    match kind {
        Players::TopGoalScorers => p.season_statistics.goals_scored,
        Players::TopAssistants => p.season_statistics.assists,
    }
}

/// Places a player into a list sorted by metric descending, after every
/// entry whose metric is greater or equal: the stable insertion step.
pub open spec fn spec_insert_player_desc(
    kind: Players,
    x: PlayerView,
    t: Seq<PlayerView>,
) -> Seq<PlayerView>
    decreases t.len(),
{
    if t.len() == 0 {
        seq![x]
    } else if spec_metric(kind, x) <= spec_metric(kind, t[0]) {
        seq![t[0]] + spec_insert_player_desc(kind, x, t.skip(1))
    } else {
        seq![x] + t
    }
}

/// Stable sort of players by metric descending over the map's insertion
/// order: later entries go after the equal-metric entries before them, so
/// ties are broken reproducibly.
pub open spec fn spec_sort_players_desc(kind: Players, s: Seq<PlayerView>) -> Seq<PlayerView>
    decreases s.len(),
{
    if s.len() == 0 {
        Seq::empty()
    } else {
        spec_insert_player_desc(kind, s.last(), spec_sort_players_desc(kind, s.drop_last()))
    }
}

/// What `top_by_metric` returns: the sorted players, truncated to the limit.
pub open spec fn spec_top_by_metric(kind: Players, s: Seq<PlayerView>, limit: int) -> Seq<
    PlayerView,
> {
    let sorted = spec_sort_players_desc(kind, s);
    if limit < sorted.len() {
        sorted.take(limit)
    } else {
        sorted
    }
}

/// Whether a player list is sorted by the metric descending.
pub open spec fn players_sorted_desc(kind: Players, s: Seq<PlayerView>) -> bool {
    forall|i: int, j: int|
        0 <= i < j < s.len() ==> spec_metric(kind, #[trigger] s[j]) <= spec_metric(
            kind,
            #[trigger] s[i],
        )
}

/// Inserting adds exactly the new player to the list's members.
proof fn lemma_insert_player_members(kind: Players, x: PlayerView, t: Seq<PlayerView>)
    ensures
        spec_insert_player_desc(kind, x, t).len() == t.len() + 1,
        forall|y: PlayerView| #[trigger]
            spec_insert_player_desc(kind, x, t).contains(y) <==> (y == x || t.contains(y)),
    decreases t.len(),
{
    let u = spec_insert_player_desc(kind, x, t);
    if t.len() == 0 {
        assert forall|y: PlayerView| #[trigger] u.contains(y) implies (y == x || t.contains(
            y,
        )) by {
            let k = choose|k: int| 0 <= k < u.len() && u[k] == y;
        }
        assert(u[0] == x);
    } else if spec_metric(kind, x) <= spec_metric(kind, t[0]) {
        lemma_insert_player_members(kind, x, t.skip(1));
        let v = spec_insert_player_desc(kind, x, t.skip(1));
        assert forall|y: PlayerView| #[trigger] u.contains(y) implies (y == x || t.contains(
            y,
        )) by {
            let k = choose|k: int| 0 <= k < u.len() && u[k] == y;
            if k == 0 {
                assert(t.contains(t[0]));
            } else {
                assert(v.contains(u[k]));
                if t.skip(1).contains(y) {
                    let m = choose|m: int| 0 <= m < t.skip(1).len() && t.skip(1)[m] == y;
                    assert(t[m + 1] == y);
                }
            }
        }
        assert forall|y: PlayerView| y == x || t.contains(y) implies #[trigger] u.contains(y) by {
            if y == x {
                assert(v.contains(x));
                let m = choose|m: int| 0 <= m < v.len() && v[m] == y;
                assert(u[m + 1] == y);
            } else {
                let k = choose|k: int| 0 <= k < t.len() && t[k] == y;
                if k == 0 {
                    assert(u[0] == y);
                } else {
                    assert(t.skip(1)[k - 1] == y);
                    assert(v.contains(y));
                    let m = choose|m: int| 0 <= m < v.len() && v[m] == y;
                    assert(u[m + 1] == y);
                }
            }
        }
    } else {
        assert forall|y: PlayerView| #[trigger] u.contains(y) implies (y == x || t.contains(
            y,
        )) by {
            let k = choose|k: int| 0 <= k < u.len() && u[k] == y;
            if k > 0 {
                assert(t[k - 1] == y);
            }
        }
        assert forall|y: PlayerView| y == x || t.contains(y) implies #[trigger] u.contains(y) by {
            if y == x {
                assert(u[0] == y);
            } else {
                let k = choose|k: int| 0 <= k < t.len() && t[k] == y;
                assert(u[k + 1] == y);
            }
        }
    }
}

/// Inserting into a descending-sorted list keeps it sorted.
proof fn lemma_insert_player_sorted(kind: Players, x: PlayerView, t: Seq<PlayerView>)
    requires
        players_sorted_desc(kind, t),
    ensures
        players_sorted_desc(kind, spec_insert_player_desc(kind, x, t)),
    decreases t.len(),
{
    let u = spec_insert_player_desc(kind, x, t);
    if t.len() == 0 {
    } else if spec_metric(kind, x) <= spec_metric(kind, t[0]) {
        assert(players_sorted_desc(kind, t.skip(1)));
        lemma_insert_player_sorted(kind, x, t.skip(1));
        lemma_insert_player_members(kind, x, t.skip(1));
        let v = spec_insert_player_desc(kind, x, t.skip(1));
        assert forall|i: int, j: int| 0 <= i < j < u.len() implies spec_metric(
            kind,
            #[trigger] u[j],
        ) <= spec_metric(kind, #[trigger] u[i]) by {
            if i == 0 {
                let y = u[j];
                assert(v.contains(v[j - 1]));
                if v[j - 1] == x {
                } else {
                    let m = choose|m: int| 0 <= m < t.skip(1).len() && t.skip(1)[m] == y;
                    assert(t[m + 1] == y);
                    assert(spec_metric(kind, t[m + 1]) <= spec_metric(kind, t[0]));
                }
            } else {
                assert(spec_metric(kind, v[j - 1]) <= spec_metric(kind, v[i - 1]));
            }
        }
    } else {
        assert forall|i: int, j: int| 0 <= i < j < u.len() implies spec_metric(
            kind,
            #[trigger] u[j],
        ) <= spec_metric(kind, #[trigger] u[i]) by {
            if i == 0 {
                assert(u[j] == t[j - 1]);
                if j > 1 {
                    assert(spec_metric(kind, t[j - 1]) <= spec_metric(kind, t[0]));
                }
            } else {
                assert(spec_metric(kind, t[j - 1]) <= spec_metric(kind, t[i - 1]));
            }
        }
    }
}

/// Sorting keeps exactly the members of the input, with the input's length,
/// and orders them by the metric descending.
pub proof fn lemma_sort_players_desc(kind: Players, s: Seq<PlayerView>)
    ensures
        spec_sort_players_desc(kind, s).len() == s.len(),
        players_sorted_desc(kind, spec_sort_players_desc(kind, s)),
        forall|y: PlayerView| #[trigger]
            spec_sort_players_desc(kind, s).contains(y) <==> s.contains(y),
    decreases s.len(),
{
    broadcast use vstd::seq_lib::lemma_seq_contains_after_push;

    if s.len() > 0 {
        lemma_sort_players_desc(kind, s.drop_last());
        lemma_insert_player_sorted(kind, s.last(), spec_sort_players_desc(kind, s.drop_last()));
        lemma_insert_player_members(kind, s.last(), spec_sort_players_desc(kind, s.drop_last()));
        assert(s =~= s.drop_last().push(s.last()));
    }
}

/// Law: the ranking holds the first `limit` players of the descending
/// reordering of the map: its length is the smaller of `limit` and the
/// player count, it is sorted by the metric descending, every ranked player
/// stands in the map, and no unranked player beats a ranked one.
pub proof fn lemma_top_by_metric_law(kind: Players, s: Seq<PlayerView>, limit: int)
    requires
        limit >= 0,
    ensures
        spec_top_by_metric(kind, s, limit).len() == if limit < s.len() {
            limit
        } else {
            s.len() as int
        },
        players_sorted_desc(kind, spec_top_by_metric(kind, s, limit)),
        forall|y: PlayerView| #[trigger]
            spec_top_by_metric(kind, s, limit).contains(y) ==> s.contains(y),
        forall|i: int, j: int|
            0 <= i < spec_top_by_metric(kind, s, limit).len() && spec_top_by_metric(
                kind,
                s,
                limit,
            ).len() <= j < s.len() ==> spec_metric(
                kind,
                #[trigger] spec_sort_players_desc(kind, s)[j],
            ) <= spec_metric(kind, #[trigger] spec_top_by_metric(kind, s, limit)[i]),
{
    let sorted = spec_sort_players_desc(kind, s);
    let top = spec_top_by_metric(kind, s, limit);
    lemma_sort_players_desc(kind, s);
    assert forall|y: PlayerView| #[trigger] top.contains(y) implies s.contains(y) by {
        let k = choose|k: int| 0 <= k < top.len() && top[k] == y;
        assert(sorted[k] == y);
        assert(sorted.contains(y));
    }
}

/// Sorts the map's players by the chosen accumulated metric, descending and
/// stable over the map's insertion order, and keeps the first `limit`.
pub fn top_by_metric(players: &PlayerMap, kind: Players, limit: usize) -> (r: Vec<Player>)
    ensures
        r.deep_view() == spec_top_by_metric(kind, players@, limit as int),
{
    let entries = players.players();
    let mut sorted: Vec<Player> = Vec::new();
    let mut i: usize = 0;
    while i < entries.len()
        invariant
            0 <= i <= entries.len(),
            entries.deep_view() == players@,
            sorted.deep_view() == spec_sort_players_desc(kind, players@.take(i as int)),
        decreases entries.len() - i,
    {
        let ghost taken = players@.take(i as int);
        let ghost extended = players@.take(i + 1);
        proof {
            assert(extended.drop_last() =~= taken);
            assert(extended.last() == players@[i as int]);
        }
        insert_player_desc(&mut sorted, kind, entries[i].clone());
        i = i + 1;
    }
    proof {
        assert(players@.take(players@.len() as int) =~= players@);
        lemma_sort_players_desc(kind, players@);
    }
    sorted.truncate(limit);
    proof {
        let full = spec_sort_players_desc(kind, players@);
        if limit < full.len() {
            assert(sorted.deep_view() =~= full.take(limit as int));
        }
    }
    sorted
}

/// Finds the place of a player in a descending list and narrows the spec
/// insertion to a concrete position.
proof fn lemma_insert_player_at(kind: Players, x: PlayerView, t: Seq<PlayerView>, j: int)
    requires
        0 <= j <= t.len(),
        forall|k: int| 0 <= k < j ==> spec_metric(kind, x) <= spec_metric(kind, #[trigger] t[k]),
        j < t.len() ==> !(spec_metric(kind, x) <= spec_metric(kind, t[j])),
    ensures
        spec_insert_player_desc(kind, x, t) == t.insert(j, x),
    decreases j,
{
    if j == 0 {
        assert(spec_insert_player_desc(kind, x, t) =~= t.insert(0, x));
    } else {
        lemma_insert_player_at(kind, x, t.skip(1), j - 1);
        assert(spec_insert_player_desc(kind, x, t) == seq![t[0]] + t.skip(1).insert(j - 1, x));
        assert(seq![t[0]] + t.skip(1).insert(j - 1, x) =~= t.insert(j, x));
    }
}

/// Inserts a player into a vector sorted by metric descending, after every
/// entry whose metric is greater or equal.
fn insert_player_desc(out: &mut Vec<Player>, kind: Players, x: Player)
    ensures
        final(out).deep_view() == spec_insert_player_desc(kind, x@, old(out).deep_view()),
{
    let key = metric_value(kind, &x);
    let mut j: usize = 0;
    while j < out.len() && key <= metric_value(kind, &out[j])
        invariant
            0 <= j <= out.len(),
            key == spec_metric(kind, x@),
            forall|k: int|
                0 <= k < j ==> spec_metric(kind, x@) <= spec_metric(
                    kind,
                    #[trigger] out.deep_view()[k],
                ),
        decreases out.len() - j,
    {
        j = j + 1;
    }
    proof {
        lemma_insert_player_at(kind, x@, out.deep_view(), j as int);
    }
    let ghost before = out.deep_view();
    out.insert(j, x);
    proof {
        assert(out.deep_view() =~= before.insert(j as int, x@));
    }
}

} // verus!
