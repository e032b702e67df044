//! Allow-list filtering of competitions and filtering plus descending sort of
//! seasons: the two pure selection steps of the wizard.

use crate::domain::Competition;
use crate::domain::CompetitionSeason;
use crate::domain::CompetitionSeasonView;
use crate::domain::CompetitionView;
use crate::text::lemma_lex_le_total;
use crate::text::lemma_lex_le_trans;
use crate::text::lex_le;
use crate::text::name_listed;
use crate::text::spec_name_listed;
use crate::text::str_le;
use vstd::prelude::*;

verus! {

/// Whether the allow-lists admit a competition: its name and its country's
/// name must both be listed, exactly and case-sensitively.
pub open spec fn spec_competition_allowed(
    c: CompetitionView,
    names: Seq<Seq<char>>,
    countries: Seq<Seq<char>>,
) -> bool {
    spec_name_listed(names, c.name) && spec_name_listed(countries, c.country.name)
}

/// Decides whether the vector already holds a competition equal to this one.
fn competitions_contain(v: &Vec<Competition>, c: &Competition) -> (r: bool)
    ensures
        r == v.deep_view().contains(c@),
{
    let mut i: usize = 0;
    while i < v.len()
        invariant
            0 <= i <= v.len(),
            forall|j: int| 0 <= j < i ==> v.deep_view()[j] != c@,
        decreases v.len() - i,
    {
        if v[i] == *c {
            assert(v.deep_view()[i as int] == c@);
            return true;
        }
        i = i + 1;
    }
    false
}

/// Keeps a competition exactly when its name stands in the competition
/// allow-list and its country's name in the country allow-list, without
/// duplicates in the result.
pub fn filter_competitions(
    all: &Vec<Competition>,
    allowed_competitions: &Vec<String>,
    allowed_countries: &Vec<String>,
) -> (r: Vec<Competition>)
    ensures
        forall|c: CompetitionView| #[trigger]
            r.deep_view().contains(c) <==> (all.deep_view().contains(c)
                && spec_competition_allowed(
                c,
                allowed_competitions.deep_view(),
                allowed_countries.deep_view(),
            )),
        forall|i: int, j: int|
            0 <= i < j < r.deep_view().len() ==> r.deep_view()[i] != r.deep_view()[j],
{
    broadcast use vstd::seq_lib::lemma_seq_contains_after_push;

    let ghost names = allowed_competitions.deep_view();
    let ghost countries = allowed_countries.deep_view();
    let mut out: Vec<Competition> = Vec::new();
    let mut i: usize = 0;
    while i < all.len()
        invariant
            0 <= i <= all.len(),
            names == allowed_competitions.deep_view(),
            countries == allowed_countries.deep_view(),
            forall|c: CompetitionView| #[trigger]
                out.deep_view().contains(c) <==> (all.deep_view().take(i as int).contains(c)
                    && spec_competition_allowed(c, names, countries)),
            forall|p: int, q: int|
                0 <= p < q < out.deep_view().len() ==> out.deep_view()[p] != out.deep_view()[q],
        decreases all.len() - i,
    {
        let ghost taken = all.deep_view().take(i as int);
        let ghost extended = all.deep_view().take(i + 1);
        proof {
            assert(extended =~= taken.push(all.deep_view()[i as int]));
        }
        let cand = &all[i];
        let ghost taken_out = out.deep_view();
        proof {
            assert(all.deep_view()[i as int] == cand@);
        }
        let name_ok = name_listed(allowed_competitions, &cand.name);
        let country_ok = name_listed(allowed_countries, &cand.country.name);
        if name_ok && country_ok {
            if !competitions_contain(&out, cand) {
                let ghost before = out.deep_view();
                out.push(cand.clone());
                proof {
                    assert(out.deep_view() =~= before.push(cand@));
                }
            }
        }
        proof {
            let now = out.deep_view();
            assert forall|c: CompetitionView| #[trigger] now.contains(c) implies (
            extended.contains(c) && spec_competition_allowed(c, names, countries)) by {
                let k = choose|k: int| 0 <= k < now.len() && now[k] == c;
                if k < taken_out.len() {
                    assert(taken_out[k] == c);
                    assert(taken_out.contains(c));
                    let m = choose|m: int| 0 <= m < taken.len() && taken[m] == c;
                    assert(extended[m] == c);
                } else {
                    assert(c == cand@);
                    assert(extended[i as int] == c);
                }
            }
            assert forall|c: CompetitionView|
                extended.contains(c) && spec_competition_allowed(c, names, countries)
                implies #[trigger] now.contains(c) by {
                let k = choose|k: int| 0 <= k < extended.len() && extended[k] == c;
                if k < i {
                    assert(taken[k] == c);
                    assert(taken.contains(c));
                    assert(taken_out.contains(c));
                    let m = choose|m: int| 0 <= m < taken_out.len() && taken_out[m] == c;
                    assert(now[m] == c);
                } else {
                    assert(c == cand@);
                    if now.len() > taken_out.len() {
                        assert(now[now.len() - 1] == c);
                    }
                }
            }
        }
        i = i + 1;
    }
    proof {
        assert(all.deep_view().take(all.len() as int) =~= all.deep_view());
    }
    out
}

/// The seasons that may be offered: those not administratively disabled, in
/// their original order.
pub open spec fn spec_enabled_seasons(s: Seq<CompetitionSeasonView>) -> Seq<CompetitionSeasonView>
    decreases s.len(),
{
    if s.len() == 0 {
        Seq::empty()
    } else if !s.last().disabled {
        spec_enabled_seasons(s.drop_last()).push(s.last())
    } else {
        spec_enabled_seasons(s.drop_last())
    }
}

/// The enabled-season list holds a season exactly when the input holds it and
/// it is enabled.
proof fn lemma_enabled_seasons_members(s: Seq<CompetitionSeasonView>)
    ensures
        forall|y: CompetitionSeasonView| #[trigger]
            spec_enabled_seasons(s).contains(y) <==> (s.contains(y) && !y.disabled),
    decreases s.len(),
{
    if s.len() > 0 {
        let d = s.drop_last();
        let e = spec_enabled_seasons(s);
        let f = spec_enabled_seasons(d);
        lemma_enabled_seasons_members(d);
        assert forall|y: CompetitionSeasonView| #[trigger] e.contains(y) implies (s.contains(y)
            && !y.disabled) by {
            let k = choose|k: int| 0 <= k < e.len() && e[k] == y;
            if !s.last().disabled && k == e.len() - 1 {
                assert(s[s.len() - 1] == y);
            } else {
                assert(f[k] == y);
                assert(f.contains(y));
                let m = choose|m: int| 0 <= m < d.len() && d[m] == y;
                assert(s[m] == y);
            }
        }
        assert forall|y: CompetitionSeasonView| s.contains(y) && !y.disabled implies #[trigger] e.contains(
            y,
        ) by {
            let k = choose|k: int| 0 <= k < s.len() && s[k] == y;
            if k == s.len() - 1 {
                assert(e[e.len() - 1] == y);
            } else {
                assert(d[k] == y);
                assert(d.contains(y));
                assert(spec_enabled_seasons(d).contains(y));
                let m = choose|m: int| 0 <= m < f.len() && f[m] == y;
                assert(e[m] == y);
            }
        }
    }
}

/// Places a season into a list sorted by name descending, after every entry
/// whose name is greater or equal: the stable insertion step.
pub open spec fn spec_insert_season_desc(
    x: CompetitionSeasonView,
    t: Seq<CompetitionSeasonView>,
) -> Seq<CompetitionSeasonView>
    decreases t.len(),
{
    if t.len() == 0 {
        seq![x]
    } else if lex_le(x.name, t[0].name) {
        seq![t[0]] + spec_insert_season_desc(x, t.skip(1))
    } else {
        seq![x] + t
    }
}

/// Stable sort of seasons by name descending: later entries are inserted
/// after the equal-named entries that came before them.
pub open spec fn spec_sort_seasons_desc(
    s: Seq<CompetitionSeasonView>,
) -> Seq<CompetitionSeasonView>
    decreases s.len(),
{
    if s.len() == 0 {
        Seq::empty()
    } else {
        spec_insert_season_desc(s.last(), spec_sort_seasons_desc(s.drop_last()))
    }
}

/// What `filter_and_sort_seasons` returns: the enabled seasons, stably sorted
/// by name descending.
pub open spec fn spec_filter_and_sort_seasons(
    s: Seq<CompetitionSeasonView>,
) -> Seq<CompetitionSeasonView> {
    spec_sort_seasons_desc(spec_enabled_seasons(s))
}

/// Whether a season list is sorted by name descending.
pub open spec fn seasons_sorted_desc(s: Seq<CompetitionSeasonView>) -> bool {
    forall|i: int, j: int| 0 <= i < j < s.len() ==> lex_le(#[trigger] s[j].name, #[trigger] s[i].name)
}

/// Inserting adds exactly the new season to the list's members.
proof fn lemma_insert_season_members(x: CompetitionSeasonView, t: Seq<CompetitionSeasonView>)
    ensures
        spec_insert_season_desc(x, t).len() == t.len() + 1,
        forall|y: CompetitionSeasonView| #[trigger]
            spec_insert_season_desc(x, t).contains(y) <==> (y == x || t.contains(y)),
    decreases t.len(),
{
    broadcast use vstd::seq_lib::lemma_seq_contains_after_push;

    let u = spec_insert_season_desc(x, t);
    if t.len() == 0 {
        assert(u =~= Seq::empty().push(x));
    } else if lex_le(x.name, t[0].name) {
        lemma_insert_season_members(x, t.skip(1));
        let v = spec_insert_season_desc(x, t.skip(1));
        assert forall|y: CompetitionSeasonView| #[trigger] u.contains(y) implies (y == x
            || t.contains(y)) by {
            let k = choose|k: int| 0 <= k < u.len() && u[k] == y;
            if k == 0 {
                assert(t.contains(t[0]));
            } else {
                assert(v.contains(u[k]));
                if t.skip(1).contains(y) {
                    let m = choose|m: int| 0 <= m < t.skip(1).len() && t.skip(1)[m] == y;
                    assert(t[m + 1] == y);
                }
            }
        }
        assert forall|y: CompetitionSeasonView| y == x || t.contains(y) implies #[trigger] u.contains(
            y,
        ) by {
            if y == x {
                assert(v.contains(x));
                let m = choose|m: int| 0 <= m < v.len() && v[m] == y;
                assert(u[m + 1] == y);
            } else {
                let k = choose|k: int| 0 <= k < t.len() && t[k] == y;
                if k == 0 {
                    assert(u[0] == y);
                } else {
                    assert(t.skip(1)[k - 1] == y);
                    assert(v.contains(y));
                    let m = choose|m: int| 0 <= m < v.len() && v[m] == y;
                    assert(u[m + 1] == y);
                }
            }
        }
    } else {
        assert forall|y: CompetitionSeasonView| #[trigger] u.contains(y) implies (y == x
            || t.contains(y)) by {
            let k = choose|k: int| 0 <= k < u.len() && u[k] == y;
            if k > 0 {
                assert(t[k - 1] == y);
            }
        }
        assert forall|y: CompetitionSeasonView| y == x || t.contains(y) implies #[trigger] u.contains(
            y,
        ) by {
            if y == x {
                assert(u[0] == y);
            } else {
                let k = choose|k: int| 0 <= k < t.len() && t[k] == y;
                assert(u[k + 1] == y);
            }
        }
    }
}

/// Inserting into a descending-sorted list keeps it sorted.
proof fn lemma_insert_season_sorted(x: CompetitionSeasonView, t: Seq<CompetitionSeasonView>)
    requires
        seasons_sorted_desc(t),
    ensures
        seasons_sorted_desc(spec_insert_season_desc(x, t)),
    decreases t.len(),
{
    let u = spec_insert_season_desc(x, t);
    if t.len() == 0 {
    } else if lex_le(x.name, t[0].name) {
        assert(seasons_sorted_desc(t.skip(1)));
        lemma_insert_season_sorted(x, t.skip(1));
        lemma_insert_season_members(x, t.skip(1));
        let v = spec_insert_season_desc(x, t.skip(1));
        assert forall|i: int, j: int| 0 <= i < j < u.len() implies lex_le(
            #[trigger] u[j].name,
            #[trigger] u[i].name,
        ) by {
            if i == 0 {
                let y = u[j];
                assert(v.contains(v[j - 1]));
                if v[j - 1] == x {
                } else {
                    let m = choose|m: int| 0 <= m < t.skip(1).len() && t.skip(1)[m] == y;
                    assert(t[m + 1] == y);
                    assert(lex_le(t[m + 1].name, t[0].name));
                }
            } else {
                assert(lex_le(v[j - 1].name, v[i - 1].name));
            }
        }
    } else {
        lemma_lex_le_total(x.name, t[0].name);
        assert forall|i: int, j: int| 0 <= i < j < u.len() implies lex_le(
            #[trigger] u[j].name,
            #[trigger] u[i].name,
        ) by {
            if i == 0 {
                assert(u[j] == t[j - 1]);
                if j == 1 {
                    assert(lex_le(t[0].name, x.name));
                } else {
                    assert(lex_le(t[j - 1].name, t[0].name));
                    lemma_lex_le_trans(t[j - 1].name, t[0].name, x.name);
                }
            } else {
                assert(lex_le(t[j - 1].name, t[i - 1].name));
            }
        }
    }
}

/// Sorting keeps exactly the members of the input and orders them by name
/// descending.
proof fn lemma_sort_seasons_desc(s: Seq<CompetitionSeasonView>)
    ensures
        spec_sort_seasons_desc(s).len() == s.len(),
        seasons_sorted_desc(spec_sort_seasons_desc(s)),
        forall|y: CompetitionSeasonView| #[trigger]
            spec_sort_seasons_desc(s).contains(y) <==> s.contains(y),
    decreases s.len(),
{
    broadcast use vstd::seq_lib::lemma_seq_contains_after_push;

    if s.len() > 0 {
        lemma_sort_seasons_desc(s.drop_last());
        lemma_insert_season_sorted(s.last(), spec_sort_seasons_desc(s.drop_last()));
        lemma_insert_season_members(s.last(), spec_sort_seasons_desc(s.drop_last()));
        assert(s =~= s.drop_last().push(s.last()));
    }
}

/// Law: the season list offered for selection holds no disabled season, is
/// sorted by name descending, and holds a season exactly when the fetched
/// list holds it and it is enabled.
pub proof fn lemma_filter_and_sort_seasons_law(all: Seq<CompetitionSeasonView>)
    ensures
        seasons_sorted_desc(spec_filter_and_sort_seasons(all)),
        forall|i: int|
            0 <= i < spec_filter_and_sort_seasons(all).len() ==> !(
            #[trigger] spec_filter_and_sort_seasons(all)[i]).disabled,
        forall|y: CompetitionSeasonView| #[trigger]
            spec_filter_and_sort_seasons(all).contains(y) <==> (all.contains(y) && !y.disabled),
{
    let f = spec_enabled_seasons(all);
    let out = spec_filter_and_sort_seasons(all);
    lemma_sort_seasons_desc(f);
    lemma_enabled_seasons_members(all);
    assert forall|i: int| 0 <= i < out.len() implies !(#[trigger] out[i]).disabled by {
        assert(out.contains(out[i]));
    }
}

/// Finds the place of a season in a descending list and narrows the spec
/// insertion to a concrete position.
proof fn lemma_insert_season_at(x: CompetitionSeasonView, t: Seq<CompetitionSeasonView>, j: int)
    requires
        0 <= j <= t.len(),
        forall|k: int| 0 <= k < j ==> lex_le(x.name, (#[trigger] t[k]).name),
        j < t.len() ==> !lex_le(x.name, t[j].name),
    ensures
        spec_insert_season_desc(x, t) == t.insert(j, x),
    decreases j,
{
    if j == 0 {
        assert(spec_insert_season_desc(x, t) =~= t.insert(0, x));
    } else {
        lemma_insert_season_at(x, t.skip(1), j - 1);
        assert(spec_insert_season_desc(x, t) == seq![t[0]] + t.skip(1).insert(j - 1, x));
        assert(seq![t[0]] + t.skip(1).insert(j - 1, x) =~= t.insert(j, x));
    }
}

/// Inserts a season into a vector sorted by name descending, after every
/// entry whose name is greater or equal.
fn insert_season_desc(out: &mut Vec<CompetitionSeason>, x: CompetitionSeason)
    ensures
        final(out).deep_view() == spec_insert_season_desc(x@, old(out).deep_view()),
{
    let mut j: usize = 0;
    while j < out.len() && str_le(x.name.as_str(), out[j].name.as_str())
        invariant
            0 <= j <= out.len(),
            forall|k: int| 0 <= k < j ==> lex_le(x@.name, (#[trigger] out.deep_view()[k]).name),
        decreases out.len() - j,
    {
        j = j + 1;
    }
    proof {
        lemma_insert_season_at(x@, out.deep_view(), j as int);
    }
    let ghost before = out.deep_view();
    out.insert(j, x);
    proof {
        assert(out.deep_view() =~= before.insert(j as int, x@));
    }
}

/// Drops every disabled season and sorts the rest by name in descending
/// lexical order, stably for equal names.
pub fn filter_and_sort_seasons(all: &Vec<CompetitionSeason>) -> (r: Vec<CompetitionSeason>)
    ensures
        r.deep_view() == spec_filter_and_sort_seasons(all.deep_view()),
{
    let mut out: Vec<CompetitionSeason> = Vec::new();
    let mut i: usize = 0;
    while i < all.len()
        invariant
            0 <= i <= all.len(),
            out.deep_view() == spec_sort_seasons_desc(
                spec_enabled_seasons(all.deep_view().take(i as int)),
            ),
        decreases all.len() - i,
    {
        let ghost taken = all.deep_view().take(i as int);
        let ghost extended = all.deep_view().take(i + 1);
        proof {
            assert(extended =~= taken.push(all.deep_view()[i as int]));
            assert(extended.drop_last() =~= taken);
            assert(extended.last() == all.deep_view()[i as int]);
        }
        let s = &all[i];
        if !s.disabled {
            proof {
                let f = spec_enabled_seasons(extended);
                assert(f == spec_enabled_seasons(taken).push(s@));
                assert(f.drop_last() =~= spec_enabled_seasons(taken));
                assert(f.len() > 0);
                assert(f.last() == s@);
            }
            insert_season_desc(&mut out, s.clone());
        } else {
            proof {
                assert(spec_enabled_seasons(extended) == spec_enabled_seasons(taken));
            }
        }
        i = i + 1;
    }
    proof {
        assert(all.deep_view().take(all.len() as int) =~= all.deep_view());
    }
    out
}

} // verus!
