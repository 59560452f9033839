//! Which saved runs and archived artifacts are listed.

use vstd::prelude::*;

use crate::agent_ops_view::archive;
use crate::agent_ops_view::archive::ArchiveItem;
use crate::agent_ops_view::history;
use crate::agent_ops_view::history::RunEntry;
use crate::counting;
use crate::order;
use crate::state::AppState;
use crate::state::SavedRunHistoryFilter;
use crate::text;

verus! {

/// So many days, in microseconds.
pub open spec fn days(n: int) -> int {
    n * 24 * 60 * 60 * 1_000_000
}

/// Whether a filter reaches back to what is `age` microseconds old: a day, a week, thirty days, or
/// as far as there is anything.
pub open spec fn reaches(filter: SavedRunHistoryFilter, age: int) -> bool {
    match filter {
        SavedRunHistoryFilter::All => true,
        SavedRunHistoryFilter::LastDay => age <= days(1),
        SavedRunHistoryFilter::LastWeek => age <= days(7),
        SavedRunHistoryFilter::LastMonth => age <= days(30),
    }
}

/// A filter lets through exactly what it reaches back to, and what has no known age.
pub proof fn filters_reach_back_as_far_as_they_say(
    at: Option<u128>,
    filter: SavedRunHistoryFilter,
    now: u128,
)
    ensures
        history::in_window(at, filter, now) <==> (at is Some ==> reaches(filter, now - at->0)),
{
}

/// A filter that reaches further back shows everything that a narrower one shows.
pub proof fn wider_filters_show_more(at: Option<u128>, now: u128)
    ensures
        history::in_window(at, SavedRunHistoryFilter::LastDay, now) ==> history::in_window(
            at,
            SavedRunHistoryFilter::LastWeek,
            now,
        ),
        history::in_window(at, SavedRunHistoryFilter::LastWeek, now) ==> history::in_window(
            at,
            SavedRunHistoryFilter::LastMonth,
            now,
        ),
        history::in_window(at, SavedRunHistoryFilter::All, now),
{
}

/// Whether a line of the history is to be seen: the current run, the selected one, one of unknown
/// age, and what the filter reaches back to.
pub open spec fn to_be_seen(st: AppState, e: RunEntry) -> bool {
    ||| e.kind is Current
    ||| e.archive_micros is None
    ||| reaches(st.agents.artifacts_history_filter, st.saved.now_micros - e.archive_micros->0)
    ||| e.run_path is Some && st.agents.artifacts_selected_saved_run_path is Some
        && st.agents.artifacts_selected_saved_run_path->0@ == e.run_path->0
}

/// Every line of the history that is to be seen is shown, whichever filter is set.
pub proof fn the_filter_hides_nothing_it_reaches(st: AppState, k: int)
    requires
        0 <= k < history::entries(st).len(),
        to_be_seen(st, history::entries(st)[k]),
    ensures
        history::visible_entries(st).contains(history::entries(st)[k]),
{
    let n: int = history::entries(st).len() as int;
    assert(history::is_visible(st)(k));
    counting::picked_holds(n, history::is_visible(st), k);
    let places: Seq<int> = counting::picked(n, history::is_visible(st));
    let i: int = places.index_of(k);
    assert(history::visible_entries(st)[i] == history::entries(st)[k]);
}

/// Nothing else is shown, and what is shown keeps its order.
pub proof fn the_filter_shows_nothing_else(st: AppState, i: int, j: int)
    requires
        0 <= i < j < history::visible_entries(st).len(),
    ensures
        to_be_seen(st, history::visible_entries(st)[i]),
        to_be_seen(st, history::visible_entries(st)[j]),
        exists|a: int, b: int|
            0 <= a < b < history::entries(st).len() && history::visible_entries(st)[i]
                == #[trigger] history::entries(st)[a] && history::visible_entries(st)[j]
                == #[trigger] history::entries(st)[b],
{
    let n: int = history::entries(st).len() as int;
    let places: Seq<int> = counting::picked(n, history::is_visible(st));
    counting::picked_are_in_order(n, history::is_visible(st));
    let a: int = places[i];
    let b: int = places[j];
    assert(history::is_visible(st)(a) && history::is_visible(st)(b));
    assert(history::visible_entries(st)[i] == history::entries(st)[a]);
    assert(history::visible_entries(st)[j] == history::entries(st)[b]);
}

/// What can be pruned is archived, of an age that the filter reaches or of unknown age; the current
/// run is never pruned.
pub proof fn only_archived_runs_in_reach_are_pruned(st: AppState, i: int)
    requires
        0 <= i < history::prunable_entries(st).len(),
    ensures
        history::prunable_entries(st)[i].kind is Archived,
        history::prunable_entries(st)[i].archive_micros is Some ==> reaches(
            st.agents.artifacts_history_filter,
            st.saved.now_micros - history::prunable_entries(st)[i].archive_micros->0,
        ),
{
    let n: int = history::entries(st).len() as int;
    counting::picked_are_in_order(n, history::is_prunable(st));
    let a: int = counting::picked(n, history::is_prunable(st))[i];
    assert(history::is_prunable(st)(a));
}

/// Every archived run in reach can be pruned.
pub proof fn archived_runs_in_reach_are_pruned(st: AppState, k: int)
    requires
        0 <= k < history::entries(st).len(),
        history::entries(st)[k].kind is Archived,
        history::entries(st)[k].archive_micros is Some ==> reaches(
            st.agents.artifacts_history_filter,
            st.saved.now_micros - history::entries(st)[k].archive_micros->0,
        ),
    ensures
        history::prunable_entries(st).contains(history::entries(st)[k]),
{
    let n: int = history::entries(st).len() as int;
    assert(history::is_prunable(st)(k));
    counting::picked_holds(n, history::is_prunable(st), k);
    let places: Seq<int> = counting::picked(n, history::is_prunable(st));
    let i: int = places.index_of(k);
    assert(history::prunable_entries(st)[i] == history::entries(st)[k]);
}

proof fn every_name_has_a_place(names: Seq<Seq<char>>, n: int, i: int)
    requires
        0 <= i < n <= names.len() <= usize::MAX,
    ensures
        exists|k: int|
            0 <= k < n && #[trigger] order::last_name_first_upto(names, n)[k] == i,
    decreases n,
{
    order::names_are_sorted(names, n);
    order::names_are_sorted(names, n - 1);
    let before: Seq<usize> = order::last_name_first_upto(names, n - 1);
    let now: Seq<usize> = order::last_name_first_upto(names, n);
    let p: int = order::first_less(names, before, names[n - 1], 0);
    order::first_less_in_range(names, before, names[n - 1]);
    if i == n - 1 {
        assert(now[p] == i);
    } else {
        every_name_has_a_place(names, n - 1, i);
        let k: int = choose|k: int| 0 <= k < n - 1 && #[trigger] before[k] == i;
        if k < p {
            assert(now[k] == i);
        } else {
            assert(now[k + 1] == i);
        }
    }
}

/// Every archive of a mission or an agent is listed under its own path and with the time that its
/// name tells, as an archived run.
pub proof fn every_archive_is_listed(st: AppState, a: int)
    requires
        st.agents.context_mission is Some || st.agents.context_agent is Some,
        0 <= a < st.saved.archives@.len() <= usize::MAX,
    ensures
        history::entries(st).len() == st.saved.archives@.len() + 1,
        exists|k: int|
            1 <= k < history::entries(st).len() && (#[trigger] history::entries(st)[k]).kind
                is Archived && history::entries(st)[k].run_path == Some(
                st.saved.archives@[a].run_path@,
            ) && history::entries(st)[k].archive_micros == history::archived_at(
                st.saved.archives@[a],
            ),
{
    let names: Seq<Seq<char>> = history::archive_names(st);
    every_name_has_a_place(names, names.len() as int, a);
    let i: int = choose|i: int|
        0 <= i < names.len() && #[trigger] order::last_name_first_upto(
            names,
            names.len() as int,
        )[i] == a;
    assert(history::archive_at(st, i) == st.saved.archives@[a]);
    assert(history::entries(st)[i + 1].kind is Archived);
}

/// The list starts with the current run, and every other line of it is an archived run.
pub proof fn only_the_first_line_is_the_current_run(st: AppState, k: int)
    requires
        0 <= k < history::entries(st).len(),
    ensures
        history::entries(st)[k].kind is Current <==> k == 0,
        history::entries(st)[k].run_path is None <==> k == 0,
{
}

/// The age of a run is told in the largest unit that it fills once, and as often as it fills it.
pub proof fn ages_are_told_in_their_unit(at: u128, now: u128, n: int)
    requires
        at <= now,
        0 <= n,
    ensures
        now - at < 30_000_000 ==> history::relative_label(Some(at), now) == "saved just now"@,
        n < 60 && 30_000_000 <= now - at && 60_000_000 * n <= now - at < 60_000_000 * (n + 1)
            ==> history::relative_label(Some(at), now) == "saved "@ + text::decimal(n as nat) + "m ago"@,
        1 <= n < 24 && 3_600_000_000 * n <= now - at < 3_600_000_000 * (n + 1)
            ==> history::relative_label(Some(at), now) == "saved "@ + text::decimal(n as nat) + "h ago"@,
        1 <= n < 30 && days(n) <= now - at < days(n + 1) ==> history::relative_label(
            Some(at),
            now,
        ) == "saved "@ + text::decimal(n as nat) + "d ago"@,
        1 <= n && days(30 * n) <= now - at < days(30 * (n + 1)) && now - at < days(365)
            ==> history::relative_label(
            Some(at),
            now,
        ) == "saved "@ + text::decimal(n as nat) + "mo ago"@,
        1 <= n && days(365 * n) <= now - at < days(365 * (n + 1)) ==> history::relative_label(
            Some(at),
            now,
        ) == "saved "@ + text::decimal(n as nat) + "y ago"@,
{
}

/// A search without words lists everything in reach; one with words lists what is in reach and was
/// found, with the score of each.
pub proof fn a_search_lists_what_it_found_in_reach(
    v: Seq<ArchiveItem>,
    query: Seq<char>,
    filter: SavedRunHistoryFilter,
    now: u128,
    scores: Seq<Option<i64>>,
    k: int,
)
    requires
        v.len() == scores.len() <= usize::MAX,
        0 <= k < v.len(),
    ensures
        (exists|i: int|
            0 <= i < archive::hits(v, query, filter, now, scores).len() && (
            #[trigger] archive::hits(v, query, filter, now, scores)[i]).1 == k) <==> (
        v[k].archive_micros is Some ==> reaches(filter, now - v[k].archive_micros->0)) && (
        query.len() == 0 || scores[k] is Some),
        forall|i: int|
            0 <= i < archive::hits(v, query, filter, now, scores).len() && (
            #[trigger] archive::hits(v, query, filter, now, scores)[i]).1 == k ==> archive::hits(
                v,
                query,
                filter,
                now,
                scores,
            )[i].0 == (if query.len() == 0 {
                0
            } else {
                scores[k]->0 as int
            }),
{
    let n: int = v.len() as int;
    let found: Seq<(i64, usize)> = archive::hits(v, query, filter, now, scores);
    let wanted: bool = (v[k].archive_micros is Some ==> reaches(
        filter,
        now - v[k].archive_micros->0,
    )) && (query.len() == 0 || scores[k] is Some);
    if query.len() == 0 {
        let kept: Seq<int> = counting::picked(n, archive::in_filter(v, filter, now));
        counting::picked_are_in_order(n, archive::in_filter(v, filter, now));
        if wanted {
            counting::picked_holds(n, archive::in_filter(v, filter, now), k);
            let i: int = kept.index_of(k);
            assert(found[i].1 == k);
        }
        assert forall|i: int| 0 <= i < found.len() && (#[trigger] found[i]).1 == k implies wanted
            && found[i].0 == 0 by {
            assert(kept[i] == k);
            assert(archive::in_filter(v, filter, now)(k));
        }
    } else {
        let kept: Seq<int> = counting::picked(n, archive::is_hit(v, filter, now, scores));
        counting::picked_are_in_order(n, archive::is_hit(v, filter, now, scores));
        counting::counted_at_most(n, archive::is_hit(v, filter, now, scores));
        let keys: Seq<Option<u128>> = Seq::new(
            kept.len(),
            |i: int| archive::score_rank(scores[kept[i]]->0),
        );
        let places: Seq<usize> = order::ranked(keys);
        order::ranking_is_sorted(keys, keys.len() as int);
        if wanted {
            counting::picked_holds(n, archive::is_hit(v, filter, now, scores), k);
            let a: int = kept.index_of(k);
            order::ranking_holds_all(keys, keys.len() as int, a);
            let i: int = places.index_of(a as usize);
            assert(found[i].1 == k);
        }
        assert forall|i: int| 0 <= i < found.len() && (#[trigger] found[i]).1 == k implies wanted
            && found[i].0 == scores[k]->0 by {
            let a: int = places[i] as int;
            assert(kept[a] == k);
            assert(archive::is_hit(v, filter, now, scores)(k));
        }
    }
}

} // verus!
