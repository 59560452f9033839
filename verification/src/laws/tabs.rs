//! What the tabs show: their headings, their lines, their issues and their cards.

use vstd::prelude::*;

use crate::agent_ops_view::alerts;
use crate::agent_ops_view::artifacts;
use crate::agent_ops_view::cards::Card;
use crate::agent_ops_view::dag;
use crate::agent_ops_view::diagnostics;
use crate::agent_ops_view::missions;
use crate::agent_ops_view::pane;
use crate::agent_ops_view::roster_lines;
use crate::agent_ops_view::styles;
use crate::geometry::Rect;
use crate::laws::labels;
use crate::laws::status;
use crate::laws::texts;
use crate::state;
use crate::state::AgentDiagnosticEvent;
use crate::state::AppState;
use crate::state::SwarmRuntime;
use crate::style;
use crate::style::Theme;
use crate::text;

verus! {

proof fn summary_starts(st: AppState, w: int)
    ensures
        diagnostics::summary_lines(st, w).len() > 0,
        diagnostics::summary_lines(st, w)[0] == " DIAG"@,
{
    let start: Seq<Seq<char>> = seq![" DIAG"@, roster_lines::rule(w), " Summary"@];
    assert(start[0] == " DIAG"@);
}

/// The roster starts with the backends.
pub proof fn the_roster_starts_with_the_backends(st: AppState, swarm: Option<&SwarmRuntime>, width: int)
    requires
        st.agents.dock_tab is Roster,
    ensures
        pane::lines(st, swarm, width).len() > 0,
        pane::lines(st, swarm, width)[0] == " Backends"@,
{
    let w: int = text::max_int(width, 32);
    let head: Seq<Seq<char>> = roster_lines::header_lines(st, w);
    assert(head.len() == 11 && head[0] == " Backends"@);
}

/// The tab of the graph starts with its heading.
pub proof fn the_graph_starts_with_its_heading(st: AppState, swarm: Option<&SwarmRuntime>, width: int)
    requires
        st.agents.dock_tab is Dag,
    ensures
        pane::lines(st, swarm, width).len() > 0,
        pane::lines(st, swarm, width)[0] == " DAG"@,
{
    let w: int = text::max_int(text::max_int(width, 32), 32);
    if dag::notice(st, swarm) is None {
        let d = state::value_of(swarm->0.dashboards@, st.agents.context_mission->0@)->0;
        let head: Seq<Seq<char>> = dag::head_lines(d, w);
        assert(head.len() > 0 && head[0] == " DAG"@);
    }
}

/// The tab of the artifacts starts with its heading.
pub proof fn the_artifacts_start_with_their_heading(st: AppState, swarm: Option<&SwarmRuntime>, width: int)
    requires
        st.agents.dock_tab is Evidence,
    ensures
        pane::lines(st, swarm, width).len() > 0,
        pane::lines(st, swarm, width)[0] == " ARTIFACTS"@,
{
    let w: int = text::max_int(text::max_int(width, 32), 32);
    let head: Seq<Seq<char>> = artifacts::head_lines(st, swarm, w);
    assert(head.len() > 0 && head[0] == " ARTIFACTS"@);
}

/// The diagnostics start with their heading, also where the tab of the changes is open.
pub proof fn the_diagnostics_start_with_their_heading(st: AppState, swarm: Option<&SwarmRuntime>, width: int)
    requires
        st.agents.dock_tab is Diagnostics || st.agents.dock_tab is Patch,
    ensures
        pane::lines(st, swarm, width).len() > 0,
        pane::lines(st, swarm, width)[0] == " DIAG"@,
{
    let w: int = text::max_int(text::max_int(width, 32), 32);
    summary_starts(st, w);
}

/// The notes start with their heading.
pub proof fn the_notes_start_with_their_heading(st: AppState, swarm: Option<&SwarmRuntime>, width: int)
    requires
        st.agents.dock_tab is Scratchpad,
    ensures
        pane::lines(st, swarm, width).len() > 0,
        pane::lines(st, swarm, width)[0] == " SCRATCHPAD"@,
{
}

/// Where there is nothing to list, the tabs of missions and of alerts say so.
pub proof fn empty_lists_say_so(st: AppState, width: int)
    ensures
        st.agents.missions@.len() == 0 ==> missions::all_lines(st, width).last()
            == " No missions yet. Press n to create one."@,
        st.agents.alerts@.len() == 0 ==> alerts::all_lines(st, width).last() == " No alerts."@,
{
}

/// What is drawn of a tab are its lines from where it is scrolled to, with all of their text.
pub proof fn tabs_are_drawn_from_where_they_are_scrolled_to(
    st: AppState,
    swarm: Option<&SwarmRuntime>,
    body: Rect,
    theme: Theme,
    i: int,
)
    requires
        0 <= i < pane::visible(st, swarm, body, theme).len(),
        st.agents.ops_scroll + body.height <= pane::lines(st, swarm, body.width as int).len(),
    ensures
        pane::visible(st, swarm, body, theme).len() == body.height,
        style::plain_text(pane::visible(st, swarm, body, theme)[i]) == pane::lines(
            st,
            swarm,
            body.width as int,
        )[st.agents.ops_scroll + i],
{
    pane::drawn_lines_keep_text(st, swarm, st.agents.ops_scroll + i, body.width as int, theme);
}

/// Notes are told line by line, without their line ends.
pub proof fn notes_are_told_line_by_line(st: AppState, width: int, i: int)
    requires
        0 <= i < st.notes@.len(),
        labels::lacks(st.notes@[i]@, '\n'),
        labels::lacks(st.notes@[i]@, '\r'),
        st.notes@[i]@.len() < width,
    ensures
        diagnostics::scratchpad(st, width).len() == st.notes@.len() + 3,
        diagnostics::scratchpad(st, width)[i + 3] == st.notes@[i]@ + text::fill(
            ' ',
            (width - 1 - st.notes@[i]@.len()) as nat,
        ),
{
    let s: Seq<char> = st.notes@[i]@;
    if s.len() > 0 {
        assert(s[s.len() - 1] != '\n' && s[s.len() - 1] != '\r');
    }
    assert(diagnostics::without_newline(s) == s);
}

proof fn issues_hold(events: Seq<AgentDiagnosticEvent>, n: int, k: int)
    requires
        0 <= k < n <= events.len() <= usize::MAX,
        events[k].severity is Error || events[k].severity is Warn,
    ensures
        diagnostics::issues_upto(events, n).contains(k as usize),
    decreases n,
{
    let all: Seq<usize> = diagnostics::issues_upto(events, n);
    if k == n - 1 {
        assert(all[all.len() - 1] == k);
    } else {
        issues_hold(events, n - 1, k);
        let before: Seq<usize> = diagnostics::issues_upto(events, n - 1);
        let i: int = before.index_of(k as usize);
        assert(all[i] == k);
    }
}

proof fn issues_are_sorted(events: Seq<AgentDiagnosticEvent>, n: int)
    requires
        0 <= n <= events.len() <= usize::MAX,
    ensures
        forall|i: int|
            0 <= i < diagnostics::issues_upto(events, n).len() ==> (
            #[trigger] diagnostics::issues_upto(events, n)[i]) < n && !(
            events[diagnostics::issues_upto(events, n)[i] as int].severity is Info),
        forall|i: int, j: int|
            0 <= i < j < diagnostics::issues_upto(events, n).len()
                ==> #[trigger] diagnostics::issues_upto(events, n)[i]
                < #[trigger] diagnostics::issues_upto(events, n)[j],
    decreases n,
{
    if n > 0 {
        issues_are_sorted(events, n - 1);
    }
}

/// Every warning and every error is an issue, nothing else is, and issues keep their order: the last
/// one is the latest.
pub proof fn the_last_issue_is_the_latest(events: Seq<AgentDiagnosticEvent>, k: int)
    requires
        events.len() <= usize::MAX,
        0 <= k < events.len(),
        events[k].severity is Error || events[k].severity is Warn,
        forall|j: int| k < j < events.len() ==> (#[trigger] events[j]).severity is Info,
    ensures
        diagnostics::issues(events).len() > 0,
        diagnostics::issues(events).last() == k,
{
    let n: int = events.len() as int;
    issues_hold(events, n, k);
    issues_are_sorted(events, n);
    let all: Seq<usize> = diagnostics::issues(events);
    let i: int = all.index_of(k as usize);
    let last: int = all[all.len() - 1] as int;
    assert(last >= k) by {
        if i < all.len() - 1 {
            assert(all[i] < all[all.len() - 1]);
        }
    }
    if last > k {
        assert(events[last].severity is Info);
    }
}

proof fn log_line_is_told(logs: Seq<String>, from: int, n: int, k: int, width: int) -> (at: int)
    requires
        0 <= from <= k < n <= logs.len(),
    ensures
        ({
            let own: Seq<Seq<char>> = diagnostics::prefixed_lines(
                " · "@,
                "   "@,
                diagnostics::compact_log(logs[k]@),
                width,
            );
            let all: Seq<Seq<char>> = diagnostics::log_lines(logs, from, n, width);
            &&& 0 <= at
            &&& at + own.len() <= all.len()
            &&& all.subrange(at, at + own.len()) == own
        }),
    decreases n,
{
    let before: Seq<Seq<char>> = diagnostics::log_lines(logs, from, n - 1, width);
    let all: Seq<Seq<char>> = diagnostics::log_lines(logs, from, n, width);
    let own: Seq<Seq<char>> = diagnostics::prefixed_lines(
        " · "@,
        "   "@,
        diagnostics::compact_log(logs[k]@),
        width,
    );
    if k == n - 1 {
        let at: int = before.len() as int;
        assert(all.subrange(at, at + own.len()) =~= own);
        at
    } else {
        let at: int = log_line_is_told(logs, from, n - 1, k, width);
        assert(all.subrange(at, at + own.len()) =~= before.subrange(at, at + own.len()));
        at
    }
}

/// The last twelve lines of the log are told at the end of the diagnostics.
pub proof fn the_end_of_the_log_is_told(st: AppState, given: int, k: int) -> (at: int)
    requires
        0 <= k < st.logs@.len(),
        st.logs@.len() - 12 <= k,
    ensures
        ({
            let own: Seq<Seq<char>> = diagnostics::prefixed_lines(
                " · "@,
                "   "@,
                diagnostics::compact_log(st.logs@[k]@),
                text::max_int(given, 32),
            );
            let all: Seq<Seq<char>> = diagnostics::all_lines(st, given);
            &&& 0 <= at
            &&& at + own.len() <= all.len()
            &&& all.subrange(at, at + own.len()) == own
        }),
{
    let width: int = text::max_int(given, 32);
    let n: int = st.logs@.len() as int;
    let from: int = text::monus(n, 12);
    let tail: Seq<Seq<char>> = diagnostics::log_lines(st.logs@, from, n, width);
    let all: Seq<Seq<char>> = diagnostics::all_lines(st, given);
    let own: Seq<Seq<char>> = diagnostics::prefixed_lines(
        " · "@,
        "   "@,
        diagnostics::compact_log(st.logs@[k]@),
        width,
    );
    let at: int = log_line_is_told(st.logs@, from, n, k, width);
    let shift: int = all.len() - tail.len();
    assert(all.subrange(shift + at, shift + at + own.len()) =~= tail.subrange(at, at + own.len()));
    shift + at
}

proof fn logged_path(logs: Seq<String>, n: int, k: int, path: Seq<char>)
    requires
        0 <= k < n <= logs.len(),
        logs[k]@ == "Log file:"@ + (seq![' '] + path),
        labels::bare(path),
        forall|j: int| k < j < n ==> labels::lacks((#[trigger] logs[j])@, 'L'),
    ensures
        diagnostics::log_path_upto(logs, n) == Some(path),
    decreases n,
{
    reveal_strlit("Log file:");
    if k == n - 1 {
        let nothing: Seq<char> = Seq::empty();
        texts::texts_part_at_their_mark(nothing, "Log file:"@, seq![' '] + path);
        assert(nothing + "Log file:"@ + (seq![' '] + path) =~= logs[k]@);
        status::the_space_before_is_trimmed(path);
    } else {
        assert(labels::lacks(logs[n - 1]@, 'L'));
        texts::texts_without_the_mark_are_whole(logs[n - 1]@, "Log file:"@);
        logged_path(logs, n - 1, k, path);
    }
}

/// The log file is the one that the log names last.
pub proof fn the_log_names_its_file(st: AppState, k: int, path: Seq<char>)
    requires
        0 <= k < st.logs@.len(),
        st.logs@[k]@ == "Log file:"@ + (seq![' '] + path),
        labels::bare(path),
        forall|j: int| k < j < st.logs@.len() ==> labels::lacks((#[trigger] st.logs@[j])@, 'L'),
    ensures
        diagnostics::log_path(st) == Some(path),
{
    logged_path(st.logs@, st.logs@.len() as int, k, path);
}

/// A job is told as what it is and as how it stands.
pub proof fn jobs_are_told_as_they_stand(st: AppState)
    ensures
        st.job.app_kind is Gol && st.job.visualizer_running && !st.job.visualizer_paused
            ==> diagnostics::job_status(st) == "gol/running"@,
        st.job.app_kind is Gol && st.job.visualizer_running && st.job.visualizer_paused
            ==> diagnostics::job_status(st) == "gol/paused"@,
        st.job.app_kind is Gol && !st.job.visualizer_running ==> diagnostics::job_status(st)
            == "gol/idle"@,
        st.job.app_kind is Games && st.job.games_status is Running ==> diagnostics::job_status(st)
            == "games/running"@,
        st.job.app_kind is Games && st.job.games_status is Paused ==> diagnostics::job_status(st)
            == "games/paused"@,
        st.job.app_kind is Games && st.job.games_status is Done ==> diagnostics::job_status(st)
            == "games/done"@,
        st.job.app_kind is Games && st.job.games_status is Error ==> diagnostics::job_status(st)
            == "games/error"@,
{
}

/// Levels are told apart by their color, in capitals or not.
pub proof fn levels_have_their_color(s: Seq<char>, theme: Theme)
    ensures
        text::lowered_text(s) == text::lowered_text("ERROR"@) ==> diagnostics::level_color(s, theme)
            == theme.error,
        text::lowered_text(s) == text::lowered_text("WARN"@) ==> diagnostics::level_color(s, theme)
            == theme.warning,
        text::lowered_text(s) == text::lowered_text("INFO"@) ==> diagnostics::level_color(s, theme)
            == theme.title,
{
    reveal_strlit("ERROR");
    reveal_strlit("WARN");
    reveal_strlit("INFO");
    assert(text::lowered_text("ERROR"@).len() == 5);
    assert(text::lowered_text("WARN"@)[0] == 'w');
    assert(text::lowered_text("INFO"@)[0] == 'i');
    assert(text::lowered_text("INFO"@).len() == 4);
}

/// A status that tells of an error is red, one that warns has the color of warnings, and one that
/// tells of work stands out.
pub proof fn statuses_have_their_color(s: Seq<char>, theme: Theme)
    ensures
        text::includes(text::raised_text(s), "ERROR"@) || text::includes(
            text::raised_text(s),
            "FAILED"@,
        ) ==> styles::status_style(s, theme).fg == Some(theme.error),
        text::includes(text::raised_text(s), "WARN"@) && !text::includes(
            text::raised_text(s),
            "ERROR"@,
        ) && !text::includes(text::raised_text(s), "FAILED"@) ==> styles::status_style(
            s,
            theme,
        ).fg == Some(theme.warning),
        text::includes(text::raised_text(s), "RUNNING"@) && !text::includes(
            text::raised_text(s),
            "ERROR"@,
        ) && !text::includes(text::raised_text(s), "FAILED"@) && !text::includes(
            text::raised_text(s),
            "WARN"@,
        ) ==> styles::status_style(s, theme).fg == Some(theme.title_focused),
{
}

/// The selected card is marked in front, and no other is.
pub proof fn the_selected_card_is_marked(
    card: Card,
    w: Seq<usize>,
    selected: bool,
    child: bool,
    ascii: bool,
)
    ensures
        artifacts::card_row(card, w, selected, child, ascii).len() >= 3,
        artifacts::card_row(card, w, selected, child, ascii)[0] == '>' <==> selected,
        !selected && child ==> artifacts::card_row(card, w, selected, child, ascii)[3] == '↳',
        !selected && !child ==> artifacts::card_row(card, w, selected, child, ascii)[1] == '→',
{
}

/// What a folded prompt hides are the cards behind it up to the next prompt or to what concerns all
/// prompts.
pub proof fn folded_prompts_count_what_they_hide(v: Seq<Card>, i: int)
    requires
        0 <= i <= v.len(),
    ensures
        ({
            let n: int = artifacts::children_from(v, i) as int;
            &&& i + n <= v.len()
            &&& forall|j: int|
                i <= j < i + n ==> (#[trigger] v[j]).kind != "PROMPT"@ && v[j].kind != "REPORT"@
                    && v[j].kind != "VERIFY"@
            &&& i + n < v.len() ==> v[i + n].kind == "PROMPT"@ || v[i + n].kind == "REPORT"@
                || v[i + n].kind == "VERIFY"@
        }),
    decreases v.len() - i,
{
    if i < v.len() && v[i].kind != "PROMPT"@ && !artifacts::is_global(v[i].kind) {
        folded_prompts_count_what_they_hide(v, i + 1);
    }
}

/// A card is hidden exactly where the last prompt before it is folded; prompts, reports and checks
/// are never hidden.
pub proof fn cards_are_hidden_below_folded_prompts(st: AppState, v: Seq<Card>, p: int, i: int)
    requires
        0 <= p < i < v.len() <= usize::MAX,
        v[p].kind == "PROMPT"@,
        forall|j: int| p < j < i ==> (#[trigger] v[j]).kind != "PROMPT"@,
    ensures
        v[i].kind == "PROMPT"@ || v[i].kind == "REPORT"@ || v[i].kind == "VERIFY"@
            ==> artifacts::is_shown(st, v, i),
        v[i].kind != "PROMPT"@ && v[i].kind != "REPORT"@ && v[i].kind != "VERIFY"@ ==> (
        artifacts::is_shown(st, v, i) <==> !st.agents.artifacts_collapsed_prompts@.contains(
            p as usize,
        )),
    decreases i,
{
    if i - 1 > p {
        folds_as_the_prompt_before(st, v, p, i);
    }
}

proof fn folds_as_the_prompt_before(st: AppState, v: Seq<Card>, p: int, n: int)
    requires
        0 <= p < n <= v.len() <= usize::MAX,
        v[p].kind == "PROMPT"@,
        forall|j: int| p < j < n ==> (#[trigger] v[j]).kind != "PROMPT"@,
    ensures
        artifacts::folded(st, v, n) == st.agents.artifacts_collapsed_prompts@.contains(p as usize),
    decreases n,
{
    if n - 1 > p {
        folds_as_the_prompt_before(st, v, p, n - 1);
    }
}

} // verus!
