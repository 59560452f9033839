//! Where the cards of the artifacts tab stand among its lines.

use vstd::prelude::*;

use crate::agent_ops_view::artifacts;
use crate::agent_ops_view::cards::Card;
use crate::agent_ops_view::context_cards;
use crate::agent_ops_view::dag;
use crate::agent_ops_view::history;
use crate::agent_ops_view::provenance;
use crate::agent_ops_view::roster_lines;
use crate::agent_ops_view::swarm_details;
use crate::counting;
use crate::state;
use crate::state::AppState;
use crate::state::Mission;
use crate::state::SwarmPersistenceView;
use crate::state::SwarmRuntime;
use crate::text;

verus! {

/// Whether a character cannot stand where a card has its mark.
pub open spec fn wordy(c: char) -> bool {
    c != ' ' && c != '>' && c != '→' && c != '➜'
}

pub open spec fn all_wordy(s: Seq<char>) -> bool {
    forall|i: int| 0 <= i < s.len() ==> wordy(#[trigger] s[i])
}

/// Whether a line says something right behind its margin.
pub open spec fn plain_line(line: Seq<char>) -> bool {
    line.len() < 2 || wordy(line[1])
}

pub open spec fn all_plain(lines: Seq<Seq<char>>) -> bool {
    forall|i: int| 0 <= i < lines.len() ==> plain_line(#[trigger] lines[i])
}

proof fn start_stays_wordy(s: Seq<char>)
    requires
        all_wordy(s),
    ensures
        all_wordy(text::trimmed_start(s)),
    decreases s.len(),
{
    if s.len() > 0 && text::white(s[0]) {
        let t: Seq<char> = s.subrange(1, s.len() as int);
        assert forall|i: int| 0 <= i < t.len() implies wordy(#[trigger] t[i]) by {
            assert(t[i] == s[i + 1]);
        }
        start_stays_wordy(t);
    }
}

proof fn end_stays_wordy(s: Seq<char>)
    requires
        all_wordy(s),
    ensures
        all_wordy(text::trimmed_end(s)),
    decreases s.len(),
{
    if s.len() > 0 && text::white(s[s.len() - 1]) {
        let t: Seq<char> = s.subrange(0, s.len() - 1);
        assert forall|i: int| 0 <= i < t.len() implies wordy(#[trigger] t[i]) by {
            assert(t[i] == s[i]);
        }
        end_stays_wordy(t);
    }
}

proof fn trimmed_stays_wordy(s: Seq<char>)
    requires
        all_wordy(s),
    ensures
        all_wordy(text::trimmed(s)),
{
    start_stays_wordy(s);
    end_stays_wordy(text::trimmed_start(s));
}

proof fn segments_are_wordy(label: Seq<char>, value: Seq<char>, room: int, i: int)
    requires
        all_wordy(label),
        0 <= i < dag::segments(label, value, room).len(),
    ensures
        dag::segments(label, value, room)[i].len() > 0,
        wordy(dag::segments(label, value, room)[i][0]),
{
    reveal_strlit(": ");
    reveal_strlit(":");
    trimmed_stays_wordy(label);
    let name: Seq<char> = text::trimmed(label);
    if name.len() > 0 {
        assert(wordy(name[0]));
    }
}

proof fn all_segments_are_wordy(
    labels: Seq<Seq<char>>,
    values: Seq<Seq<char>>,
    room: int,
    n: int,
    i: int,
)
    requires
        0 <= n <= labels.len(),
        forall|k: int| 0 <= k < n ==> all_wordy(#[trigger] labels[k]),
        0 <= i < dag::block_segments(labels, values, room, n).len(),
    ensures
        dag::block_segments(labels, values, room, n)[i].len() > 0,
        wordy(dag::block_segments(labels, values, room, n)[i][0]),
    decreases n,
{
    if n > 0 {
        let before: Seq<Seq<char>> = dag::block_segments(labels, values, room, n - 1);
        if i < before.len() {
            all_segments_are_wordy(labels, values, room, n - 1, i);
        } else {
            assert(all_wordy(labels[n - 1]));
            segments_are_wordy(labels[n - 1], values[n - 1], room, i - before.len());
        }
    }
}

proof fn packed_are_plain(segs: Seq<Seq<char>>, width: int, n: int, i: int)
    requires
        0 <= n <= segs.len(),
        forall|k: int| 0 <= k < n ==> (#[trigger] segs[k]).len() > 0 && wordy(segs[k][0]),
        0 <= i < dag::packed(segs, width, n).len(),
    ensures
        dag::packed(segs, width, n)[i].len() >= 2,
        plain_line(dag::packed(segs, width, n)[i]),
    decreases n,
{
    if n > 0 {
        reveal_strlit(" ");
        let lines: Seq<Seq<char>> = dag::packed(segs, width, n - 1);
        assert(segs[n - 1].len() > 0 && wordy(segs[n - 1][0]));
        if i < lines.len() {
            packed_are_plain(segs, width, n - 1, i);
        }
    }
}

proof fn block_is_plain(labels: Seq<Seq<char>>, values: Seq<Seq<char>>, width: int)
    requires
        forall|k: int| 0 <= k < labels.len() ==> all_wordy(#[trigger] labels[k]),
    ensures
        all_plain(dag::block(labels, values, width)),
{
    reveal_strlit(" ");
    let w: int = text::max_int(width, 32);
    let n: int = labels.len() as int;
    let segs: Seq<Seq<char>> = dag::block_segments(labels, values, w - 1, n);
    assert forall|k: int| 0 <= k < segs.len() implies (#[trigger] segs[k]).len() > 0 && wordy(
        segs[k][0],
    ) by {
        all_segments_are_wordy(labels, values, w - 1, n, k);
    }
    let lines: Seq<Seq<char>> = dag::block(labels, values, width);
    assert forall|i: int| 0 <= i < lines.len() implies plain_line(#[trigger] lines[i]) by {
        if dag::packed(segs, w, segs.len() as int).len() > 0 {
            packed_are_plain(segs, w, segs.len() as int, i);
        }
    }
}

proof fn detail_is_plain(label: Seq<char>, value: Seq<char>, width: int)
    requires
        all_wordy(label),
    ensures
        all_plain(swarm_details::detail(label, value, width)),
{
    reveal_strlit(" ");
    reveal_strlit(": ");
    trimmed_stays_wordy(label);
    let name: Seq<char> = text::trimmed(label);
    if name.len() > 0 {
        assert(wordy(name[0]));
    }
    let prefix: Seq<char> = " "@ + name + ": "@;
    assert(prefix.len() >= 2 && wordy(prefix[1]));
    let lines: Seq<Seq<char>> = swarm_details::detail(label, value, width);
    assert forall|i: int| 0 <= i < lines.len() implies plain_line(#[trigger] lines[i]) by {
        assert(lines[i][1] == prefix[1]);
    }
}

proof fn plain_add(a: Seq<Seq<char>>, b: Seq<Seq<char>>)
    requires
        all_plain(a),
        all_plain(b),
    ensures
        all_plain(a + b),
{
    assert forall|i: int| 0 <= i < (a + b).len() implies plain_line(#[trigger] (a + b)[i]) by {
        if i < a.len() {
            assert(plain_line(a[i]));
        } else {
            assert(plain_line(b[i - a.len()]));
        }
    }
}

proof fn opt_detail_is_plain(label: Seq<char>, value: Option<Seq<char>>, width: int)
    requires
        all_wordy(label),
    ensures
        all_plain(provenance::opt_detail(label, value, width)),
{
    if let Some(s) = value {
        detail_is_plain(label, s, width);
    }
}

proof fn names_detail_is_plain(label: Seq<char>, v: Seq<String>, width: int)
    requires
        all_wordy(label),
    ensures
        all_plain(swarm_details::names_detail(label, v, width)),
{
    if v.len() > 0 {
        detail_is_plain(label, text::joined(text::texts(v), ", "@), width);
    }
}

/// Names all labels that stand above the cards.
proof fn labels_are_wordy()
    ensures
        all_wordy("Mission"@),
        all_wordy("Template"@),
        all_wordy("Phase"@),
        all_wordy("Tasks"@),
        all_wordy("Parsed"@),
        all_wordy("Missing"@),
        all_wordy("Outputs"@),
        all_wordy("Files"@),
        all_wordy("Cmds"@),
        all_wordy("Verify"@),
        all_wordy("Root"@),
        all_wordy("Mode"@),
        all_wordy("Status"@),
        all_wordy("Agents"@),
        all_wordy("Msgs"@),
        all_wordy("Replies"@),
        all_wordy("Patches"@),
        all_wordy("Evidence"@),
        all_wordy("SavedRuns"@),
        all_wordy("Source"@),
        all_wordy("Agent"@),
        all_wordy("Context"@),
        all_wordy("Thread"@),
        all_wordy("root"@),
        all_wordy("run"@),
        all_wordy("thread"@),
        all_wordy("claude_session"@),
        all_wordy("codex_thread"@),
        all_wordy("assigned"@),
        all_wordy("note"@),
        all_wordy("history"@),
{
    reveal_strlit("Mission");
    reveal_strlit("Template");
    reveal_strlit("Phase");
    reveal_strlit("Tasks");
    reveal_strlit("Parsed");
    reveal_strlit("Missing");
    reveal_strlit("Outputs");
    reveal_strlit("Files");
    reveal_strlit("Cmds");
    reveal_strlit("Verify");
    reveal_strlit("Root");
    reveal_strlit("Mode");
    reveal_strlit("Status");
    reveal_strlit("Agents");
    reveal_strlit("Msgs");
    reveal_strlit("Replies");
    reveal_strlit("Patches");
    reveal_strlit("Evidence");
    reveal_strlit("SavedRuns");
    reveal_strlit("Source");
    reveal_strlit("Agent");
    reveal_strlit("Context");
    reveal_strlit("Thread");
    reveal_strlit("root");
    reveal_strlit("run");
    reveal_strlit("thread");
    reveal_strlit("claude_session");
    reveal_strlit("codex_thread");
    reveal_strlit("assigned");
    reveal_strlit("note");
    reveal_strlit("history");
}

proof fn summary_is_plain(view: SwarmPersistenceView, width: int)
    ensures
        all_plain(swarm_details::summary(view, width)),
{
    labels_are_wordy();
    let all: Seq<Seq<char>> = swarm_details::summary(view, width);
    let l1: Seq<Seq<char>> = seq!["Mission"@, "Template"@, "Phase"@];
    let v1: Seq<Seq<char>> = seq![view.mission_id@, view.template@, view.phase@];
    let l2: Seq<Seq<char>> = seq![
        "Tasks"@,
        "Parsed"@,
        "Missing"@,
        "Outputs"@,
        "Files"@,
        "Cmds"@,
        "Verify"@,
    ];
    let n: int = view.tasks@.len() as int;
    let v2: Seq<Seq<char>> = seq![
        text::decimal(n as nat),
        text::decimal(counting::counted(n, swarm_details::parsed(view))),
        text::decimal(counting::counted(n, swarm_details::missing(view))),
        text::decimal(counting::counted(n, swarm_details::with_output(view))),
        text::decimal(swarm_details::files_upto(view.tasks@, n)),
        text::decimal(swarm_details::commands_upto(view.tasks@, n)),
        swarm_details::verify_status(view),
    ];
    let l3: Seq<Seq<char>> = seq!["Root"@];
    let v3: Seq<Seq<char>> = seq![".nit/swarm/"@ + view.mission_id@ + "/"@];
    block_is_plain(l1, v1, width);
    block_is_plain(l2, v2, width);
    block_is_plain(l3, v3, width);
    let a: Seq<Seq<char>> = dag::block(l1, v1, width);
    let b: Seq<Seq<char>> = dag::block(l2, v2, width);
    let c: Seq<Seq<char>> = dag::block(l3, v3, width);
    plain_add(a, b);
    plain_add(a + b, c);
    assert(all == a + b + c);
}

proof fn mission_blocks_are_plain(st: AppState, mission: Mission, width: int)
    ensures
        all_plain(provenance::mission_blocks(st, mission, width)),
{
    labels_are_wordy();
    let id: Seq<char> = mission.id@;
    let tally: provenance::Tally = provenance::shown_tally(
        st,
        provenance::live_mission(st, id),
        provenance::mission_tally(id),
    );
    let selected: Option<int> = provenance::selected_with_data(st, provenance::mission_tally(id));
    let l1: Seq<Seq<char>> = seq!["Mission"@, "Mode"@, "Phase"@, "Status"@];
    let v1: Seq<Seq<char>> = seq![
        mission.id@,
        if mission.swarm {
            "swarm"@
        } else {
            "single-agent"@
        },
        mission.phase_label@,
        mission.status@,
    ];
    let l2: Seq<Seq<char>> = seq!["Agents"@, "Msgs"@, "Replies"@, "Patches"@, "Evidence"@];
    let v2: Seq<Seq<char>> = seq![
        text::decimal(mission.assigned_agents@.len()),
        text::decimal(tally.messages),
        text::decimal(tally.replies),
        text::decimal(tally.patches),
        text::decimal(tally.evidence),
    ];
    let l3: Seq<Seq<char>> = seq!["SavedRuns"@, "Source"@];
    let v3: Seq<Seq<char>> = seq![
        text::decimal(provenance::saved_run_count(st)),
        provenance::source_label(st, selected),
    ];
    block_is_plain(l1, v1, width);
    block_is_plain(l2, v2, width);
    block_is_plain(l3, v3, width);
    let a: Seq<Seq<char>> = dag::block(l1, v1, width);
    let b: Seq<Seq<char>> = dag::block(l2, v2, width);
    let c: Seq<Seq<char>> = dag::block(l3, v3, width);
    plain_add(a, b);
    plain_add(a + b, c);
    assert(provenance::mission_blocks(st, mission, width) == a + b + c);
}

proof fn mission_tail_is_plain(st: AppState, mission: Mission, width: int)
    ensures
        all_plain(provenance::mission_tail(st, mission, width)),
{
    labels_are_wordy();
    let id: Seq<char> = mission.id@;
    let selected: Option<int> = provenance::selected_with_data(st, provenance::mission_tally(id));
    let root: Seq<char> = ".nit/agents/runs/"@ + id;
    let session: Option<Seq<char>> = provenance::of_agent_or_first(
        st.agents.claude_mission_session_ids@,
        id,
        text::opt_text(st.agents.context_agent),
    );
    let thread: Option<Seq<char>> = provenance::mission_thread_id(st, id);
    let note: Seq<char> = provenance::mission_note(
        selected is Some,
        mission.swarm,
        provenance::stands_in(selected, provenance::live_mission(st, id)),
    );
    let said: Seq<char> = "Press R to browse saved runs."@;
    detail_is_plain("root"@, root + "/"@, width);
    detail_is_plain("run"@, root + "/run.json"@, width);
    detail_is_plain("thread"@, root + "/thread.md"@, width);
    opt_detail_is_plain("claude_session"@, session, width);
    opt_detail_is_plain("codex_thread"@, thread, width);
    names_detail_is_plain("assigned"@, mission.assigned_agents@, width);
    detail_is_plain("note"@, note, width);
    detail_is_plain("history"@, said, width);
    let a: Seq<Seq<char>> = swarm_details::detail("root"@, root + "/"@, width);
    let b: Seq<Seq<char>> = swarm_details::detail("run"@, root + "/run.json"@, width);
    let c: Seq<Seq<char>> = swarm_details::detail("thread"@, root + "/thread.md"@, width);
    let d: Seq<Seq<char>> = provenance::opt_detail("claude_session"@, session, width);
    let e: Seq<Seq<char>> = provenance::opt_detail("codex_thread"@, thread, width);
    let f: Seq<Seq<char>> = swarm_details::names_detail(
        "assigned"@,
        mission.assigned_agents@,
        width,
    );
    let g: Seq<Seq<char>> = swarm_details::detail("note"@, note, width);
    let h: Seq<Seq<char>> = swarm_details::detail("history"@, said, width);
    plain_add(a, b);
    plain_add(a + b, c);
    plain_add(a + b + c, d);
    plain_add(a + b + c + d, e);
    plain_add(a + b + c + d + e, f);
    plain_add(a + b + c + d + e + f, g);
    plain_add(a + b + c + d + e + f + g, h);
    assert(provenance::mission_tail(st, mission, width) == a + b + c + d + e + f + g + h);
}

proof fn chat_blocks_are_plain(st: AppState, id: Seq<char>, width: int)
    ensures
        all_plain(provenance::chat_blocks(st, id, width)),
{
    labels_are_wordy();
    let tally: provenance::Tally = provenance::shown_tally(
        st,
        provenance::live_chat(st, id),
        provenance::chat_tally(id),
    );
    let selected: Option<int> = provenance::selected_with_data(st, provenance::chat_tally(id));
    let l1: Seq<Seq<char>> = seq!["Agent"@, "Context"@];
    let v1: Seq<Seq<char>> = seq![id, "ad-hoc"@];
    let l2: Seq<Seq<char>> = seq!["Msgs"@, "Replies"@, "Patches"@, "Thread"@];
    let v2: Seq<Seq<char>> = seq![
        text::decimal(tally.messages),
        text::decimal(tally.replies),
        text::decimal(tally.patches),
        dag::yes_no(provenance::chat_thread_present(st, id)),
    ];
    let l3: Seq<Seq<char>> = seq!["SavedRuns"@, "Source"@];
    let v3: Seq<Seq<char>> = seq![
        text::decimal(provenance::saved_run_count(st)),
        provenance::source_label(st, selected),
    ];
    block_is_plain(l1, v1, width);
    block_is_plain(l2, v2, width);
    block_is_plain(l3, v3, width);
    let a: Seq<Seq<char>> = dag::block(l1, v1, width);
    let b: Seq<Seq<char>> = dag::block(l2, v2, width);
    let c: Seq<Seq<char>> = dag::block(l3, v3, width);
    plain_add(a, b);
    plain_add(a + b, c);
    assert(provenance::chat_blocks(st, id, width) == a + b + c);
}

proof fn chat_tail_is_plain(st: AppState, id: Seq<char>, width: int)
    ensures
        all_plain(provenance::chat_tail(st, id, width)),
{
    labels_are_wordy();
    let selected: Option<int> = provenance::selected_with_data(st, provenance::chat_tally(id));
    let root: Seq<char> = history::ad_hoc_root(id);
    let note: Seq<char> = provenance::chat_note(
        selected is Some,
        provenance::stands_in(selected, provenance::live_chat(st, id)),
    );
    let said: Seq<char> = "Press R to browse saved runs."@;
    let session: Option<Seq<char>> = text::opt_text(
        state::value_of(st.agents.claude_session_ids@, id),
    );
    let thread: Option<Seq<char>> = provenance::chat_thread_id(st, id);
    detail_is_plain("root"@, root, width);
    detail_is_plain("run"@, root + "run.json"@, width);
    detail_is_plain("thread"@, root + "thread.md"@, width);
    detail_is_plain("note"@, note, width);
    detail_is_plain("history"@, said, width);
    opt_detail_is_plain("claude_session"@, session, width);
    opt_detail_is_plain("codex_thread"@, thread, width);
    let a: Seq<Seq<char>> = swarm_details::detail("root"@, root, width);
    let b: Seq<Seq<char>> = swarm_details::detail("run"@, root + "run.json"@, width);
    let c: Seq<Seq<char>> = swarm_details::detail("thread"@, root + "thread.md"@, width);
    let d: Seq<Seq<char>> = swarm_details::detail("note"@, note, width);
    let e: Seq<Seq<char>> = swarm_details::detail("history"@, said, width);
    let f: Seq<Seq<char>> = provenance::opt_detail("claude_session"@, session, width);
    let g: Seq<Seq<char>> = provenance::opt_detail("codex_thread"@, thread, width);
    plain_add(a, b);
    plain_add(a + b, c);
    plain_add(a + b + c, d);
    plain_add(a + b + c + d, e);
    plain_add(a + b + c + d + e, f);
    plain_add(a + b + c + d + e + f, g);
    assert(provenance::chat_tail(st, id, width) == a + b + c + d + e + f + g);
}

/// What stands above the cards is never taken for one of them.
pub proof fn head_has_no_cards(st: AppState, swarm: Option<&SwarmRuntime>, width: int, i: int)
    requires
        0 <= i < artifacts::head_lines(st, swarm, width).len(),
    ensures
        !artifacts::is_row(artifacts::head_lines(st, swarm, width)[i]),
{
    head_is_plain(st, swarm, width);
    assert(plain_line(artifacts::head_lines(st, swarm, width)[i]));
}

proof fn head_is_plain(st: AppState, swarm: Option<&SwarmRuntime>, width: int)
    ensures
        all_plain(artifacts::head_lines(st, swarm, width)),
{
    reveal_strlit(" ARTIFACTS");
    reveal_strlit(" No mission or agent selected.");
    reveal_strlit(" Mission ");
    let start: Seq<Seq<char>> = seq![" ARTIFACTS"@, roster_lines::rule(width)];
    assert(all_plain(start));
    match (st.agents.context_mission, st.agents.context_agent) {
        (Some(id), _) => match context_cards::swarm_view(swarm, id@) {
            Some(view) => {
                summary_is_plain(view, width);
                plain_add(start, swarm_details::summary(view, width));
            },
            None => {
                match state::mission_named(st.agents.missions@, id@) {
                    None => {
                        let line: Seq<char> = " Mission "@ + id@ + " not found."@;
                        assert(line[1] == 'M');
                        assert(all_plain(seq![line]));
                        plain_add(start, seq![line]);
                    },
                    Some(k) => {
                        let mission: Mission = st.agents.missions@[k];
                        mission_blocks_are_plain(st, mission, width);
                        mission_tail_is_plain(st, mission, width);
                        plain_add(
                            provenance::mission_blocks(st, mission, width),
                            provenance::mission_tail(st, mission, width),
                        );
                        plain_add(start, provenance::mission_provenance(st, id@, width));
                    },
                }
            },
        },
        (None, Some(agent)) => {
            chat_blocks_are_plain(st, agent@, width);
            chat_tail_is_plain(st, agent@, width);
            plain_add(
                provenance::chat_blocks(st, agent@, width),
                provenance::chat_tail(st, agent@, width),
            );
            plain_add(start, provenance::chat_provenance(st, agent@, width));
        },
        (None, None) => {
            let line: Seq<Seq<char>> = seq![" No mission or agent selected."@];
            assert(all_plain(line));
            plain_add(start, line);
        },
    }
}

proof fn end_is_kept(s: Seq<char>, i: int)
    requires
        0 <= i < s.len(),
        !text::white(s[i]),
    ensures
        i < text::trimmed_end(s).len() <= s.len(),
        forall|k: int| 0 <= k < text::trimmed_end(s).len() ==> #[trigger] text::trimmed_end(s)[k] == s[k],
    decreases s.len(),
{
    if text::white(s[s.len() - 1]) {
        end_is_kept(s.subrange(0, s.len() - 1), i);
    }
}

/// Whether card `i` stands under a prompt.
pub open spec fn is_child(v: Seq<Card>, i: int) -> bool {
    v[i].kind != "PROMPT"@ && !artifacts::is_global(v[i].kind) && artifacts::has_prompt(v)
}

/// Whether the row of card `i` can be told: it is not a selected child where only ASCII markers are
/// drawn.
pub open spec fn can_be_told(st: AppState, v: Seq<Card>, i: int) -> bool {
    !(st.ascii_fallback && i == artifacts::selected_card(st, v.len() as int) && is_child(v, i))
}

proof fn tree_rows_are_rows(st: AppState, v: Seq<Card>, w: Seq<usize>, i: int)
    requires
        0 <= i < v.len(),
        can_be_told(st, v, i),
    ensures
        artifacts::is_row(
            artifacts::tree_row(st, v, w, artifacts::selected_card(st, v.len() as int), i),
        ),
{
    reveal_strlit(" [");
    let chosen: bool = i == artifacts::selected_card(st, v.len() as int);
    let child: bool = !artifacts::is_global(v[i].kind) && artifacts::has_prompt(v);
    if v[i].kind == "PROMPT"@ {
        let row: Seq<char> = artifacts::card_row(v[i], w, chosen, false, st.ascii_fallback);
        artifacts::card_rows_are_rows(v[i], w, chosen, false, st.ascii_fallback);
        if st.agents.artifacts_collapsed_prompts@.contains(i as usize) {
            end_is_kept(row, 1);
            let bare: Seq<char> = text::trimmed_end(row);
            let line: Seq<char> = bare + " ["@ + text::decimal(artifacts::children_from(v, i + 1))
                + " hidden]"@;
            assert(bare[0] == row[0] && bare[1] == row[1]);
            if bare.len() > 2 {
                assert(bare[2] == row[2]);
            }
            assert(line[0] == row[0] && line[1] == row[1] && line[2] == ' ');
        }
    } else {
        artifacts::card_rows_are_rows(v[i], w, chosen, child, st.ascii_fallback);
    }
}

proof fn plain_lines_hold_no_rows(lines: Seq<Seq<char>>, n: int)
    requires
        0 <= n <= lines.len(),
        forall|k: int| 0 <= k < n ==> plain_line(#[trigger] lines[k]),
    ensures
        artifacts::rows_upto(lines, n) == 0,
    decreases n,
{
    if n > 0 {
        plain_lines_hold_no_rows(lines, n - 1);
        assert(plain_line(lines[n - 1]));
    }
}

proof fn rows_follow(lines: Seq<Seq<char>>, from: int, k: int)
    requires
        0 <= from,
        0 <= k,
        from + k <= lines.len(),
        artifacts::rows_upto(lines, from) == 0,
        forall|j: int| from <= j < from + k ==> artifacts::is_row(#[trigger] lines[j]),
    ensures
        artifacts::rows_upto(lines, from + k) == k,
    decreases k,
{
    if k > 0 {
        rows_follow(lines, from, k - 1);
        assert(artifacts::is_row(lines[from + k - 1]));
    }
}

/// The cards of the tab.
pub open spec fn tab_cards(st: AppState, swarm: Option<&SwarmRuntime>, given: int) -> Seq<Card> {
    context_cards::context_cards(
        st,
        swarm,
        artifacts::preview_width(text::max_int(given, 32)),
    )
}

/// Those cards of the tab that have rows.
pub open spec fn tab_rows(st: AppState, swarm: Option<&SwarmRuntime>, given: int) -> Seq<int> {
    let v: Seq<Card> = tab_cards(st, swarm, given);
    artifacts::shown_cards(st, v, v.len() as int)
}

/// A click on a line of the artifacts tab opens the card that the line shows: the cards that have
/// rows stand below the head of the tab in their order, each on the line that it is found on.
pub proof fn cards_stand_on_their_lines(
    st: AppState,
    swarm: Option<&SwarmRuntime>,
    given: int,
    k: int,
)
    requires
        st.agents.context_mission is Some || st.agents.context_agent is Some,
        0 <= k < tab_rows(st, swarm, given).len(),
    ensures
        ({
            let width: int = text::max_int(given, 32);
            let v: Seq<Card> = tab_cards(st, swarm, given);
            let shown: Seq<int> = tab_rows(st, swarm, given);
            let lines: Seq<Seq<char>> = artifacts::all_lines(st, swarm, given);
            let at: int = artifacts::head_lines(st, swarm, width).len() + 2 + k;
            &&& at < lines.len()
            &&& lines[at] == artifacts::tree_row(
                st,
                v,
                artifacts::list_widths(width),
                artifacts::selected_card(st, v.len() as int),
                shown[k],
            )
            &&& (forall|i: int| 0 <= i < v.len() ==> can_be_told(st, v, i)) ==> {
                &&& artifacts::card_on(lines, at) == Some(k as nat)
                &&& artifacts::line_of(lines, k) == Some(at)
                &&& artifacts::rows_upto(lines, lines.len() as int) == shown.len()
            }
        }),
{
    reveal_strlit(" Items");
    let width: int = text::max_int(given, 32);
    let v: Seq<Card> = tab_cards(st, swarm, given);
    let shown: Seq<int> = tab_rows(st, swarm, given);
    let lines: Seq<Seq<char>> = artifacts::all_lines(st, swarm, given);
    let head: Seq<Seq<char>> = artifacts::head_lines(st, swarm, width);
    let w: Seq<usize> = artifacts::list_widths(width);
    let from: int = head.len() as int + 2;
    artifacts::shown_cards_are_cards(st, v, v.len() as int);
    head_is_plain(st, swarm, width);
    let above: Seq<Seq<char>> = seq![roster_lines::rule(width), " Items"@];
    assert(all_plain(above));
    plain_add(head, above);
    assert(lines == head + above + artifacts::card_lines(st, v, width));
    assert forall|j: int| 0 <= j < from implies plain_line(#[trigger] lines[j]) by {
        assert(lines[j] == (head + above)[j]);
    }
    plain_lines_hold_no_rows(lines, from);
    if forall|i: int| 0 <= i < v.len() ==> can_be_told(st, v, i) {
        assert forall|j: int| from <= j < from + shown.len() implies artifacts::is_row(
            #[trigger] lines[j],
        ) by {
            assert(can_be_told(st, v, shown[j - from]));
            tree_rows_are_rows(st, v, w, shown[j - from]);
        }
        rows_follow(lines, from, k);
        rows_follow(lines, from, shown.len() as int);
        assert(artifacts::is_row(lines[from + k]));
        artifacts::line_of_card_on_line(lines, from + k);
    }
}

} // verus!
