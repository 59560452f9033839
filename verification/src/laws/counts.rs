//! What is counted, and once.

use vstd::prelude::*;

use crate::agent_ops_view::diagnostics;
use crate::agent_ops_view::history;
use crate::agent_ops_view::provenance;
use crate::agent_ops_view::provenance::Tally;
use crate::counting;
use crate::state::AgentAlertSeverity;
use crate::state::AgentDiagnosticEvent;
use crate::state::AgentMessage;
use crate::state::AppState;
use crate::state::EvidenceItem;
use crate::state::Patch;
use crate::state::PersistedArtifactsRun;

verus! {

proof fn counted_alike(n: int, a: spec_fn(int) -> bool, b: spec_fn(int) -> bool)
    requires
        forall|i: int| 0 <= i < n ==> a(i) == #[trigger] b(i),
    ensures
        counting::counted(n, a) == counting::counted(n, b),
    decreases n,
{
    if n > 0 {
        counted_alike(n - 1, a, b);
        assert(a(n - 1) == b(n - 1));
    }
}

/// Something is counted exactly where something meets the condition, and at most everything is.
pub proof fn a_count_tells_whether_there_is_any(n: int, meets: spec_fn(int) -> bool)
    requires
        0 <= n,
    ensures
        counting::counted(n, meets) <= n,
        counting::counted(n, meets) > 0 <==> exists|i: int| 0 <= i < n && #[trigger] meets(i),
        counting::counted(n, meets) == n <==> forall|i: int| 0 <= i < n ==> #[trigger] meets(i),
    decreases n,
{
    if n > 0 {
        a_count_tells_whether_there_is_any(n - 1, meets);
        assert(meets(n - 1) || !meets(n - 1));
    }
}

/// Whether a text is this identity.
pub open spec fn named(id: Option<String>, name: Seq<char>) -> bool {
    id is Some && id->0@ == name
}

/// The messages of a mission are those with its identity: one more counts for one, as a reply too
/// where an agent said it, and a message of anything else counts for nothing.
pub proof fn a_message_counts_once_for_its_mission(
    st: AppState,
    more: AppState,
    m: AgentMessage,
    id: Seq<char>,
)
    requires
        more.agents.messages@ == st.agents.messages@.push(m),
    ensures
        provenance::live_mission(more, id).messages == provenance::live_mission(st, id).messages
            + if named(m.mission_id, id) {
            1int
        } else {
            0
        },
        provenance::live_mission(more, id).replies == provenance::live_mission(st, id).replies + if named(
            m.mission_id,
            id,
        ) && m.agent_id is Some {
            1int
        } else {
            0
        },
        st.agents.messages@.len() == 0 ==> provenance::live_mission(st, id).messages == 0
            && provenance::live_mission(st, id).replies == 0,
{
    let n: int = st.agents.messages@.len() as int;
    counted_alike(
        n,
        provenance::live_mission_message(more, id),
        provenance::live_mission_message(st, id),
    );
    counted_alike(
        n,
        provenance::live_mission_reply(more, id),
        provenance::live_mission_reply(st, id),
    );
}

/// The changes and findings of a mission are counted in the same way.
pub proof fn a_record_counts_once_for_its_mission(
    st: AppState,
    more: AppState,
    p: Patch,
    e: EvidenceItem,
    id: Seq<char>,
)
    requires
        more.agents.patches@ == st.agents.patches@.push(p),
        more.agents.evidence@ == st.agents.evidence@.push(e),
    ensures
        provenance::live_mission(more, id).patches == provenance::live_mission(st, id).patches + if named(
            p.mission_id,
            id,
        ) {
            1int
        } else {
            0
        },
        provenance::live_mission(more, id).evidence == provenance::live_mission(st, id).evidence
            + if named(e.mission_id, id) {
            1int
        } else {
            0
        },
{
    counted_alike(
        st.agents.patches@.len() as int,
        provenance::live_mission_patch(more, id),
        provenance::live_mission_patch(st, id),
    );
    counted_alike(
        st.agents.evidence@.len() as int,
        provenance::live_mission_evidence(more, id),
        provenance::live_mission_evidence(st, id),
    );
}

/// Outside of missions, the chat with an agent has what the user and this agent said; only what the
/// agent said is a reply.
pub proof fn a_message_counts_once_for_its_chat(
    st: AppState,
    more: AppState,
    m: AgentMessage,
    id: Seq<char>,
)
    requires
        more.agents.messages@ == st.agents.messages@.push(m),
    ensures
        provenance::live_chat(more, id).messages == provenance::live_chat(st, id).messages + if m.mission_id
            is None && (m.agent_id is None || named(m.agent_id, id)) {
            1int
        } else {
            0
        },
        provenance::live_chat(more, id).replies == provenance::live_chat(st, id).replies + if m.mission_id
            is None && named(m.agent_id, id) {
            1int
        } else {
            0
        },
{
    let n: int = st.agents.messages@.len() as int;
    counted_alike(
        n,
        provenance::live_chat_message(more, id),
        provenance::live_chat_message(st, id),
    );
    counted_alike(
        n,
        provenance::live_chat_reply(more, id),
        provenance::live_chat_reply(st, id),
    );
}

/// What is counted of a saved run is counted like what is live.
pub proof fn a_saved_message_counts_once(
    run: PersistedArtifactsRun,
    more: PersistedArtifactsRun,
    m: AgentMessage,
    id: Seq<char>,
)
    requires
        more.messages@ == run.messages@.push(m),
    ensures
        history::mission_counts(more, id).0 == history::mission_counts(run, id).0 + if named(
            m.mission_id,
            id,
        ) {
            1int
        } else {
            0
        },
        history::ad_hoc_counts(more, id).0 == history::ad_hoc_counts(run, id).0 + if m.mission_id
            is None && (m.agent_id is None || named(m.agent_id, id)) {
            1int
        } else {
            0
        },
{
    let n: int = run.messages@.len() as int;
    counted_alike(n, history::mission_message(more, id), history::mission_message(run, id));
    counted_alike(n, history::ad_hoc_message(more, id), history::ad_hoc_message(run, id));
}

/// Live data is told where there is some and no saved run with data is selected; a selected run
/// with data comes before it, and the latest saved run stands in where there is neither.
pub proof fn live_data_comes_before_the_latest_run(
    st: AppState,
    live: Tally,
    tally: spec_fn(PersistedArtifactsRun) -> Tally,
)
    ensures
        st.agents.artifacts_selected_saved_run_path is None && (live.messages > 0 || live.patches > 0
            || live.evidence > 0) ==> provenance::shown_tally(st, live, tally) == live,
        st.agents.artifacts_selected_saved_run_path is None && live.messages == 0 && live.patches
            == 0 && live.evidence == 0 && st.saved.current is Some ==> provenance::shown_tally(
            st,
            live,
            tally,
        ) == tally(st.saved.current->0.run),
{
}

/// One more event counts for one of its severity, and for none of the others.
pub proof fn an_event_counts_once(
    events: Seq<AgentDiagnosticEvent>,
    e: AgentDiagnosticEvent,
    severity: AgentAlertSeverity,
)
    ensures
        diagnostics::count(events.push(e), severity) == diagnostics::count(events, severity) + if e.severity
            == severity {
            1int
        } else {
            0
        },
{
    counts_before(events, e, severity, events.len() as int);
}

proof fn counts_before(
    events: Seq<AgentDiagnosticEvent>,
    e: AgentDiagnosticEvent,
    severity: AgentAlertSeverity,
    n: int,
)
    requires
        n <= events.len(),
    ensures
        diagnostics::count_upto(events.push(e), severity, n) == diagnostics::count_upto(
            events,
            severity,
            n,
        ),
    decreases n,
{
    if n > 0 {
        counts_before(events, e, severity, n - 1);
    }
}

proof fn issues_before(events: Seq<AgentDiagnosticEvent>, e: AgentDiagnosticEvent, n: int)
    requires
        n <= events.len(),
    ensures
        diagnostics::issues_upto(events.push(e), n) == diagnostics::issues_upto(events, n),
    decreases n,
{
    if n > 0 {
        issues_before(events, e, n - 1);
    }
}

/// Warnings and errors are issues, the latest one last; what is only told is none.
pub proof fn warnings_and_errors_are_issues(
    events: Seq<AgentDiagnosticEvent>,
    e: AgentDiagnosticEvent,
)
    requires
        events.len() <= usize::MAX,
    ensures
        e.severity is Info ==> diagnostics::issues(events.push(e)) == diagnostics::issues(events),
        e.severity !is Info ==> diagnostics::issues(events.push(e)) == diagnostics::issues(
            events,
        ).push(events.len() as usize),
        diagnostics::issues(Seq::empty()).len() == 0,
{
    issues_before(events, e, events.len() as int);
}

} // verus!
