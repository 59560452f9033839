//! What the widgets read: the state of the workbench as plain values.

use vstd::prelude::*;

use crate::text;

verus! {

/// A value under a name.
pub struct Entry<V> {
    pub key: String,
    pub value: V,
}

/// The value under `key`: that of the first entry with this name from `i` on.
pub open spec fn value_from<V>(v: Seq<Entry<V>>, key: Seq<char>, i: int) -> Option<V>
    decreases v.len() - i,
{
    if i < 0 || i >= v.len() {
        None
    } else if v[i].key@ == key {
        Some(v[i].value)
    } else {
        value_from(v, key, i + 1)
    }
}

/// The value under `key`.
pub open spec fn value_of<V>(v: Seq<Entry<V>>, key: Seq<char>) -> Option<V> {
    value_from(v, key, 0)
}

pub fn lookup<'a, V>(v: &'a Vec<Entry<V>>, key: &str) -> (r: Option<&'a V>)
    ensures
        match r {
            Some(x) => value_of(v@, key@) == Some(*x),
            None => value_of(v@, key@) is None,
        },
{
    let mut i: usize = 0;
    while i < v.len()
        invariant
            i <= v@.len(),
            value_of(v@, key@) == value_from(v@, key@, i as int),
        decreases v@.len() - i,
    {
        if text::str_eq(v[i].key.as_str(), key) {
            return Some(&v[i].value);
        }
        i += 1;
    }
    None
}

/// The number under `key`.
pub fn lookup_u32(v: &Vec<Entry<u32>>, key: &str) -> (r: Option<u32>)
    ensures
        r == value_of(v@, key@),
{
    match lookup(v, key) {
        Some(x) => Some(*x),
        None => None,
    }
}

/// The number under `outer` and, there, under `inner`.
pub open spec fn nested_value(
    v: Seq<Entry<Vec<Entry<u32>>>>,
    outer: Seq<char>,
    inner: Seq<char>,
) -> Option<u32> {
    match value_of(v, outer) {
        Some(m) => value_of(m@, inner),
        None => None,
    }
}

pub fn lookup_nested(v: &Vec<Entry<Vec<Entry<u32>>>>, outer: &str, inner: &str) -> (r: Option<u32>)
    ensures
        r == nested_value(v@, outer@, inner@),
{
    match lookup(v, outer) {
        Some(m) => lookup_u32(m, inner),
        None => None,
    }
}

/// Whether `s` is among the texts of `v`.
pub open spec fn listed(v: Seq<String>, s: Seq<char>) -> bool {
    exists|i: int| 0 <= i < v.len() && (#[trigger] v[i])@ == s
}

pub fn contains_text(v: &Vec<String>, s: &str) -> (r: bool)
    ensures
        r == listed(v@, s@),
{
    let mut i: usize = 0;
    while i < v.len()
        invariant
            i <= v@.len(),
            forall|j: int| 0 <= j < i ==> (#[trigger] v@[j])@ != s@,
        decreases v@.len() - i,
    {
        if text::str_eq(v[i].as_str(), s) {
            return true;
        }
        i += 1;
    }
    false
}

pub fn clone_opt(o: &Option<String>) -> (r: Option<String>)
    ensures
        r == *o,
{
    match o {
        Some(s) => Some(s.clone()),
        None => None,
    }
}

/// Borrows the text of an optional string.
pub fn as_str<'a>(o: &'a Option<String>) -> (r: Option<&'a str>)
    ensures
        text::opt_str(r) == text::opt_text(*o),
{
    match o {
        Some(s) => Some(s.as_str()),
        None => None,
    }
}

/// Whether two optional texts are the same.
pub fn same_opt(a: &Option<String>, b: &Option<String>) -> (r: bool)
    ensures
        r == (text::opt_text(*a) == text::opt_text(*b)),
{
    match (a, b) {
        (Some(x), Some(y)) => text::str_eq(x.as_str(), y.as_str()),
        (None, None) => true,
        _ => false,
    }
}

/// The name that an agent is shown under: its own where it has no short one.
pub open spec fn shown_id(ids: Seq<Entry<String>>, id: Seq<char>) -> Seq<char> {
    match value_of(ids, id) {
        Some(s) => s@,
        None => id,
    }
}

pub fn compact_agent_display_id(ids: &Vec<Entry<String>>, id: &str) -> (r: String)
    ensures
        r@ == shown_id(ids@, id@),
{
    match lookup(ids, id) {
        Some(s) => s.clone(),
        None => text::copy(id),
    }
}

/// The family of back ends that an agent runs on.
#[derive(Clone, Copy, Debug, PartialEq, Eq, Structural)]
pub enum AgentLaneKind {
    Codex,
    Claude,
    Gemini,
    Mock,
    Unknown,
}

/// What an agent is doing.
#[derive(Clone, Copy, Debug, PartialEq, Eq, Structural)]
pub enum AgentStatus {
    Running,
    Waiting,
    Idle,
    Error,
}

/// An agent as the roster knows it.
pub struct AgentLane {
    pub id: String,
    pub role: String,
    pub kind: AgentLaneKind,
    pub status: AgentStatus,
    pub status_label: String,
    pub heartbeat_age_secs: u64,
    pub queue_len: usize,
    pub current_mission: Option<String>,
    /// Hidden helper of another agent.
    pub shadow: bool,
    /// For a helper, the agent that it helps.
    pub shadow_base: Option<String>,
    /// Chat copy of another agent.
    pub chat_clone: bool,
    /// Can be given priority in a swarm.
    pub swarm_priority: bool,
}

impl AgentLane {
    pub open spec fn codex(&self) -> bool {
        self.kind == AgentLaneKind::Codex
    }

    pub open spec fn claude(&self) -> bool {
        self.kind == AgentLaneKind::Claude
    }

    pub fn is_codex(&self) -> (r: bool)
        ensures
            r == self.codex(),
    {
        self.kind == AgentLaneKind::Codex
    }

    pub fn is_claude(&self) -> (r: bool)
        ensures
            r == self.claude(),
    {
        self.kind == AgentLaneKind::Claude
    }
}

/// A message of the chat.
pub struct AgentMessage {
    /// Who wrote it; nobody for the user.
    pub agent_id: Option<String>,
    pub mission_id: Option<String>,
    pub text: String,
    pub at: String,
    pub kind: Option<String>,
    /// Sent to everybody.
    pub broadcast: bool,
    /// The message that it answers.
    pub prompt_msg_idx: Option<usize>,
}

impl AgentMessage {
    pub fn copy(&self) -> (r: AgentMessage)
        ensures
            r == *self,
    {
        AgentMessage {
            agent_id: clone_opt(&self.agent_id),
            mission_id: clone_opt(&self.mission_id),
            text: self.text.clone(),
            at: self.at.clone(),
            kind: clone_opt(&self.kind),
            broadcast: self.broadcast,
            prompt_msg_idx: self.prompt_msg_idx,
        }
    }
}

/// A turn that an agent is working on, with how long ago it started, was last heard of and last
/// wrote something.
pub struct ActiveTurn {
    pub stage: Option<String>,
    pub elapsed_secs: Option<u64>,
    pub heartbeat_secs: Option<u64>,
    pub output_secs: Option<u64>,
}

/// A turn that waits for its agent.
pub struct QueuedTurn {
    pub agent_id: String,
    pub mission_id: Option<String>,
}

#[derive(Clone, Copy, Debug, PartialEq, Eq, Structural)]
pub enum MissionPhase {
    Plan,
    Execute,
    Verify,
    Report,
}

pub struct Mission {
    pub id: String,
    pub title: String,
    pub phase: MissionPhase,
    pub phase_label: String,
    pub status: String,
    pub swarm: bool,
    pub assigned_agents: Vec<String>,
}

/// The first mission of this name from place `i` on.
pub open spec fn mission_from(missions: Seq<Mission>, id: Seq<char>, i: int) -> Option<int>
    decreases missions.len() - i,
{
    if i < 0 || i >= missions.len() {
        None
    } else if missions[i].id@ == id {
        Some(i)
    } else {
        mission_from(missions, id, i + 1)
    }
}

/// The place of a mission.
pub open spec fn mission_named(missions: Seq<Mission>, id: Seq<char>) -> Option<int> {
    mission_from(missions, id, 0)
}

pub fn find_mission(missions: &Vec<Mission>, id: &str) -> (r: Option<usize>)
    ensures
        match r {
            Some(k) => k < missions@.len() && mission_named(missions@, id@) == Some(k as int),
            None => mission_named(missions@, id@) is None,
        },
{
    let mut i: usize = 0;
    while i < missions.len()
        invariant
            i <= missions@.len(),
            mission_named(missions@, id@) == mission_from(missions@, id@, i as int),
        decreases missions@.len() - i,
    {
        if text::str_eq(missions[i].id.as_str(), id) {
            return Some(i);
        }
        i += 1;
    }
    None
}

/// A change proposed by an agent.
pub struct Patch {
    pub id: String,
    pub mission_id: Option<String>,
    pub agent_id: String,
    pub title: String,
    pub summary: String,
    pub diff: String,
    pub status_label: String,
}

/// A finding of an agent.
pub struct EvidenceItem {
    pub id: String,
    pub mission_id: Option<String>,
    pub agent_id: Option<String>,
    pub title: String,
    pub detail: String,
    pub link: Option<String>,
}

impl EvidenceItem {
    pub fn copy(&self) -> (r: EvidenceItem)
        ensures
            r == *self,
    {
        EvidenceItem {
            id: self.id.clone(),
            mission_id: clone_opt(&self.mission_id),
            agent_id: clone_opt(&self.agent_id),
            title: self.title.clone(),
            detail: self.detail.clone(),
            link: clone_opt(&self.link),
        }
    }
}

/// A change as a saved run holds it.
pub struct PersistedPatchRecord {
    pub id: String,
    pub mission_id: Option<String>,
    pub agent_id: String,
    pub title: String,
    pub summary: String,
    pub diff: String,
    pub status: String,
}

impl PersistedPatchRecord {
    pub fn copy(&self) -> (r: PersistedPatchRecord)
        ensures
            r == *self,
    {
        PersistedPatchRecord {
            id: self.id.clone(),
            mission_id: clone_opt(&self.mission_id),
            agent_id: self.agent_id.clone(),
            title: self.title.clone(),
            summary: self.summary.clone(),
            diff: self.diff.clone(),
            status: self.status.clone(),
        }
    }
}

/// A run that was written to disk.
pub struct PersistedArtifactsRun {
    pub updated_at: Option<String>,
    pub messages: Vec<AgentMessage>,
    pub patches: Vec<PersistedPatchRecord>,
    pub evidence: Vec<EvidenceItem>,
    pub codex_thread_id: Option<String>,
    /// Thread by agent, in the order of the agents' names.
    pub codex_thread_ids: Option<Vec<Entry<String>>>,
    pub swarm: bool,
    pub assigned_agents: Vec<String>,
}

/// A run from the history of the current context.
pub struct ArchivedRun {
    pub run_path: String,
    /// The directory that holds the run; its name starts with the time it was archived.
    pub dir_name: String,
    pub run: PersistedArtifactsRun,
}

/// The latest run of the current context.
pub struct CurrentRun {
    pub run_path: String,
    pub modified_micros: Option<u128>,
    pub run: PersistedArtifactsRun,
}

/// What is on disk for the current context.
pub struct SavedRuns {
    pub archives: Vec<ArchivedRun>,
    pub current: Option<CurrentRun>,
    /// The changes that are kept in files of their own, by their paths.
    pub diffs: Vec<Entry<String>>,
    pub now_micros: u128,
}

#[derive(Clone, Copy, Debug, PartialEq, Eq, Structural)]
pub enum AgentAlertSeverity {
    Info,
    Warn,
    Error,
}

pub struct Alert {
    pub severity: AgentAlertSeverity,
    pub severity_label: String,
    pub at: String,
    pub source: String,
    pub message: String,
}

/// Something that the workbench noticed.
pub struct AgentDiagnosticEvent {
    pub severity: AgentAlertSeverity,
    pub severity_label: String,
    pub at: String,
    pub source: String,
    pub message: String,
}

#[derive(Clone, Copy, Debug, PartialEq, Eq, Structural)]
pub enum McpConnectionState {
    Connected,
    Connecting,
    Disconnected,
    Error,
}

pub struct McpStatus {
    pub state: McpConnectionState,
    pub state_label: String,
    pub endpoint: String,
    pub latency_ms: Option<u64>,
    pub last_error: Option<String>,
}

/// The tabs of the operations pane.
#[derive(Clone, Copy, Debug, PartialEq, Eq, Structural)]
pub enum AgentOpsTab {
    Roster,
    Missions,
    Dag,
    Evidence,
    Mcp,
    Alerts,
    Diagnostics,
    Scratchpad,
    Patch,
}

#[derive(Clone, Copy, Debug, PartialEq, Eq, Structural)]
pub enum RosterTreeBranch {
    Size,
    Role,
}

#[derive(Clone, Copy, Debug, PartialEq, Eq, Structural)]
pub struct RosterTreeSelection {
    pub branch: RosterTreeBranch,
    pub leaf_idx: usize,
}

/// How far back the history of saved runs is shown.
#[derive(Clone, Copy, Debug, PartialEq, Eq, Structural)]
pub enum SavedRunHistoryFilter {
    All,
    LastDay,
    LastWeek,
    LastMonth,
}

/// Which agents are chat copies of which: every copy has a longer name than its base.
pub struct ChatClones {
    entries: Vec<Entry<String>>,
}

impl ChatClones {
    #[verifier::type_invariant]
    spec fn bases_are_shorter(self) -> bool {
        forall|i: int|
            0 <= i < self.entries@.len() ==> (#[trigger] self.entries@[i]).value@.len()
                < self.entries@[i].key@.len()
    }

    pub closed spec fn entries(self) -> Seq<Entry<String>> {
        self.entries@
    }

    /// The agent that `id` is a copy of.
    pub open spec fn base(self, id: Seq<char>) -> Option<Seq<char>> {
        match value_of(self.entries(), id) {
            Some(b) => Some(b@),
            None => None,
        }
    }

    pub fn new() -> (r: ChatClones)
        ensures
            r.entries() == Seq::<Entry<String>>::empty(),
    {
        ChatClones { entries: Vec::new() }
    }

    /// Adds a copy; refused where its name is not longer than that of its base.
    pub fn insert(self, id: String, base: String) -> (r: (ChatClones, bool))
        ensures
            r.1 == (base@.len() < id@.len()),
            r.1 ==> r.0.entries() == self.entries().push(Entry { key: id, value: base }),
            !r.1 ==> r.0.entries() == self.entries(),
    {
        proof {
            use_type_invariant(&self);
        }
        let shorter: bool = text::length(base.as_str()) < text::length(id.as_str());
        let mut entries: Vec<Entry<String>> = self.entries;
        if shorter {
            entries.push(Entry { key: id, value: base });
        }
        (ChatClones { entries }, shorter)
    }

    pub fn base_of<'a>(&'a self, id: &str) -> (r: Option<&'a str>)
        ensures
            text::opt_str(r) == self.base(id@),
            r matches Some(b) ==> b@.len() < id@.len(),
    {
        proof {
            use_type_invariant(self);
        }
        let v: &Vec<Entry<String>> = &self.entries;
        let mut i: usize = 0;
        while i < v.len()
            invariant
                i <= v@.len(),
                v@ == self.entries(),
                self.bases_are_shorter(),
                value_of(v@, id@) == value_from(v@, id@, i as int),
            decreases v@.len() - i,
        {
            if text::str_eq(v[i].key.as_str(), id) {
                return Some(v[i].value.as_str());
            }
            i += 1;
        }
        None
    }
}

/// The agents, what they said and what they are doing.
pub struct AgentsState {
    pub agents: Vec<AgentLane>,
    pub chat_clones: ChatClones,
    /// The canonical names of roles that have one.
    pub role_names: Vec<Entry<String>>,
    /// Agents by the short names they are shown under.
    pub display_ids: Vec<Entry<String>>,
    pub messages: Vec<AgentMessage>,
    pub missions: Vec<Mission>,
    pub patches: Vec<Patch>,
    pub evidence: Vec<EvidenceItem>,
    pub alerts: Vec<Alert>,
    pub diag_events: Vec<AgentDiagnosticEvent>,
    pub mcp: McpStatus,
    pub context_mission: Option<String>,
    pub context_agent: Option<String>,
    pub active_turns: Vec<Entry<ActiveTurn>>,
    pub queued_codex_turns: Vec<QueuedTurn>,
    pub queued_claude_turns: Vec<QueuedTurn>,
    pub codex_turn_prompt_idx: Vec<Entry<usize>>,
    pub claude_turn_prompt_idx: Vec<Entry<usize>>,
    pub codex_context_remaining_pct: Vec<Entry<u32>>,
    pub claude_context_remaining_pct: Vec<Entry<u32>>,
    pub codex_mission_context_remaining_pct: Vec<Entry<Vec<Entry<u32>>>>,
    pub claude_mission_context_remaining_pct: Vec<Entry<Vec<Entry<u32>>>>,
    pub codex_used_tokens: Vec<Entry<u32>>,
    pub claude_used_tokens: Vec<Entry<u32>>,
    pub codex_mission_used_tokens: Vec<Entry<Vec<Entry<u32>>>>,
    pub claude_mission_used_tokens: Vec<Entry<Vec<Entry<u32>>>>,
    pub codex_effective_context_window_tokens: Vec<Entry<u32>>,
    pub claude_effective_context_window_tokens: Vec<Entry<u32>>,
    pub codex_thread_ids: Vec<Entry<String>>,
    pub claude_session_ids: Vec<Entry<String>>,
    pub codex_mission_thread_ids: Vec<Entry<Vec<Entry<String>>>>,
    pub claude_mission_session_ids: Vec<Entry<Vec<Entry<String>>>>,
    pub codex_supported_reasoning_efforts: Vec<Entry<Vec<String>>>,
    pub claude_supported_efforts: Vec<Entry<Vec<String>>>,
    pub codex_selected_reasoning_effort: Vec<Entry<String>>,
    pub codex_default_reasoning_effort: Vec<Entry<String>>,
    pub claude_selected_effort: Vec<Entry<String>>,
    pub claude_default_effort: Vec<Entry<String>>,
    pub codex_cli_available: bool,
    pub claude_cli_available: bool,
    /// What the agents of this back end are called on the screen: the name of its kind.
    pub claude_label: String,
    pub gemini_cli_available: bool,
    pub dock_tab: AgentOpsTab,
    pub ops_scroll: usize,
    pub roster_selected: usize,
    pub roster_selected_backend: Option<AgentLaneKind>,
    pub roster_expanded_backend_kinds: Vec<AgentLaneKind>,
    pub roster_tree_selected: Option<RosterTreeSelection>,
    pub roster_tree_collapsed_agent_ids: Vec<String>,
    pub swarm_priority_agent_ids: Vec<String>,
    pub swarm_role_by_agent_id: Vec<Entry<String>>,
    pub swarm_default_template: String,
    pub swarm_default_mission: String,
    pub mission_selected: usize,
    pub alert_selected: usize,
    pub artifacts_selected: usize,
    pub artifacts_collapsed_prompts: Vec<usize>,
    pub artifacts_history_filter: SavedRunHistoryFilter,
    pub artifacts_selected_saved_run_path: Option<String>,
    pub chat_input: String,
    pub chat_input_cursor: usize,
    pub chat_input_scroll: usize,
    pub chat_input_selection_anchor: Option<usize>,
    pub console_scroll: usize,
    pub console_max_scroll: usize,
}

/// A task of a swarm as its dashboard shows it.
pub struct SwarmDashboardTask {
    pub id: String,
    pub title: String,
    pub state: String,
    pub agent_id: String,
    pub role: Option<String>,
    pub deps: Vec<String>,
    pub blocked_on: Vec<String>,
    pub writes: bool,
    pub output_present: bool,
    pub done_when: Option<String>,
}

/// A check that a swarm's result has to pass.
pub struct SwarmDashboardGate {
    pub name: String,
    pub status: String,
    pub command: String,
    pub notes: Option<String>,
}

pub struct SwarmDashboardView {
    pub mission_id: String,
    pub template: String,
    pub phase: String,
    pub tasks: Vec<SwarmDashboardTask>,
    pub gates: Vec<SwarmDashboardGate>,
    pub gate_bundle: Option<String>,
    pub done: usize,
    pub failed: usize,
    pub running: usize,
    pub queued: usize,
    pub pending: usize,
    pub skipped: usize,
}

pub struct ArtifactFile {
    pub path: String,
    pub notes: Option<String>,
}

pub struct ArtifactDiff {
    pub summary: String,
    pub path: Option<String>,
}

pub struct ArtifactCommand {
    pub cmd: String,
    pub purpose: Option<String>,
}

pub struct ArtifactRisk {
    pub level: Option<String>,
    pub item: String,
    pub mitigation: Option<String>,
}

/// What a task of a swarm says it produced.
pub struct SwarmTaskArtifacts {
    pub summary: Option<String>,
    pub files: Vec<ArtifactFile>,
    pub diffs: Vec<ArtifactDiff>,
    pub commands: Vec<ArtifactCommand>,
    pub risks: Vec<ArtifactRisk>,
    pub notes: Vec<String>,
}

pub struct SwarmTaskPersistenceView {
    pub id: String,
    pub title: String,
    pub state: String,
    pub agent_id: String,
    pub role: Option<String>,
    pub deps: Vec<String>,
    pub blocked_on: Vec<String>,
    pub writes: bool,
    pub output_present: bool,
    pub output: Option<String>,
    pub done_when: Option<String>,
    pub expected_artifacts: Vec<String>,
    pub expected_artifacts_missing: bool,
    pub artifacts: Option<SwarmTaskArtifacts>,
}

pub struct GateReportGate {
    pub name: String,
    pub ok: bool,
    pub status: Option<String>,
    pub command: String,
    pub notes: Option<String>,
}

pub struct GateReport {
    pub overall_ok: bool,
    pub gates: Vec<GateReportGate>,
}

/// A swarm as it is kept on disk.
pub struct SwarmPersistenceView {
    pub mission_id: String,
    pub template: String,
    pub phase: String,
    pub tasks: Vec<SwarmTaskPersistenceView>,
    pub report_output: Option<String>,
    pub report_status: Option<String>,
    pub report_agent_id: Option<String>,
    pub gate_bundle: Option<String>,
    pub gate_report: Option<GateReport>,
    pub gate_output: Option<String>,
}

/// How far the swarm of a mission is.
pub struct SwarmProgress {
    pub stage: Option<String>,
    pub hint: Option<String>,
    pub complete: bool,
    pub aborted: bool,
    pub planner_agent_id: Option<String>,
}

/// The swarms, by mission.
pub struct SwarmRuntime {
    pub dashboards: Vec<Entry<SwarmDashboardView>>,
    pub persistence: Vec<Entry<SwarmPersistenceView>>,
    pub progress: Vec<Entry<SwarmProgress>>,
}

/// What the workbench runs.
#[derive(Clone, Copy, Debug, PartialEq, Eq, Structural)]
pub enum AppKind {
    Gol,
    Games,
}

#[derive(Clone, Copy, Debug, PartialEq, Eq, Structural)]
pub enum GamesStatus {
    Idle,
    Running,
    Paused,
    Done,
    Error,
}

/// Where the games are computed.
#[derive(Clone, Copy, Debug, PartialEq, Eq, Structural)]
pub enum RuntimeAcceleratorBackend {
    Other,
    Cpu,
    Metal,
}

/// The job of the workbench.
pub struct JobState {
    pub app_kind: AppKind,
    pub games_status: GamesStatus,
    pub games_running: bool,
    pub backend: RuntimeAcceleratorBackend,
    pub metal_matches: u64,
    pub cpu_matches: u64,
    pub visualizer_running: bool,
    pub visualizer_paused: bool,
}

/// The state of the whole workbench, as far as the widgets read it.
pub struct AppState {
    pub agents: AgentsState,
    pub job: JobState,
    /// The lines that were logged.
    pub logs: Vec<String>,
    /// The lines of the notes, each with its line end.
    pub notes: Vec<String>,
    pub saved: SavedRuns,
    pub debug: bool,
    pub frame_count: u64,
    /// Only ASCII markers are drawn.
    pub ascii_fallback: bool,
    /// Agent tables are shown in full.
    pub roster_no_truncate: bool,
    /// What a helper of the current agent is doing.
    pub shadow_stage: Option<String>,
    /// The chat has the keyboard.
    pub chat_focused: bool,
}

} // verus!
