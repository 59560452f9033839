use nit_widgets::agent_console_view::console;
use nit_widgets::agent_console_view::cache;
use nit_widgets::agent_console_view::cache::RowsCache;
use nit_widgets::agent_console_view::footer;
use nit_widgets::agent_console_view::highlights;
use nit_widgets::agent_console_view::layout;
use nit_widgets::agent_console_view::layout::ChatCursor;
use nit_widgets::agent_console_view::messages;
use nit_widgets::agent_console_view::rows::ThreadRow;
use nit_widgets::agent_console_view::rows::ThreadRowKind;
use nit_widgets::agent_console_view::pane_table;
use nit_widgets::agent_console_view::stages;
use nit_widgets::agent_console_view::thread;
use nit_widgets::agent_console_view::thread_lines;
use nit_widgets::agent_console_view::turns;
use nit_widgets::agent_ops_view::alerts;
use nit_widgets::agent_ops_view::archive;
use nit_widgets::agent_ops_view::archive::RunFile;
use nit_widgets::agent_ops_view::artifacts;
use nit_widgets::agent_ops_view::artifacts_styled;
use nit_widgets::agent_ops_view::cards::ArtifactsPopupRef;
use nit_widgets::agent_ops_view::context_cards;
use nit_widgets::agent_ops_view::dag;
use nit_widgets::agent_ops_view::dag_styled;
use nit_widgets::agent_ops_view::diagnostics;
use nit_widgets::agent_ops_view::grouping;
use nit_widgets::agent_ops_view::history;
use nit_widgets::agent_ops_view::mcp;
use nit_widgets::agent_ops_view::missions;
use nit_widgets::agent_ops_view::pane;
use nit_widgets::agent_ops_view::popup;
use nit_widgets::agent_ops_view::roster;
use nit_widgets::agent_ops_view::roster::RosterBodyMeta;
use nit_widgets::agent_ops_view::roster::RosterBodyNode;
use nit_widgets::agent_ops_view::roster::RosterSelectableRow;
use nit_widgets::agent_ops_view::roster_lines;
use nit_widgets::agent_ops_view::tabs;
use nit_widgets::artifacts_popup::code;
use nit_widgets::artifacts_popup::code::SyntaxTables;
use nit_widgets::artifacts_popup::code::Wait;
use nit_widgets::artifacts_popup::content;
use nit_widgets::artifacts_popup::input;
use nit_widgets::artifacts_popup::input::PopupView;
use nit_widgets::geometry::Rect;
use nit_widgets::state::ActiveTurn;
use nit_widgets::state::AgentAlertSeverity;
use nit_widgets::state::AgentDiagnosticEvent;
use nit_widgets::state::AgentLane;
use nit_widgets::state::AgentLaneKind;
use nit_widgets::state::AgentMessage;
use nit_widgets::state::AgentOpsTab;
use nit_widgets::state::AgentStatus;
use nit_widgets::state::AgentsState;
use nit_widgets::state::Alert;
use nit_widgets::state::AppKind;
use nit_widgets::state::AppState;
use nit_widgets::state::ArchivedRun;
use nit_widgets::state::ChatClones;
use nit_widgets::state::CurrentRun;
use nit_widgets::state::Entry;
use nit_widgets::state::EvidenceItem;
use nit_widgets::state::GamesStatus;
use nit_widgets::state::GateReport;
use nit_widgets::state::GateReportGate;
use nit_widgets::state::JobState;
use nit_widgets::state::McpConnectionState;
use nit_widgets::state::McpStatus;
use nit_widgets::state::Mission;
use nit_widgets::state::MissionPhase;
use nit_widgets::state::Patch;
use nit_widgets::state::PersistedArtifactsRun;
use nit_widgets::state::QueuedTurn;
use nit_widgets::state::RosterTreeBranch;
use nit_widgets::state::RuntimeAcceleratorBackend;
use nit_widgets::state::SavedRunHistoryFilter;
use nit_widgets::state::SavedRuns;
use nit_widgets::state::SwarmDashboardGate;
use nit_widgets::state::SwarmDashboardTask;
use nit_widgets::state::SwarmDashboardView;
use nit_widgets::state::SwarmPersistenceView;
use nit_widgets::state::SwarmRuntime;
use nit_widgets::state::SwarmTaskPersistenceView;
use nit_widgets::style::Color;
use nit_widgets::style::HighlightColors;
use nit_widgets::style::Line;
use nit_widgets::style::Style;
use nit_widgets::style::Theme;

fn theme() -> Theme {
    Theme {
        accent: Color::Rgb(1, 1, 1),
        accent_2: Color::Rgb(2, 2, 2),
        background: Color::Rgb(0, 0, 0),
        border: Color::Rgb(3, 3, 3),
        border_focused: Color::Rgb(4, 4, 4),
        bracket_match: Color::Rgb(5, 5, 5),
        cursor_line_bg: Color::Rgb(100, 100, 100),
        diff_added: Color::Rgb(7, 7, 7),
        diff_deleted: Color::Rgb(8, 8, 8),
        diff_modified: Color::Rgb(9, 9, 9),
        error: Color::Rgb(10, 10, 10),
        foreground: Color::Rgb(11, 11, 11),
        hl: HighlightColors {
            boolean: Color::Rgb(20, 0, 0),
            emphasis: Color::Rgb(21, 0, 0),
            heading: Color::Rgb(22, 0, 0),
            keyword: Color::Rgb(23, 0, 0),
            link: Color::Rgb(24, 0, 0),
            number: Color::Rgb(25, 0, 0),
            operator: Color::Rgb(26, 0, 0),
            property: Color::Rgb(27, 0, 0),
            punctuation: Color::Rgb(28, 0, 0),
            string: Color::Rgb(29, 0, 0),
        },
        selection_bg: Color::Rgb(12, 12, 12),
        success: Color::Rgb(13, 13, 13),
        title: Color::Rgb(14, 14, 14),
        title_focused: Color::Rgb(15, 15, 15),
        warning: Color::Rgb(16, 16, 16),
    }
}

fn s(text: &str) -> String {
    text.to_string()
}

fn lane(id: &str, role: &str, kind: AgentLaneKind) -> AgentLane {
    AgentLane {
        id: s(id),
        role: s(role),
        kind,
        status: AgentStatus::Idle,
        status_label: s("idle"),
        heartbeat_age_secs: 3,
        queue_len: 0,
        current_mission: None,
        shadow: false,
        shadow_base: None,
        chat_clone: false,
        swarm_priority: true,
    }
}

fn message(agent: Option<&str>, mission: Option<&str>, text: &str) -> AgentMessage {
    AgentMessage {
        agent_id: agent.map(s),
        mission_id: mission.map(s),
        text: s(text),
        at: s("10:00"),
        kind: None,
        broadcast: false,
        prompt_msg_idx: None,
    }
}

fn mission(id: &str, title: &str, agents: &[&str]) -> Mission {
    Mission {
        id: s(id),
        title: s(title),
        phase: MissionPhase::Execute,
        phase_label: s("execute"),
        status: s("running"),
        swarm: false,
        assigned_agents: agents.iter().map(|a| s(a)).collect(),
    }
}

fn alert(text: &str) -> Alert {
    Alert {
        severity: AgentAlertSeverity::Warn,
        severity_label: s("warn"),
        at: s("10:00"),
        source: s("mcp"),
        message: s(text),
    }
}

fn state() -> AppState {
    AppState {
        agents: AgentsState {
            agents: vec![
                lane("codex", "coder", AgentLaneKind::Codex),
                lane("gemini", "tester", AgentLaneKind::Gemini),
            ],
            chat_clones: ChatClones::new(),
            role_names: Vec::new(),
            display_ids: Vec::new(),
            messages: vec![
                message(None, None, "What is next?"),
                message(Some("codex"), None, "Run `cargo test` now."),
            ],
            missions: vec![mission("mis-001", "Tidy up", &["codex", "gemini"]), mission("mis-002", "Ship", &[])],
            patches: vec![Patch {
                id: s("p1"),
                mission_id: None,
                agent_id: s("codex"),
                title: s("Fix"),
                summary: s("fixes it"),
                diff: s("+a\n-b"),
                status_label: s("proposed"),
            }],
            evidence: vec![EvidenceItem {
                id: s("e1"),
                mission_id: None,
                agent_id: Some(s("codex")),
                title: s("Log"),
                detail: s("all green"),
                link: None,
            }],
            alerts: vec![alert("first alert"), alert("second alert")],
            diag_events: vec![AgentDiagnosticEvent {
                severity: AgentAlertSeverity::Error,
                severity_label: s("error"),
                at: s("10:01"),
                source: s("codex"),
                message: s("broke"),
            }],
            mcp: McpStatus {
                state: McpConnectionState::Connected,
                state_label: s("connected"),
                endpoint: s("http://localhost"),
                latency_ms: Some(12),
                last_error: None,
            },
            context_mission: None,
            context_agent: Some(s("codex")),
            active_turns: Vec::new(),
            queued_codex_turns: Vec::new(),
            queued_claude_turns: Vec::new(),
            codex_turn_prompt_idx: Vec::new(),
            claude_turn_prompt_idx: Vec::new(),
            codex_context_remaining_pct: Vec::new(),
            claude_context_remaining_pct: Vec::new(),
            codex_mission_context_remaining_pct: Vec::new(),
            claude_mission_context_remaining_pct: Vec::new(),
            codex_used_tokens: Vec::new(),
            claude_used_tokens: Vec::new(),
            codex_mission_used_tokens: Vec::new(),
            claude_mission_used_tokens: Vec::new(),
            codex_effective_context_window_tokens: Vec::new(),
            claude_effective_context_window_tokens: Vec::new(),
            codex_thread_ids: Vec::new(),
            claude_session_ids: Vec::new(),
            codex_mission_thread_ids: Vec::new(),
            claude_mission_session_ids: Vec::new(),
            codex_supported_reasoning_efforts: vec![Entry {
                key: s("codex"),
                value: vec![s("low"), s("high")],
            }],
            claude_supported_efforts: Vec::new(),
            codex_selected_reasoning_effort: vec![Entry { key: s("codex"), value: s("high") }],
            codex_default_reasoning_effort: Vec::new(),
            claude_selected_effort: Vec::new(),
            claude_default_effort: Vec::new(),
            codex_cli_available: true,
            claude_cli_available: false,
            claude_label: format!("{:?}", AgentLaneKind::Claude),
            gemini_cli_available: true,
            dock_tab: AgentOpsTab::Roster,
            ops_scroll: 0,
            roster_selected: 0,
            roster_selected_backend: None,
            roster_expanded_backend_kinds: vec![AgentLaneKind::Codex],
            roster_tree_selected: None,
            roster_tree_collapsed_agent_ids: Vec::new(),
            swarm_priority_agent_ids: Vec::new(),
            swarm_role_by_agent_id: Vec::new(),
            swarm_default_template: s("default"),
            swarm_default_mission: s("code"),
            mission_selected: 0,
            alert_selected: 1,
            artifacts_selected: 0,
            artifacts_collapsed_prompts: Vec::new(),
            artifacts_history_filter: SavedRunHistoryFilter::All,
            artifacts_selected_saved_run_path: None,
            chat_input: s("hello world"),
            chat_input_cursor: 5,
            chat_input_scroll: 0,
            chat_input_selection_anchor: None,
            console_scroll: usize::MAX,
            console_max_scroll: 0,
        },
        job: JobState {
            app_kind: AppKind::Games,
            games_status: GamesStatus::Running,
            games_running: true,
            backend: RuntimeAcceleratorBackend::Cpu,
            metal_matches: 0,
            cpu_matches: 7,
            visualizer_running: false,
            visualizer_paused: false,
        },
        logs: vec![s("2024-01-01T00:00:00Z INFO nit: started")],
        notes: vec![s("a note\n")],
        saved: SavedRuns { archives: Vec::new(), current: None, diffs: Vec::new(), now_micros: 1_700_000_000_000_000 },
        debug: false,
        frame_count: 0,
        ascii_fallback: false,
        roster_no_truncate: false,
        shadow_stage: None,
        chat_focused: true,
    }
}

fn no_swarm() -> SwarmRuntime {
    SwarmRuntime { dashboards: Vec::new(), persistence: Vec::new(), progress: Vec::new() }
}

fn dashboard() -> SwarmDashboardView {
    SwarmDashboardView {
        mission_id: s("mis-001"),
        template: s("default"),
        phase: s("execute"),
        tasks: vec![SwarmDashboardTask {
            id: s("t1"),
            title: s("Do it"),
            state: s("running"),
            agent_id: s("codex"),
            role: Some(s("coder")),
            deps: Vec::new(),
            blocked_on: Vec::new(),
            writes: true,
            output_present: false,
            done_when: None,
        }],
        gates: vec![SwarmDashboardGate { name: s("tests"), status: s("ok"), command: s("cargo test"), notes: None }],
        gate_bundle: None,
        done: 0,
        failed: 0,
        running: 1,
        queued: 0,
        pending: 0,
        skipped: 0,
    }
}

fn run(updated: &str) -> PersistedArtifactsRun {
    PersistedArtifactsRun {
        updated_at: Some(s(updated)),
        messages: vec![message(None, None, "old prompt"), message(Some("codex"), None, "old reply")],
        patches: Vec::new(),
        evidence: Vec::new(),
        codex_thread_id: None,
        codex_thread_ids: None,
        swarm: false,
        assigned_agents: Vec::new(),
    }
}

fn archived(dir: &str) -> ArchivedRun {
    ArchivedRun { run_path: format!("{}/run.json", dir), dir_name: s(dir), run: run("yesterday") }
}

fn plain(line: &Line) -> String {
    line.spans.iter().map(|x| x.text.as_str()).collect()
}

fn bars() -> Vec<String> {
    ["ROSTER", "MISSIONS", "DAG", "ARTIFACTS", "MCP", "ALERTS", "DIAG", "PAD"].iter().map(|x| s(x)).collect()
}

fn busy() -> AppState {
    let mut st = state();
    st.agents.active_turns.push(Entry {
        key: s("codex"),
        value: ActiveTurn {
            stage: Some(s("thinking")),
            elapsed_secs: Some(65),
            heartbeat_secs: Some(2),
            output_secs: Some(1),
        },
    });
    st
}

fn screen() -> Rect {
    Rect { x: 0, y: 0, width: 60, height: 20 }
}

#[test]
fn roster_clicks_match_its_lines() {
    let st = state();
    let lines = roster_lines::roster_lines(&st, None, 60);
    let offset = roster_lines::roster_body_offset(&st);
    assert_eq!(lines[roster_lines::roster_swarm_template_line_idx(&st)], " Template:  lab   parallel   bulk ");
    assert_eq!(
        lines[roster_lines::roster_swarm_mission_line_idx(&st)],
        " Mission:   auto   general   research   computational "
    );
    let nodes: Vec<RosterBodyMeta> =
        (0..6).map(|k| roster_lines::roster_meta_for_body_line(&st, k).unwrap()).collect();
    assert_eq!(nodes[0].node, RosterBodyNode::Backend { backend: AgentLaneKind::Codex });
    assert_eq!(nodes[1], RosterBodyMeta { agent_idx: Some(0), node: RosterBodyNode::Agent });
    assert!(lines[offset + 1].contains("coder"));
    assert_eq!(nodes[4].node, RosterBodyNode::Leaf { branch: RosterTreeBranch::Size, leaf_idx: 1 });
    assert!(lines[offset + 4].contains("high"));
    assert_eq!(nodes[5].node, RosterBodyNode::Backend { backend: AgentLaneKind::Gemini });
    assert_eq!(lines.len(), offset + 7);
    assert!(lines[offset + 6].chars().all(|c| c == '─'));
    assert_eq!(roster_lines::roster_meta_for_body_line(&st, 6), None);
}

#[test]
fn template_names_can_be_clicked() {
    let line = " Template:  lab   parallel   bulk ";
    assert_eq!(roster_lines::roster_swarm_template_hit(line.find("lab").unwrap()), Some("lab"));
    assert_eq!(roster_lines::roster_swarm_template_hit(line.find("bulk").unwrap()), Some("bulk"));
    assert_eq!(roster_lines::roster_swarm_template_hit(0), None);
    assert_eq!(roster_lines::roster_swarm_template_hit(16), None);
    assert_eq!(roster_lines::roster_swarm_mission_hit(12), Some("auto"));
}

#[test]
fn the_selected_row_can_be_selected() {
    let st = state();
    let rows = roster::roster_selection_rows(&st);
    assert_eq!(
        rows,
        vec![
            RosterSelectableRow::Backend { backend: AgentLaneKind::Codex },
            RosterSelectableRow::Agent { agent_idx: 0 },
            RosterSelectableRow::Backend { backend: AgentLaneKind::Gemini },
        ]
    );
    assert!(rows.contains(&roster::roster_selected_row(&st).unwrap()));
    assert_eq!(roster::roster_first_agent_idx_for_backend(&st, AgentLaneKind::Gemini), Some(1));
}

#[test]
fn mission_clicks_match_its_lines() {
    let st = state();
    let lines = missions::mission_lines(&st, 70);
    assert_eq!(lines[0], " MISSION      PHASE    SWM   STATUS       AGENTS                      ");
    assert_eq!(lines[3], "➜mis-001      execute  no    running      │codex                     │");
    assert_eq!(lines[4], "↳                                         │gemini                    │");
    assert_eq!(lines[7], "↳mis-002      execute  no    running      │--                        │");
    assert_eq!(lines.len(), 9);
    let rows: Vec<Option<usize>> = (0..8).map(|k| missions::mission_index_for_body_line(&st, k)).collect();
    assert_eq!(rows, vec![Some(0), Some(0), Some(0), Some(0), Some(1), Some(1), Some(1), None]);
    assert_eq!(missions::mission_body_meta(&st, 2).unwrap().agent_row, Some(1));
    assert_eq!(missions::mission_body_meta(&st, 3).unwrap().agent_row, None);
}

#[test]
fn alert_clicks_match_its_lines() {
    let mut st = state();
    st.agents.alerts.push(alert("a message that is much too long for its column"));
    let lines = alerts::alert_lines(&st, 50);
    assert_eq!(lines[2], "↳warn  10:00    mcp        first alert            ");
    assert_eq!(lines[3], "➜warn  10:00    mcp        second alert           ");
    assert_eq!(alerts::alert_index_for_body_line(&st, 50, 1), Some(1));
    for k in 2..lines.len() - 2 {
        let meta = alerts::alert_body_meta(&st, 50, k).unwrap();
        assert_eq!((meta.alert_idx, meta.wrap_row), (2, k - 2));
    }
    assert_eq!(alerts::alert_body_meta(&st, 50, lines.len() - 2), None);
}

#[test]
fn diagnostics_are_summed_up() {
    let lines = diagnostics::diagnostics_lines(&state(), 60);
    assert_eq!(
        lines[2..],
        [
            " Summary",
            " app:        games",
            " job:        games/running",
            " accel:      cpu (matches 7)",
            " diagnostics: 1 error  0 warn  0 info",
            " latest_issue: 10:01 error codex broke",
            "",
            " Recent issues",
            " error 10:01   codex      broke",
            "",
            " Runtime log tail",
            " · 00:00:00 INFO nit started",
        ]
    );
}

#[test]
fn the_connection_is_described() {
    let mut st = state();
    st.agents.mcp.last_error = Some(s("{\"code\":7}"));
    let lines = mcp::mcp_lines(&st, 60);
    assert_eq!(lines[2], " STATE       connected                                      ");
    assert_eq!(lines[4], " LATENCY     12ms                                           ");
    assert!(lines.iter().any(|l| l.trim_end().ends_with("\"code\": 7")));
    let notes = diagnostics::scratchpad_lines(&st, 30);
    assert_eq!(notes[0], " SCRATCHPAD");
    assert_eq!(notes[3].trim_end(), "a note");
}

#[test]
fn tasks_and_gates_are_listed() {
    let st = state();
    let lines = dag::dag_lines_for_dashboard(&st.agents.display_ids, &dashboard(), 60, '>');
    assert_eq!(lines[2], " Status: RUNNING | Mission: mis-001 | Template: default");
    assert_eq!(lines[4], " Done: 0/1 | Fail: 0 | Run: 1 | Queue: 0 | Pending: 0");
    assert_eq!(lines[8], "> t1         running Do it                                   ");
    assert_eq!(lines[9], "                    > agent: codex  role: coder             ");
    assert_eq!(lines[14], " tests      ok       cargo test                             ");
}

#[test]
fn cards_are_found_by_their_lines() {
    let mut st = state();
    let lines = artifacts::artifacts_lines(&st, None, 60);
    assert_eq!(lines[3], " Msgs: 2 | Replies: 1 | Patches: 1 | Thread: no");
    assert_eq!(
        lines[13..],
        [
            " Items",
            ">➜ PROMPT   10:00    You        What is next?               ",
            "   ↳ REPLY    10:00    codex      Run `cargo test` now.     ",
            "   ↳ PATCH    proposed codex      Fix                       ",
        ]
    );
    assert_eq!(artifacts::artifacts_card_count(&lines), 3);
    for k in 0..3usize {
        let at = artifacts::artifacts_card_line_for_index(&lines, k).unwrap();
        assert_eq!(artifacts::artifacts_card_index_for_line(&lines, at), Some(k));
    }
    assert_eq!(artifacts::artifacts_card_index_for_line(&lines, 13), None);
    assert_eq!(artifacts::artifacts_card_line_for_index(&lines, 3), None);
    st.agents.artifacts_collapsed_prompts = vec![0];
    let folded = artifacts::artifacts_lines(&st, None, 60);
    assert_eq!(folded[14], ">➜ PROMPT   10:00    You        What is next? [2 hidden]");
    assert_eq!(folded.len(), 15);
    assert_eq!(artifacts::artifacts_card_count(&folded), 1);
    assert_eq!(artifacts::artifacts_shown_cards(&st, None, 60), vec![0]);
}

#[test]
fn folded_prompts_hide_their_own_cards_alone() {
    let mut st = state();
    st.agents.messages.push(message(None, None, "And then?"));
    st.agents.messages.push(message(Some("codex"), None, "Ship it."));
    let open = artifacts::artifacts_lines(&st, None, 60);
    let all = artifacts::artifacts_card_count(&open);
    assert_eq!(artifacts::artifacts_shown_cards(&st, None, 60), (0..all).collect::<Vec<usize>>());
    let cards = context_cards::artifact_cards_for_context(&st, None, 40);
    let second = cards.iter().rposition(|c| c.kind == "PROMPT").unwrap();
    assert!(second > 0);
    st.agents.artifacts_collapsed_prompts = vec![0];
    let folded = artifacts::artifacts_lines(&st, None, 60);
    let shown = artifacts::artifacts_shown_cards(&st, None, 60);
    assert_eq!(shown[0], 0);
    assert_eq!(shown[1], second);
    assert_eq!(shown.len(), all - (second - 1));
    assert_eq!(artifacts::artifacts_card_count(&folded), shown.len());
    for (k, _) in shown.iter().enumerate() {
        let at = artifacts::artifacts_card_line_for_index(&folded, k).unwrap();
        assert_eq!(artifacts::artifacts_card_index_for_line(&folded, at), Some(k));
    }
    assert!(folded.iter().any(|l| l.contains("Ship it.")));
    assert!(!folded.iter().any(|l| l.contains("cargo test")));
}

#[test]
fn reports_are_shown_under_folded_prompts() {
    let mut st = swarm_state();
    let swarm = swarm_runtime();
    let cards = context_cards::artifact_cards_for_context(&st, Some(&swarm), 40);
    st.agents.artifacts_collapsed_prompts = (0..cards.len()).collect();
    for i in artifacts::artifacts_shown_cards(&st, Some(&swarm), 60) {
        let after_prompt = cards[..i].iter().any(|c| c.kind == "PROMPT");
        assert!(!after_prompt || ["PROMPT", "REPORT", "VERIFY"].contains(&cards[i].kind));
    }
    let lines = artifacts::artifacts_lines(&st, Some(&swarm), 60);
    assert!(lines.iter().any(|l| l.contains("REPORT")));
    assert!(lines.iter().any(|l| l.contains("VERIFY")));
}

#[test]
fn selected_artifacts_can_be_opened() {
    let mut st = state();
    assert!(popup::is_selected_artifact_prompt(&st, &no_swarm(), 60));
    assert_eq!(popup::artifacts_card_index_for_message(&st, None, 60, 1), Some(1));
    st.agents.artifacts_selected = 1;
    assert!(!popup::is_selected_artifact_prompt(&st, &no_swarm(), 60));
    assert_eq!(popup::selected_artifact_agent_id(&st, &no_swarm(), 60), Some(s("codex")));
    assert_eq!(popup::selected_artifact_mission_id(&st, &no_swarm(), 60), None);
    match popup::artifacts_popup_ref(&st, &no_swarm(), 60) {
        Some(ArtifactsPopupRef::Message { idx }) => assert_eq!(idx, 1),
        _ => panic!("the reply is not selected"),
    }
    let shown = popup::artifacts_popup_strings(&st, &no_swarm(), 60);
    assert!(shown.iter().any(|l| l.contains("Run `cargo test` now.")));
    st.agents.artifacts_selected = 2;
    assert_eq!(popup::selected_artifact_agent_id(&st, &no_swarm(), 60), Some(s("codex")));
    st.agents.patches[0].mission_id = None;
    assert_eq!(popup::selected_artifact_mission_id(&st, &no_swarm(), 60), None);
}

#[test]
fn saved_artifacts_know_who_made_them() {
    let mut st = state();
    st.saved.archives = vec![archived("1699990000000000-a")];
    st.agents.artifacts_selected_saved_run_path = Some(s("1699990000000000-a/run.json"));
    let cards = context_cards::artifact_cards_for_context(&st, None, 40);
    st.agents.artifacts_selected = cards.iter().position(|c| c.kind == "REPLY").unwrap();
    assert_eq!(popup::selected_artifact_agent_id(&st, &no_swarm(), 60), Some(s("codex")));
    assert_eq!(popup::selected_artifact_mission_id(&st, &no_swarm(), 60), None);
    for m in st.saved.archives[0].run.messages.iter_mut() {
        m.mission_id = Some(s("mis-001"));
    }
    st.agents.context_agent = None;
    st.agents.context_mission = Some(s("mis-001"));
    let cards = context_cards::artifact_cards_for_context(&st, None, 40);
    st.agents.artifacts_selected = cards.iter().position(|c| c.kind == "REPLY").unwrap();
    assert_eq!(popup::selected_artifact_agent_id(&st, &no_swarm(), 60), Some(s("codex")));
    assert_eq!(popup::selected_artifact_mission_id(&st, &no_swarm(), 60), Some(s("mis-001")));
}

#[test]
fn callouts_can_be_clicked() {
    let st = state();
    let lines = thread::thread_lines_for_selection(&st, 40);
    for k in 0..lines.len() + 3 {
        let hit = thread::artifact_message_index_for_line(&st, 40, k);
        let drawn = lines.get(k).map_or(false, |l| l.contains("see ARTIFACTS"));
        assert_eq!(hit, if drawn { Some(1) } else { None });
    }
    assert!(lines.iter().any(|l| l.contains("see ARTIFACTS")));
}

#[test]
fn moved_callouts_can_be_clicked() {
    let mut st = busy();
    st.agents.messages.push(message(None, None, "And then?"));
    st.agents.messages.push(message(Some("codex"), None, "Ship it."));
    st.agents.messages[1].prompt_msg_idx = None;
    let late = st.agents.messages.len() - 1;
    st.agents.codex_turn_prompt_idx = vec![Entry { key: s("codex"), value: late - 1 }];
    let lines = thread::thread_lines_for_selection(&st, 60);
    let head = lines.iter().position(|l| l.starts_with("AGENT")).unwrap();
    let mut hits = Vec::new();
    for (k, line) in lines.iter().enumerate() {
        let hit = thread::artifact_message_index_for_line(&st, 60, k);
        assert_eq!(hit.is_some(), line.contains("see ARTIFACTS"));
        if let Some(i) = hit {
            assert!(k < head);
            hits.push(i);
        }
    }
    assert_eq!(hits, vec![1, late]);
}

#[test]
fn messages_are_shown_once() {
    let mut st = state();
    assert_eq!(messages::visible_messages_grouped(&st, None, Some("codex")), vec![0, 1]);
    st.agents.messages.push(message(None, None, "And then?"));
    let mut late = message(Some("codex"), None, "more");
    late.prompt_msg_idx = Some(0);
    st.agents.messages.push(late);
    let shown = messages::visible_messages_grouped(&st, None, Some("codex"));
    assert_eq!(shown.len(), 4);
    assert!(shown.iter().position(|&i| i == 3) < shown.iter().position(|&i| i == 2));
    assert_eq!(messages::agent_identity_badge(&st, "codex"), "coder/codex");
    assert_eq!(messages::agent_identity_badge(&st, "unknown-agent"), "unknown-a…");
}

#[test]
fn the_console_shows_who_works() {
    let st = busy();
    let kept = RowsCache { key: None, rows: Vec::new(), last_message_was_user: false, slots: Vec::new() };
    let paint = console::render(screen(), &st, &no_swarm(), kept, 1, true, &theme());
    let body = paint.body.unwrap();
    assert_eq!(body.context_area, Rect { x: 1, y: 1, width: 58, height: 1 });
    let shown: Vec<String> = body.thread.iter().map(|l| s(plain(l).trim_end())).collect();
    assert_eq!(shown[1], "  You");
    assert_eq!(shown[2], "  What is next?");
    assert_eq!(shown[4], "↳ [coder/codex] done (see ARTIFACTS)");
    assert!(shown[6].ends_with(" Working ..."));
    assert_eq!(shown[7], "AGENT                                      ELAP   HB  OUT");
    assert_eq!(shown[8], "coder/codex                               1m05s   2s   1s");
    assert_eq!(shown[9], "↳ Thinking");
    assert_eq!(body.cursor, Some(ChatCursor { x: 7, y: 17 }));
    assert_eq!(plain(&body.input.lines[0]), "hello world");
}

#[test]
fn kept_rows_rebuild_the_transcript() {
    let st = busy();
    let kept = RowsCache { key: None, rows: Vec::new(), last_message_was_user: false, slots: Vec::new() };
    let fresh = cache::refresh_thread_rows_cache(kept, &st, None, 40, 3);
    let again = cache::refresh_thread_rows_cache(fresh, &st, None, 40, 3);
    let rows = console::transcript_rows(&again, &st, None, 40);
    let shown: Vec<String> = rows.iter().map(|r| r.text.clone()).collect();
    let whole: Vec<String> = thread::thread_rows(&st, None, 40, true).iter().map(|r| r.text.clone()).collect();
    assert_eq!(shown, whole);
}

#[test]
fn the_caret_is_found_where_it_is_drawn() {
    let st = state();
    let area = layout::chat_input_text_area(screen(), &st).unwrap();
    assert_eq!((area.x, area.y), (2, 17));
    assert_eq!(layout::map_chat_input_point_to_cursor(screen(), &st, 7, 17, false), Some(5));
    assert_eq!(layout::map_chat_input_point_to_cursor(screen(), &st, 0, 0, false), None);
    assert_eq!(layout::map_chat_input_point_to_cursor(screen(), &st, 0, 17, true), Some(0));
    let metrics = layout::chat_input_scroll_metrics(screen(), &st).unwrap();
    assert_eq!((metrics.window_start, metrics.max_scroll, metrics.total_lines), (0, 0, 1));
    assert!(layout::thread_text_area(Rect { x: 0, y: 0, width: 1, height: 1 }, &st).is_none());
    let tall = Rect { height: 60000, ..screen() };
    let area = layout::chat_input_text_area(tall, &st).unwrap();
    assert_eq!(area.y, 60000 - 3);
}

#[test]
fn callouts_move_above_the_last_table() {
    let kinds = vec![
        ThreadRowKind::User,
        ThreadRowKind::StatusHeader,
        ThreadRowKind::StatusRow,
        ThreadRowKind::StatusSubRow,
        ThreadRowKind::ArtifactLink,
        ThreadRowKind::User,
        ThreadRowKind::StatusSubRow,
        ThreadRowKind::Agent,
    ];
    let rows: Vec<ThreadRow> =
        kinds.iter().enumerate().map(|(i, k)| ThreadRow { text: format!("{}", i), kind: *k }).collect();
    let moved = thread::hoist_stale_callouts_above_breather(rows);
    let order: Vec<&str> = moved.iter().map(|r| r.text.as_str()).collect();
    assert_eq!(order, vec!["0", "4", "6", "7", "1", "2", "3", "5"]);
    let kinds = vec![
        ThreadRowKind::StatusHeader,
        ThreadRowKind::StatusRow,
        ThreadRowKind::StatusSubRow,
        ThreadRowKind::Breather,
        ThreadRowKind::StatusRow,
        ThreadRowKind::StatusSubRow,
    ];
    let rows: Vec<ThreadRow> =
        kinds.iter().enumerate().map(|(i, k)| ThreadRow { text: format!("{}", i), kind: *k }).collect();
    let kept = thread::hoist_stale_callouts_above_breather(rows);
    let order: Vec<&str> = kept.iter().map(|r| r.text.as_str()).collect();
    assert_eq!(order, vec!["0", "1", "2", "3", "4", "5"]);
    let no_table = vec![ThreadRow { text: s("x"), kind: ThreadRowKind::Agent }];
    assert_eq!(thread::hoist_stale_callouts_above_breather(no_table).len(), 1);
}

#[test]
fn the_bar_matches_its_clicks() {
    let st = state();
    let bar = plain(&pane::render_tab_bar(&st, &bars(), &theme()));
    assert_eq!(bar, "ROSTER  MISSIONS  DAG  ARTIFACTS  MCP  ALERTS  DIAG  PAD");
    assert_eq!(tabs::tab_at_column(&bars(), 0), Some(AgentOpsTab::Roster));
    assert_eq!(tabs::tab_at_column(&bars(), 6), None);
    assert_eq!(tabs::tab_at_column(&bars(), bar.find("ALERTS").unwrap()), Some(AgentOpsTab::Alerts));
    assert_eq!(tabs::tab_at_column(&bars(), bar.len()), None);
    let paint = pane::render(&st, &no_swarm(), &bars(), screen(), true, &theme());
    assert_eq!(paint.areas[2], Rect { x: 1, y: 3, width: 58, height: 15 });
    assert_eq!(
        plain(&paint.body.unwrap().footer),
        "Keys: Tab tabs  j/k move  h/l size  Space set  c reset  Enter chat"
    );
}

#[test]
fn the_history_is_filtered_by_age() {
    let mut st = state();
    st.saved.archives = vec![archived("1690000000000000-b"), archived("1699990000000000-a")];
    let all = history::artifacts_history_entries(&st);
    assert_eq!(all.len(), 3);
    assert_eq!(all[0].label, "current / latest saved run");
    assert_eq!(all[1].label, "saved 2h ago");
    assert_eq!(
        all[1].detail,
        "2023-11-14 19:26 UTC · run yesterday · 2 msgs · 0 patches · 0 evidence"
    );
    assert_eq!(history::artifacts_history_visible_entries(&st).len(), 3);
    st.agents.artifacts_history_filter = SavedRunHistoryFilter::LastDay;
    let day = history::artifacts_history_visible_entries(&st);
    assert_eq!(day.len(), 2);
    assert_eq!(day[0].label, "current / latest saved run");
    st.agents.artifacts_selected_saved_run_path = Some(s("1690000000000000-b/run.json"));
    assert_eq!(history::artifacts_selected_history_entry(&st), 2);
    assert_eq!(all[2].run_path, Some(s("1690000000000000-b/run.json")));
    let (entry, saved) = history::selected_archived_run_for_current_context(&st).unwrap();
    assert_eq!(entry.archive_micros, Some(1690000000000000));
    assert_eq!(history::ad_hoc_run_counts(saved, "codex"), (2, 0, 0));
}

#[test]
fn the_archive_is_indexed_and_filtered() {
    let st = state();
    let files = vec![RunFile {
        run_path: s(".nit/agents/ad-hoc/codex/history/1699990000000000-a/run.json"),
        components: ["ad-hoc", "codex", "history", "1699990000000000-a"].iter().map(|x| s(x)).collect(),
        dir_name: Some(s("1699990000000000-a")),
        mtime: Some(5),
        run: Some(run("yesterday")),
    }];
    let index = archive::build_global_archive_index(&st.agents, &Vec::new(), &files, st.saved.now_micros);
    assert_eq!(index.len(), 2);
    assert!(index.iter().any(|e| e.kind == "PROMPT" && e.owner == "You" && e.preview == "old prompt"));
    assert!(index.iter().any(|e| e.kind == "REPLY" && e.preview == "old reply"));
    let all = archive::filter_global_archive(
        &index,
        "",
        SavedRunHistoryFilter::All,
        st.saved.now_micros,
        &vec![None, None],
    );
    assert_eq!(all.len(), 2);
    let found = archive::filter_global_archive(
        &index,
        "old",
        SavedRunHistoryFilter::All,
        st.saved.now_micros,
        &vec![Some(1), Some(9)],
    );
    assert_eq!(found, vec![(9, 1), (1, 0)]);
    let mut later = files;
    later[0].run = None;
    let again = archive::build_global_archive_index(&st.agents, &index, &later, st.saved.now_micros);
    assert_eq!(again.len(), 2);
    assert_eq!(again[0].preview, index[0].preview);
    assert_eq!(again[0].archive_micros, Some(1699990000000000));
    assert_eq!(again[0].mtime, Some(5));
    later[0].mtime = Some(6);
    assert!(archive::build_global_archive_index(&st.agents, &index, &later, st.saved.now_micros).is_empty());
    assert_eq!(archive::tokenize_for_bm25("Ab c-d, e Éa_9"), vec!["ab", "c-d", "Éa_9"]);
}

#[test]
fn replies_follow_their_prompts() {
    let groups = grouping::group_replies_under_prompts_with_hints(
        &vec![1, 5],
        &vec![0, 2, 6, 7],
        &vec![None, None, None, Some(1)],
    );
    assert_eq!(groups, vec![(None, vec![0]), (Some(1), vec![2, 7]), (Some(5), vec![6])]);
    assert_eq!(grouping::group_replies_under_prompts(&Vec::new(), &vec![3]), vec![(None, vec![3])]);
    assert!(grouping::group_replies_under_prompts(&Vec::new(), &Vec::new()).is_empty());
}

#[test]
fn swarm_lines_are_read() {
    let meta = footer::parse_swarm_template_meta(
        "Swarm template: lab | mission: research | integrator: (none) | gates: full (3 checks)",
    )
    .unwrap();
    assert_eq!(meta.template, Some(s("lab")));
    assert_eq!(meta.mission, Some(s("research")));
    assert_eq!(meta.integrator, Some(s("—")));
    assert_eq!(meta.verifier, None);
    assert_eq!(meta.gates, Some(s("full")));
    assert!(footer::parse_swarm_template_meta("Swarm template:").is_none());
    assert_eq!(footer::parse_swarm_gates_line("Swarm gates: NONE"), Some(s("none")));
    assert_eq!(footer::parse_swarm_gates_line("Swarm gates: "), None);
    assert_eq!(footer::parse_verify_status_line(" VERIFY result: ok "), Some(s("ok")));
    assert_eq!(footer::parse_verify_status_line("VERIFY ok"), None);
}

#[test]
fn copies_are_shorter_than_their_names() {
    let (clones, taken) = ChatClones::new().insert(s("codex#chat-1"), s("codex"));
    assert!(taken);
    let (clones, taken) = clones.insert(s("a"), s("a"));
    assert!(!taken);
    assert_eq!(clones.base_of("codex#chat-1"), Some("codex"));
    assert_eq!(clones.base_of("a"), None);
}

#[test]
fn highlighted_text_is_kept() {
    let text = "↳ see `src/main.rs:12` and VERIFY result: ok, 42 files";
    let mut spans = Vec::new();
    highlights::push_agent_text_with_inline_highlights(&mut spans, text, Style::plain(), &theme());
    assert_eq!(spans.iter().map(|x| x.text.as_str()).collect::<String>(), text);
    let row = thread_lines::breather_line("▁▄▇▃▁▂ Working ...", &theme());
    assert_eq!(plain(&row), "▁▄▇▃▁▂ Working ...");
}

#[test]
fn drawn_tabs_keep_their_text() {
    let mut st = state();
    st.logs.push(s("short"));
    st.logs.push(s("a:  b   c"));
    for tab in [
        AgentOpsTab::Roster,
        AgentOpsTab::Missions,
        AgentOpsTab::Dag,
        AgentOpsTab::Evidence,
        AgentOpsTab::Mcp,
        AgentOpsTab::Alerts,
        AgentOpsTab::Patch,
        AgentOpsTab::Diagnostics,
        AgentOpsTab::Scratchpad,
    ] {
        st.agents.dock_tab = tab;
        for width in [20usize, 33, 58, 140] {
            let lines = pane::current_lines_for_width(&st, width);
            assert!(!lines.is_empty());
            for (i, line) in lines.iter().enumerate() {
                let drawn = plain(&pane::ops_styled_line(&st, i, line, width, &theme()));
                assert_eq!(&drawn, line, "{:?} {}", tab, i);
            }
        }
    }
}

#[test]
fn graphs_are_drawn_with_their_text() {
    let mut board = dashboard();
    board.tasks[0].title = s("Do it | carefully:  ").repeat(5);
    board.gate_bundle = Some(s("full  "));
    for line in dag::dag_lines_for_dashboard(&Vec::new(), &board, 60, '↳') {
        assert_eq!(plain(&dag_styled::dag_styled_line(&line, 60, false, &theme())), line);
    }
    let status = dag_styled::dag_styled_line(" Status: RUNNING | Mission: m", 60, false, &theme());
    let texts: Vec<&str> = status.spans.iter().map(|x| x.text.as_str()).collect();
    assert_eq!(texts, vec![" ", "Status:", " ", "RUNNING", " | ", "Mission:", " ", "m"]);
    for line in ["   a:b|c : d  |", " no label", "\ttab: x", " Gate:  full ", ":", "", "|"] {
        assert_eq!(plain(&artifacts_styled::artifacts_styled_line(3, line, &theme())), line);
        assert_eq!(plain(&dag_styled::dag_styled_line(line, 60, false, &theme())), line);
        assert_eq!(plain(&diagnostics::diagnostics_styled_line(line, &theme())), line);
    }
    let kv = artifacts_styled::artifacts_styled_line(3, " Msgs: 2 | Thread: no", &theme());
    let texts: Vec<&str> = kv.spans.iter().map(|x| x.text.as_str()).collect();
    assert_eq!(texts, vec![" ", "Msgs:", " ", "2", " | ", "Thread:", " ", "no"]);
    let log = diagnostics::diagnostics_styled_line(" · 10:01 ERROR nit it broke", &theme());
    let texts: Vec<&str> = log.spans.iter().map(|x| x.text.as_str()).collect();
    assert_eq!(texts, vec![" · ", "10:01 ", "ERROR ", "nit ", "it broke"]);
}

#[test]
fn back_ends_are_named() {
    let st = state();
    let lines = roster_lines::roster_lines(&st, None, 60);
    let name = format!("{:?}", AgentLaneKind::Claude);
    assert_eq!(lines[2], format!("  {:<7}  not found  idle", name));
    assert_eq!(roster_lines::roster_backend_group_label(&st, AgentLaneKind::Claude), name);
    assert_eq!(roster_lines::roster_backend_group_label(&st, AgentLaneKind::Unknown), "Other");
}

fn task(id: &str, output: Option<&str>) -> SwarmTaskPersistenceView {
    SwarmTaskPersistenceView {
        id: s(id),
        title: s("Do it"),
        state: s("done"),
        agent_id: s("codex"),
        role: Some(s("coder")),
        deps: Vec::new(),
        blocked_on: Vec::new(),
        writes: true,
        output_present: output.is_some(),
        output: output.map(s),
        done_when: None,
        expected_artifacts: Vec::new(),
        expected_artifacts_missing: false,
        artifacts: None,
    }
}

fn swarm_runtime() -> SwarmRuntime {
    let view = SwarmPersistenceView {
        mission_id: s("mis-001"),
        template: s("lab"),
        phase: s("REPORT"),
        tasks: vec![task("t1", Some("first output")), task("t2", None)],
        report_output: Some(s("# All done")),
        report_status: Some(s("ok")),
        report_agent_id: Some(s("codex")),
        gate_bundle: Some(s("full")),
        gate_report: Some(GateReport {
            overall_ok: false,
            gates: vec![GateReportGate {
                name: s("tests"),
                ok: false,
                status: None,
                command: s("cargo test"),
                notes: None,
            }],
        }),
        gate_output: None,
    };
    SwarmRuntime {
        dashboards: vec![Entry { key: s("mis-001"), value: dashboard() }],
        persistence: vec![Entry { key: s("mis-001"), value: view }],
        progress: Vec::new(),
    }
}

fn swarm_state() -> AppState {
    let mut st = state();
    st.agents.missions[0].swarm = true;
    st.agents.context_mission = Some(s("mis-001"));
    st
}

#[test]
fn swarm_artifacts_are_found_by_their_names() {
    let st = swarm_state();
    let swarm = swarm_runtime();
    let cards = context_cards::artifact_cards_for_context(&st, Some(&swarm), 40);
    let report = popup::artifacts_card_index_for_swarm_report(&st, &swarm, 60, "mis-001").unwrap();
    let verify = popup::artifacts_card_index_for_swarm_verify(&st, &swarm, 60, "mis-001").unwrap();
    assert_eq!(cards[report].kind, "REPORT");
    assert_eq!(cards[verify].kind, "VERIFY");
    assert_eq!(popup::artifacts_card_index_for_swarm_report(&st, &swarm, 60, "mis-002"), None);
    let found = popup::artifacts_card_index_for_popup_ref(
        &st,
        Some(&swarm),
        60,
        &ArtifactsPopupRef::SwarmReport { mission_id: s("mis-001") },
    );
    assert_eq!(found, Some(report));
    let all = context_cards::build_swarm_cards(&swarm.persistence[0].value, 40);
    let kinds: Vec<&str> = all.iter().map(|c| c.kind).collect();
    assert_eq!(kinds, vec!["REPORT", "VERIFY", "TASK"]);
}

#[test]
fn the_report_of_a_swarm_is_laid_out() {
    let mut st = swarm_state();
    let swarm = swarm_runtime();
    let report = popup::artifacts_card_index_for_swarm_report(&st, &swarm, 60, "mis-001").unwrap();
    st.agents.artifacts_selected = report;
    let syntax = SyntaxTables { aliases: Vec::new(), grammars: Vec::new(), blocks: Vec::new() };
    let lines = content::build_lines(&st, &swarm, &None, &syntax, &theme(), 60);
    assert!(lines.iter().any(|l| plain(l) == " § All done"));
    assert_eq!(popup::selected_artifact_mission_id(&st, &swarm, 60), Some(s("mis-001")));
    let view = PopupView {
        scroll: usize::MAX,
        chat_input: s("ok"),
        chat_cursor: 2,
        chat_scroll: 0,
        chat_selection_anchor: None,
    };
    let area = Rect { x: 0, y: 0, width: 62, height: 12 };
    let height = input::content_area_height(&st, &swarm, &view, area);
    let body = input::render(&st, &swarm, &view, &None, &syntax, &theme(), area).body.unwrap();
    assert_eq!(body.content_area.height, height);
    let rect = input::chat_input_rect(&st, &swarm, &view, area).unwrap();
    assert_eq!(height + rect.height + 2, area.height - 2);
    for tall in [13u16, 400, 32767, 32770, 40000, 65535] {
        let area = Rect { x: 0, y: 0, width: 62, height: tall };
        let height = input::content_area_height(&st, &swarm, &view, area);
        let rect = input::chat_input_rect(&st, &swarm, &view, area).unwrap();
        assert_eq!(height + rect.height + 2, tall - 2);
        let inner = Rect { x: 1, y: 1, width: 60, height: tall - 2 };
        let split = input::popup_layout(inner, &view).unwrap();
        assert_eq!(split.thread_area, Rect { height, ..inner });
    }
    assert_eq!(body.scroll, body.max_scroll);
    let chat = body.input.unwrap();
    let cursor = chat.cursor.unwrap();
    assert_eq!(input::map_chat_input_point_to_cursor(&st, &swarm, &view, area, cursor.x, cursor.y, false), Some(2));
}

#[test]
fn the_graph_of_a_swarm_is_shown() {
    let mut st = swarm_state();
    st.agents.dock_tab = AgentOpsTab::Dag;
    let swarm = swarm_runtime();
    let lines = dag::dag_lines(&st, Some(&swarm), 60);
    assert_eq!(lines, dag::dag_lines_for_dashboard(&st.agents.display_ids, &dashboard(), 60, '↳'));
    let block = dag::dag_kv_block_lines(&vec![("A", s("1")), ("Long", s("x y z ").repeat(12)), ("B", s("2"))], 32);
    assert!(block.iter().all(|l| l.chars().count() <= 32));
    assert!(block[0].starts_with(" A: 1"));
}

#[test]
fn saved_runs_show_their_cards() {
    let mut st = state();
    st.saved.archives = vec![archived("1699990000000000-a")];
    st.agents.artifacts_selected_saved_run_path = Some(s("1699990000000000-a/run.json"));
    let lines = artifacts::artifacts_lines(&st, None, 70);
    assert!(lines.iter().any(|l| l.contains("PROMPT") && l.contains("old prompt")));
    assert!(lines.iter().any(|l| l.contains("REPLY") && l.contains("old reply")));
    assert!(!lines.iter().any(|l| l.contains("What is next?")));
}

#[test]
fn nobody_works_twice() {
    let mut st = busy();
    st.agents.codex_turn_prompt_idx.push(Entry { key: s("codex"), value: 0 });
    assert_eq!(turns::agents_on_prompt(&st, 0), vec!["codex"]);
    let rows = thread::thread_rows(&st, None, 60, true);
    let heads = rows.iter().filter(|r| r.kind == ThreadRowKind::StatusHeader).count();
    assert_eq!(heads, 1);
    assert_eq!(rows.iter().filter(|r| r.text.starts_with("coder/codex")).count(), 1);
}

#[test]
fn running_agents_come_first() {
    let mut st = busy();
    st.agents.queued_codex_turns.push(QueuedTurn { agent_id: s("gemini"), mission_id: None });
    assert!(
        pane_table::breather_running_priority(&st, "codex") < pane_table::breather_running_priority(&st, "gemini")
    );
    let rows = pane_table::breather_rows_for_user_prompt(&st, None, "EXEC", true, 60, false);
    let at = |name: &str| rows.iter().position(|r| r.text.contains(name)).unwrap();
    assert!(at("codex") < at("gemini"));
}

#[test]
fn heartbeats_are_computed() {
    const BEATS: [&str; 9] = [
        "▁▂▁▃▂▁",
        "▁▃▅▂▁▂",
        "▁▄▇▃▁▂",
        "▁▅█▄▂▁",
        "▁▄▆▃▁▂",
        "▁▃▅▂▁▃",
        "▁▂▄▂▁▂",
        "▁▃▆▃▁▂",
        "▁▂▅▂▁▂",
    ];
    assert_eq!(stages::ecg_indicator(7, Some("codex"), true, false), "▁▁▁▁▁▁");
    for frame in 0..40u64 {
        let mut seed = 1469598103934665603_u64;
        for b in "codex".bytes() {
            seed = (seed ^ b as u64).wrapping_mul(1099511628211);
        }
        assert_eq!(stages::agent_seed("codex"), seed);
        let mut x = (frame / 3).wrapping_add(seed.rotate_left(7)) ^ 0x9E37_79B9_7F4A_7C15;
        x ^= x >> 12;
        x ^= x << 25;
        x ^= x >> 27;
        let off = x ^ 0xA24B_AED4_9C77_1E3D;
        assert_eq!(stages::ecg_indicator(frame, Some("codex"), true, true), BEATS[x as usize % 9]);
        assert_eq!(stages::ecg_indicator(frame, Some("codex"), false, true), BEATS[off as usize % 9]);
    }
}

#[test]
fn stages_are_put_into_words() {
    let st = state();
    assert_eq!(stages::humanize_stage_atom("run__tool.call"), "run tool call");
    assert_eq!(stages::split_stage_with_parens("tool(cargo test)"), Some((s("tool"), s("cargo test"))));
    assert_eq!(stages::split_stage_with_parens("tool"), None);
    assert_eq!(stages::format_token_count_short(1_500), "1.5K");
    assert_eq!(stages::format_token_count_short(2_000_000), "2M");
    assert_eq!(stages::format_token_count_suffix(&st, &st.agents.agents[0]), None);
}

#[test]
fn the_run_being_written_is_listed() {
    let mut st = state();
    st.saved.current = Some(CurrentRun {
        run_path: s("now/run.json"),
        modified_micros: Some(1_699_999_000_000_000),
        run: run("today"),
    });
    let all = history::artifacts_history_entries(&st);
    assert_eq!(all.len(), 2);
    assert_eq!(all[1].run_path, Some(s("now/run.json")));
    assert_eq!(all[1].label, "saved 16m ago");
    st.agents.context_agent = None;
    assert_eq!(history::artifacts_history_entries(&st).len(), 1);
}

#[test]
fn answers_follow_their_prompts() {
    let mut st = state();
    st.agents.messages = vec![
        message(None, None, "first"),
        message(None, None, "second"),
        message(Some("codex"), None, "to the first"),
        message(Some("codex"), None, "to nobody"),
        message(Some("codex"), None, "to the second"),
    ];
    st.agents.messages[2].prompt_msg_idx = Some(0);
    st.agents.messages[3].prompt_msg_idx = Some(9);
    st.agents.messages[4].prompt_msg_idx = Some(1);
    assert_eq!(messages::visible_messages_grouped(&st, None, Some("codex")), vec![0, 2, 1, 4, 3]);
}

#[test]
fn capitals_are_computed() {
    assert_eq!(stages::sentence_case(" run it "), "Run it");
    assert_eq!(stages::sentence_case("9 lives"), "9 lives");
    assert_eq!(stages::sentence_case("[x] done"), "[x] done");
    assert_eq!(stages::sentence_case("été"), "Été");
    assert_eq!(stages::sentence_case(""), "");
    for c in '\u{21}'..='\u{7e}' {
        let s = format!("{}b", c);
        assert_eq!(stages::sentence_case(&s), format!("{}b", c.to_ascii_uppercase()));
    }
}

#[test]
fn waiting_ends() {
    assert_eq!(code::next_wait(true, 20000, code::LONGEST_WAIT_MS), Wait::Done);
    assert_eq!(code::next_wait(false, 15000, code::LONGEST_WAIT_MS), Wait::GiveUp);
    assert_eq!(code::next_wait(false, 14999, code::LONGEST_WAIT_MS), Wait::Sleep);
}
