use nit_widgets::agent_ops_view::archive::GlobalArchiveEntry;
use nit_widgets::agent_ops_view::archive::GlobalArchiveSourceKind;
use nit_widgets::artifacts_history_popup;
use nit_widgets::artifacts_history_popup::ArchiveList;
use nit_widgets::assumptions_view;
use nit_widgets::assumptions_view::ActiveAssumption;
use nit_widgets::assumptions_view::Assumption;
use nit_widgets::assumptions_view::AssumptionTarget;
use nit_widgets::bottom_bar;
use nit_widgets::bottom_bar::AcceleratorMode;
use nit_widgets::bottom_bar::BarState;
use nit_widgets::bottom_bar::GpuSummary;
use nit_widgets::bottom_bar::RuntimeAcceleratorStats;
use nit_widgets::bottom_bar::SystemStats;
use nit_widgets::claims_view;
use nit_widgets::claims_view::ActiveClaim;
use nit_widgets::claims_view::Claim;
use nit_widgets::claims_view::ClaimKind;
use nit_widgets::claims_view::ClaimTarget;
use nit_widgets::definition_popup;
use nit_widgets::definition_popup::Analysis;
use nit_widgets::definition_popup::DefinitionView;
use nit_widgets::artifacts_popup::code::StyledRange;
use nit_widgets::artifacts_popup::input;
use nit_widgets::file_tree_view;
use nit_widgets::file_tree_view::FileTree;
use nit_widgets::file_tree_view::FileTreeKind;
use nit_widgets::file_tree_view::FileTreeRow;
use nit_widgets::fuzzy_search_popup;
use nit_widgets::fuzzy_search_popup::FuzzySearch;
use nit_widgets::fuzzy_search_popup::PreviewModel;
use nit_widgets::fuzzy_search_popup::SearchMode;
use nit_widgets::fuzzy_search_popup::SearchResultFile;
use nit_widgets::fuzzy_search_popup::SearchResultMatch;
use nit_widgets::games_analysis_popup;
use nit_widgets::games_analysis_popup::AnalysisPaths;
use nit_widgets::games_analysis_popup::GamesAnalysisState;
use nit_widgets::games_analysis_popup::HistoryAnalysisPreview;
use nit_widgets::games_analysis_popup::HistoryAnalysisSummary;
use nit_widgets::games_analysis_popup::StrategyRate;
use nit_widgets::games_analysis_popup::Trajectory;
use nit_widgets::geometry::Rect;
use nit_widgets::state::AppKind;
use nit_widgets::state::RuntimeAcceleratorBackend;
use nit_widgets::state::SavedRunHistoryFilter;
use nit_widgets::style::Color;
use nit_widgets::style::HighlightColors;
use nit_widgets::style::Line;
use nit_widgets::style::Style;
use nit_widgets::style::Theme;

fn theme() -> Theme {
    Theme {
        accent: Color::Rgb(1, 1, 1),
        accent_2: Color::Rgb(2, 2, 2),
        background: Color::Rgb(0, 0, 0),
        border: Color::Rgb(3, 3, 3),
        border_focused: Color::Rgb(4, 4, 4),
        bracket_match: Color::Rgb(5, 5, 5),
        cursor_line_bg: Color::Rgb(100, 100, 100),
        diff_added: Color::Rgb(7, 7, 7),
        diff_deleted: Color::Rgb(8, 8, 8),
        diff_modified: Color::Rgb(9, 9, 9),
        error: Color::Rgb(10, 10, 10),
        foreground: Color::Rgb(11, 11, 11),
        hl: HighlightColors {
            boolean: Color::Rgb(20, 0, 0),
            emphasis: Color::Rgb(21, 0, 0),
            heading: Color::Rgb(22, 0, 0),
            keyword: Color::Rgb(23, 0, 0),
            link: Color::Rgb(24, 0, 0),
            number: Color::Rgb(25, 0, 0),
            operator: Color::Rgb(26, 0, 0),
            property: Color::Rgb(27, 0, 0),
            punctuation: Color::Rgb(28, 0, 0),
            string: Color::Rgb(29, 0, 0),
        },
        selection_bg: Color::Rgb(12, 12, 12),
        success: Color::Rgb(13, 13, 13),
        title: Color::Rgb(14, 14, 14),
        title_focused: Color::Rgb(15, 15, 15),
        warning: Color::Rgb(16, 16, 16),
    }
}

fn plain(line: &Line) -> String {
    line.spans.iter().map(|s| s.text.as_str()).collect()
}

fn screen(width: u16, height: u16) -> Rect {
    Rect { x: 0, y: 0, width, height }
}

fn claim(id: &str, kind: ClaimKind, remaining: u64) -> ActiveClaim {
    ActiveClaim {
        claim: Claim {
            id: id.to_string(),
            kind,
            claimed_by: "codex#swarm-mis-001-clone-01".to_string(),
            target: ClaimTarget::File { path: "/home/x/crates/a/src/lib.rs".to_string() },
            claimed_at_gen: 3,
        },
        remaining,
    }
}

#[test]
fn popups_have_their_sizes() {
    assert_eq!(definition_popup::preferred_size(screen(10, 5)), (24, 6));
    assert_eq!(definition_popup::preferred_size(screen(200, 50)), (100, 30));
    assert_eq!(input::preferred_size(screen(80, 30)), (76, 26));
    assert_eq!(input::preferred_size(screen(10, 10)), (40, 12));
    assert_eq!(artifacts_history_popup::preferred_size(screen(200, 40)), (140, 26));
    assert_eq!(artifacts_history_popup::preferred_size(screen(50, 10)), (50, 10));
    assert_eq!(fuzzy_search_popup::preferred_size(screen(100, 100)), (80, 76));
    assert_eq!(fuzzy_search_popup::preferred_size(screen(50, 20)), (50, 20));
    assert_eq!(games_analysis_popup::preferred_size(screen(200, 50)), (96, 32));
    assert_eq!(games_analysis_popup::preferred_size(screen(50, 10)), (50, 10));
}

#[test]
fn claims_are_counted_by_kind() {
    let claims = vec![
        claim("a", ClaimKind::Soft, 0),
        claim("b", ClaimKind::ExclusiveWrite, 2),
        claim("c", ClaimKind::Soft, 1),
    ];
    assert_eq!(claims_view::count_by_kind(&claims), "ExclusiveWrite 1, Soft 2");
    let lines = claims_view::build_lines(&claims, 5, &theme(), 100);
    assert_eq!(plain(&lines[0]), "3 active   [ExclusiveWrite 1, Soft 2]   gen 5");
    assert_eq!(lines.len(), 6);
    let row = plain(&lines[4]);
    assert!(row.starts_with("  2g  ExclusiveWrite codex#clone-01             file:crates/a/src/lib.rs"));
    assert!(row.ends_with("    2g  b"));
    assert_eq!(lines[4].spans[0].style, Style::plain().fg(theme().error).bold());
    let empty = claims_view::build_lines(&Vec::new(), 5, &theme(), 40);
    assert_eq!(plain(&empty[0]), "0 active   gen 5");
    assert_eq!(plain(&empty[4]), "  No active claims. Agents haven't written files yet.");
}

#[test]
fn claims_drop_columns_on_narrow_screens() {
    let narrow = claims_view::format_row("1g", "Soft", "a", "t", "2g", "id", 69);
    let aged = claims_view::format_row("1g", "Soft", "a", "t", "2g", "id", 70);
    let full = claims_view::format_row("1g", "Soft", "a", "t", "2g", "id", 90);
    assert_eq!(aged, format!("{}    2g", narrow));
    assert_eq!(full, format!("{}  id", aged));
}

#[test]
fn names_of_clones_lose_their_mission() {
    assert_eq!(claims_view::compact_agent_id("codex#swarm-mis-001-clone-01"), "codex#clone-01");
    assert_eq!(claims_view::compact_agent_id("codex#swarm-mis"), "codex#swarm-mis");
    assert_eq!(claims_view::compact_agent_id("codex"), "codex");
    assert_eq!(claims_view::compact_path("/x/crates/a.rs"), "crates/a.rs");
    assert_eq!(claims_view::compact_path("/x/y.rs"), "y.rs");
    assert_eq!(claims_view::compact_path(".."), "..");
    let region = ClaimTarget::Region { path: "a.rs".to_string(), start_line: 1, end_line: 9 };
    assert_eq!(claims_view::format_target(&region), "region:a.rs#1-9");
}

#[test]
fn assumptions_are_listed() {
    let all = vec![ActiveAssumption {
        assumption: Assumption {
            id: "as-1".to_string(),
            posted_by: "planner".to_string(),
            target: AssumptionTarget::Global,
            rationale: "tests pass".to_string(),
            posted_at_gen: 7,
        },
        remaining: 1,
    }];
    let lines = assumptions_view::build_lines(&all, 9, &theme(), 95);
    assert_eq!(plain(&lines[0]), "1 active   gen 9");
    assert_eq!(
        plain(&lines[3]),
        "  1g  planner          Global                          2g  tests pass                      as-1"
    );
    assert_eq!(lines[3].spans[0].style, Style::plain().fg(theme().accent));
    let body = assumptions_view::render_body(&all, 9, 100, &theme(), 95, 2);
    assert_eq!((body.scroll, body.max_scroll), (2, 2));
    assert_eq!(assumptions_view::style_for(0, &theme()), Style::plain().fg(theme().accent).dim());
}

fn entry(kind: &'static str, owner: &str) -> GlobalArchiveEntry {
    GlobalArchiveEntry {
        kind,
        owner: owner.to_string(),
        preview: "what it says".to_string(),
        source: "src".to_string(),
        source_id: "id".to_string(),
        source_kind: GlobalArchiveSourceKind::AdHoc,
        time_label: "5m ago".to_string(),
        archive_micros: Some(1),
        mtime: Some(1),
        run_path: "run.json".to_string(),
        artifact_index: 0,
        search_hay: String::new(),
        search_tokens: Vec::new(),
    }
}

fn archive(filtered: Vec<(i64, usize)>, query: &str) -> ArchiveList {
    ArchiveList {
        index: vec![entry("PROMPT", "You"), entry("REPLY", "codex")],
        filtered,
        query: query.to_string(),
        filter: SavedRunHistoryFilter::LastDay,
        selected: 9,
        scroll: 99,
    }
}

#[test]
fn archive_lines_are_counted_as_drawn() {
    for list in [archive(vec![(0, 0), (0, 1)], ""), archive(Vec::new(), "x"), archive(Vec::new(), "")] {
        let lines = artifacts_history_popup::build_lines(&list, &theme(), 100);
        assert_eq!(lines.len(), artifacts_history_popup::line_count(&list));
    }
}

#[test]
fn entries_that_are_gone_take_no_line() {
    let mut list = archive(vec![(0, 0)], "");
    list.index = Vec::new();
    let lines = artifacts_history_popup::build_lines(&list, &theme(), 100);
    assert_eq!(artifacts_history_popup::line_count(&list), lines.len());
    let mut mixed = archive(vec![(0, 7), (0, 1)], "");
    mixed.selected = 0;
    let lines = artifacts_history_popup::build_lines(&mixed, &theme(), 100);
    assert_eq!(artifacts_history_popup::line_count(&mixed), lines.len());
    assert_eq!(lines.iter().filter(|l| plain(l).contains("what it says")).count(), 1);
    assert!(plain(&lines[4]).contains("REPLY"));
    assert_eq!(artifacts_history_popup::entry_index_for_line(&mixed, 4), Some(1));
    assert_eq!(artifacts_history_popup::entry_index_for_line(&mixed, 5), None);
}

#[test]
fn archive_lines_stand_for_their_entries() {
    let list = archive(vec![(0, 1), (0, 0)], "");
    let lines = artifacts_history_popup::build_lines(&list, &theme(), 100);
    assert_eq!(plain(&lines[1]), "filter: 24h  |  2 artifacts  |  2 matching");
    assert!(plain(&lines[4]).starts_with("  ↳ REPLY    codex"));
    assert!(plain(&lines[5]).starts_with(">   PROMPT   You"));
    assert!(plain(&lines[5]).ends_with(" what it says"));
    assert_eq!(artifacts_history_popup::entry_index_for_line(&list, 3), None);
    assert_eq!(artifacts_history_popup::entry_index_for_line(&list, 5), Some(1));
    assert_eq!(artifacts_history_popup::entry_index_for_line(&list, 6), None);
    let paint = artifacts_history_popup::render(&list, &theme(), screen(100, 6));
    assert_eq!(paint.scroll, 4);
}

#[test]
fn empty_searches_say_so() {
    let lines = artifacts_history_popup::build_lines(&archive(Vec::new(), "x"), &theme(), 100);
    assert_eq!(plain(&lines[0]), " / x ");
    assert_eq!(plain(&lines[5]), "No artifacts match your search.");
    assert_eq!(artifacts_history_popup::kind_label_and_color("?", &theme()), ("OTHER   ", theme().border));
}

fn analysis() -> GamesAnalysisState {
    GamesAnalysisState {
        open: true,
        running: false,
        source_path: Some("/logs/history.jsonl".to_string()),
        last_error: None,
        summary: Some(HistoryAnalysisSummary {
            total_matches: 3,
            total_rounds: 30,
            tail_rounds: 5,
            min_rounds: 10,
            max_rounds: 10,
            trajectory_samples: 2,
            paths: AnalysisPaths {
                summary: "/o/summary.json".to_string(),
                matches_csv: "/o/m.csv".to_string(),
                strategies_csv: "/o/s.csv".to_string(),
                trajectories_csv: "/o/t.csv".to_string(),
            },
            strategies: vec![StrategyRate {
                id: "tit-for-tat".to_string(),
                coop: " 97.50".to_string(),
                tail_coop: "100.00".to_string(),
                rounds: 30,
            }],
        }),
        preview: Some(HistoryAnalysisPreview {
            trajectories: vec![Trajectory {
                a: "x".to_string(),
                b: "y".to_string(),
                a_plot: "@@".to_string(),
                b_plot: " .".to_string(),
            }],
        }),
        scroll_offset: 0,
    }
}

#[test]
fn analysis_lines_are_counted_as_drawn() {
    let mut states = vec![analysis()];
    let mut running = analysis();
    running.running = true;
    running.summary = None;
    running.last_error = Some("bad".to_string());
    states.push(running);
    let mut bare = analysis();
    bare.preview = Some(HistoryAnalysisPreview { trajectories: Vec::new() });
    bare.source_path = None;
    states.push(bare);
    for a in &states {
        let lines = games_analysis_popup::build_lines(a, &theme(), 60);
        assert_eq!(lines.len(), games_analysis_popup::line_count(a));
    }
}

#[test]
fn the_analysis_is_told() {
    let lines = games_analysis_popup::build_lines(&analysis(), &theme(), 60);
    let all: Vec<String> = lines.iter().map(plain).collect();
    assert_eq!(all[0], "status: DONE");
    assert_eq!(all[1], "source: history.jsonl");
    assert_eq!(all[3], "matches: 3  rounds: 30  tail: 5");
    assert_eq!(all[4], "rounds/match: 10..10  samples: 2");
    assert_eq!(all[13], " 1 tit-for-tat     97.50% / 100.00%  r=30");
    assert_eq!(all[16], "x vs y");
    assert_eq!(all[17], "A: @@");
    let mut closed = analysis();
    closed.open = false;
    assert!(games_analysis_popup::render(&closed, &theme(), screen(60, 20)).is_none());
    let mut failed = analysis();
    failed.last_error = Some("bad".to_string());
    let s = games_analysis_popup::styles_of(theme());
    assert_eq!(games_analysis_popup::status_label(&failed, &s).0, "ERROR");
}

#[test]
fn curves_stand_for_all_values() {
    let places = games_analysis_popup::sparkline_places(10, 4);
    assert_eq!(places, vec![(0, 2), (2, 5), (5, 7), (7, 10)]);
    assert_eq!(games_analysis_popup::sparkline_places(2, 9), vec![(0, 1), (1, 2)]);
    assert!(games_analysis_popup::sparkline_places(0, 9).is_empty());
    assert_eq!(games_analysis_popup::level_char(0), ' ');
    assert_eq!(games_analysis_popup::level_char(9), '@');
    assert_eq!(games_analysis_popup::plot_width(60), 48);
}

fn search(mode: SearchMode) -> FuzzySearch {
    FuzzySearch {
        mode,
        query: "ma".to_string(),
        show_hidden: true,
        show_ignored: false,
        indexing: false,
        searching: false,
        status_msg: String::new(),
        file_results: vec![
            SearchResultFile { rel_path: "main.rs".to_string(), matched_indices: vec![1, 0, 1] },
            SearchResultFile { rel_path: "lib.rs".to_string(), matched_indices: Vec::new() },
        ],
        match_results: vec![SearchResultMatch {
            rel_path: "a.rs".to_string(),
            line: 3,
            col: 5,
            snippet: "let main".to_string(),
            match_start: 4,
            match_len: 99,
        }],
        selected: 0,
        scroll_offset: 0,
    }
}

#[test]
fn matches_are_marked_in_results() {
    let f = search(SearchMode::Files);
    let t = theme();
    assert_eq!(plain(&fuzzy_search_popup::header_line(&f, &t)), "[FILES]  > ma  2 results  hidden:ON ignored:OFF");
    let lines = fuzzy_search_popup::result_lines(&f, &t, 10);
    assert_eq!(plain(&lines[0]), "› main.rs");
    assert_eq!(lines[0].spans[1].text, "ma");
    assert_eq!(lines[0].spans[2].text, "in.rs");
    assert_eq!(plain(&lines[1]), "  lib.rs");
    let c = search(SearchMode::Content);
    let found = fuzzy_search_popup::result_lines(&c, &t, 10);
    assert_eq!(plain(&found[0]), "› a.rs:3:5  let main");
    assert_eq!(found[0].spans[3].text, "main");
    let mut none = search(SearchMode::Files);
    none.file_results.clear();
    assert_eq!(plain(&fuzzy_search_popup::result_lines(&none, &t, 5)[0]), "No matches.");
    assert!(fuzzy_search_popup::result_lines(&none, &t, 0).is_empty());
}

#[test]
fn the_selected_result_is_shown() {
    assert_eq!(fuzzy_search_popup::scroll_state(10, 0, 7, 3), (5, 7));
    assert_eq!(fuzzy_search_popup::scroll_state(10, 8, 1, 3), (1, 1));
    assert_eq!(fuzzy_search_popup::scroll_state(2, 5, 9, 3), (0, 1));
    assert_eq!(fuzzy_search_popup::scroll_state(0, 5, 9, 3), (0, 0));
}

#[test]
fn previews_stand_around_their_line() {
    assert_eq!(fuzzy_search_popup::preview_scroll(100, 50, 30, 0), 40);
    assert_eq!(fuzzy_search_popup::preview_scroll(100, 50, 30, -100), 0);
    assert_eq!(fuzzy_search_popup::preview_scroll(100, 50, 30, i32::MAX), 70);
    let model = PreviewModel { lines: Vec::new(), anchor_line: 0, truncated: true };
    let area = screen(100, 30);
    let paint = fuzzy_search_popup::render(&search(SearchMode::Files), &theme(), Some(model), 0, area);
    assert_eq!(paint.preview.title, " PREVIEW [truncated] ");
    assert_eq!(paint.header_area, Rect { x: 1, y: 1, width: 98, height: 1 });
    assert_eq!(paint.body_area, Rect { x: 1, y: 2, width: 98, height: 26 });
    assert_eq!(paint.footer_area, Rect { x: 1, y: 28, width: 98, height: 1 });
    assert_eq!(paint.results_area, Rect { x: 1, y: 2, width: 49, height: 26 });
    assert_eq!(paint.preview_area, Rect { x: 50, y: 2, width: 49, height: 26 });
    let odd = fuzzy_search_popup::render(&search(SearchMode::Files), &theme(), None, 0, screen(101, 30));
    assert_eq!(odd.results_area.width, 50);
    assert_eq!(odd.preview_area, Rect { x: 51, y: 2, width: 49, height: 26 });
    assert_eq!(plain(&odd.preview.lines[0]), "Loading preview...");
}

fn tree() -> FileTree {
    FileTree {
        rows: vec![
            FileTreeRow { text: "▾ src".to_string(), depth: 0, kind: FileTreeKind::Dir },
            FileTreeRow { text: "  ▸ bin".to_string(), depth: 1, kind: FileTreeKind::Dir },
            FileTreeRow { text: "    a.rs".to_string(), depth: 1, kind: FileTreeKind::File },
        ],
        scroll_offset: 1,
        selected: 2,
        show_hidden: false,
        show_ignored: true,
    }
}

#[test]
fn tree_rows_keep_their_text() {
    let t = tree();
    for row in &t.rows {
        let line = file_tree_view::row_line(row, true, &theme(), Color::Red);
        assert_eq!(plain(&line), row.text);
    }
    let dir = file_tree_view::row_line(&t.rows[1], false, &theme(), Color::Red);
    assert_eq!(dir.spans[1].text, "▸ ");
    assert_eq!(dir.spans[1].style, Style::plain().fg(theme().accent).bold());
}

#[test]
fn the_tree_shows_what_fits() {
    let paint = file_tree_view::render(&tree(), true, &theme(), Color::Red, screen(40, 3));
    assert_eq!(paint.lines.len(), 1);
    assert_eq!(plain(&paint.lines[0]), "  ▸ bin");
    assert_eq!(
        plain(&paint.title),
        "NITTREE [Enter open/toggle] [Esc/q close] [r refresh] [. hidden:OFF] [i ignored:ON]"
    );
    let mut far = tree();
    far.scroll_offset = 9;
    assert!(file_tree_view::render(&far, true, &theme(), Color::Red, screen(40, 9)).lines.is_empty());
}

fn bar(kind: AppKind) -> BarState {
    BarState {
        focus_title: "EDITOR".to_string(),
        line: 3,
        col: 14,
        app_kind: kind,
        games_running: false,
        games_ran: false,
        runtime: RuntimeAcceleratorStats {
            backend: RuntimeAcceleratorBackend::Other,
            requested: AcceleratorMode::Auto,
            metal_matches: 4,
            cpu_matches: 0,
            metal_fallbacks: 1,
            metal_matches_per_batch: Some(8),
            metal_inflight_batches: Some(2),
            metal_policy_source: Some("env".to_string()),
        },
    }
}

fn stats(usage: Option<u64>, total: Option<&str>, name: Option<&str>) -> SystemStats {
    SystemStats {
        cpu_percent: 7,
        gpu: GpuSummary {
            usage_percent: usage,
            mem_total_gb: total.map(str::to_string),
            name: name.map(str::to_string),
        },
        mem: Some(("3.5".to_string(), "16.0".to_string())),
    }
}

#[test]
fn the_bar_tells_its_numbers() {
    let line = bottom_bar::build_metrics_line(&bar(AppKind::Games), &stats(Some(5), Some("8.0"), None), &theme());
    assert_eq!(
        plain(&line),
        "Ln 3, Col 14 | CPU 07% | GPU 05%/8.0G | ACC AUTO 4g/1fb/8bx2/env | MEM 3.5/16.0G"
    );
    let other = bottom_bar::build_metrics_line(&bar(AppKind::Gol), &stats(None, Some("8.0"), None), &theme());
    assert_eq!(plain(&other), "Ln 3, Col 14 | CPU 07% | VRAM 8.0G | MEM 3.5/16.0G");
    let named = stats(None, None, Some("M2"));
    let spans = bottom_bar::gpu_spans(&named.gpu, Style::plain(), Style::plain());
    assert_eq!(spans[1].text, "M2");
    let unknown = stats(None, None, None);
    assert_eq!(bottom_bar::gpu_spans(&unknown.gpu, Style::plain(), Style::plain())[1].text, "N/A");
    let low = bottom_bar::render(&bar(AppKind::Gol), &unknown, &theme(), screen(80, 2));
    assert!(low.inner.is_none());
    assert_eq!(plain(&low.left), "FOCUS: EDITOR");
}

#[test]
fn definitions_are_coloured_from_the_analysis() {
    let view = DefinitionView {
        title: "main".to_string(),
        lines: vec!["fn main()".to_string(), "\tx".to_string(), String::new()],
        start_line: 5,
        scroll: 1,
    };
    let bold = Style::plain().bold();
    let analysis = Some(Analysis {
        per_line: vec![Some(vec![StyledRange { start: 0, end: 2, style: bold }])],
        line_map: Some(vec![None, None, None, None, Some(0)]),
    });
    let paint = definition_popup::render(&view, &analysis, &theme(), screen(40, 10));
    assert_eq!(plain(&paint.lines[0]), "fn main()");
    assert_eq!(paint.lines[0].spans[0].text, "fn");
    assert!(paint.lines[0].spans[0].style.bold);
    assert_eq!(plain(&paint.lines[1]), "    x");
    let scrolled = definition_popup::render(&view, &None, &theme(), screen(40, 4));
    assert_eq!(plain(&scrolled.lines[0]), "    x");
}
