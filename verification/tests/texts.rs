use nit_widgets::agent_console_view::chat_input;
use nit_widgets::agent_console_view::highlights;
use nit_widgets::agent_console_view::stages;
use nit_widgets::agent_console_view::words;
use nit_widgets::agent_ops_view::archive;
use nit_widgets::agent_ops_view::history;
use nit_widgets::agent_ops_view::mcp;
use nit_widgets::clone_labels;
use nit_widgets::columns;
use nit_widgets::fit;
use nit_widgets::geometry;
use nit_widgets::geometry::Rect;
use nit_widgets::order;
use nit_widgets::paths;
use nit_widgets::previews;
use nit_widgets::style;
use nit_widgets::style::Color;
use nit_widgets::text;
use nit_widgets::wrap;

#[test]
fn fitting_keeps_the_width() {
    assert_eq!(fit::fit("abc", 5, false), "abc  ");
    assert_eq!(fit::fit("abc", 5, true), "  abc");
    assert_eq!(fit::fit("abcdef", 4, false), "abc…");
    assert_eq!(fit::fit("abc", 0, false), "");
    for n in 0..6usize {
        assert_eq!(fit::fit("übrig", n, false).chars().count(), n);
    }
}

#[test]
fn fitting_twice_changes_nothing() {
    let once = fit::fit_left("a long text", 6);
    assert_eq!(fit::fit_left(&once, 6), once);
}

#[test]
fn truncating_marks_what_is_missing() {
    assert_eq!(fit::truncate_label("abcdef", 3), "ab…");
    assert_eq!(fit::truncate_label("abc", 3), "abc");
    assert_eq!(fit::truncate_label("abc", 0), "");
}

#[test]
fn padding_counts_columns() {
    assert_eq!(fit::pad_to_width("日本", 6), "日本  ");
    assert_eq!(fit::pad_to_width("日本語", 5), "日本");
    assert_eq!(fit::pad_line_right("ab", 4), "ab  ");
    assert_eq!(fit::pad_line_right("abcdef", 4), "abcdef");
}

#[test]
fn columns_share_the_width() {
    let widths = fit::allocate_columns(40, &vec![4, 4, 5, 12], &vec![5, 8, 10, 26], 3);
    assert_eq!(widths.iter().sum::<usize>() + 3, 40);
    let roomy = fit::allocate_columns(100, &vec![4, 4, 5, 12], &vec![5, 8, 10, 26], 3);
    assert_eq!(roomy.iter().sum::<usize>() + 3, 100);
}

#[test]
fn wide_characters_take_two_cells() {
    assert_eq!(columns::cell_width('a'), 1);
    assert_eq!(columns::cell_width('語'), 2);
    assert_eq!(columns::cell_width('\u{301}'), 1);
    assert_eq!(columns::next_tab_width(3, 80), 1);
    assert_eq!(columns::next_tab_width(4, 80), 4);
    assert_eq!(columns::next_tab_width(0, 2), 2);
}

#[test]
fn lines_wrap_behind_spaces() {
    assert_eq!(wrap::wrap_visual_line("one two three", 8), vec!["one two ", "three"]);
    assert_eq!(wrap::wrap_visual_line("abcdefgh", 3), vec!["abc", "def", "gh"]);
    assert_eq!(wrap::wrap_visual_line("", 3), vec![""]);
    assert_eq!(wrap::wrap_visual_line("a\nb", 9), vec!["a", "b"]);
}

#[test]
fn wrapped_lines_run_together() {
    let s = "the quick brown fox jumps";
    assert_eq!(wrap::wrap_visual_line(s, 7).concat(), s);
}

#[test]
fn cells_wrap_between_words() {
    let lines = wrap::wrap_cell_text("alpha beta gamma", 10);
    assert_eq!(lines, vec!["alpha", "beta gamma"]);
    assert!(wrap::wrap_cell_text("averyveryverylongword", 5).iter().all(|l| l.chars().count() <= 5));
}

#[test]
fn the_caret_goes_where_its_character_is() {
    let input = "ab\ncdefgh";
    for n in 0..=input.chars().count() {
        let (lines, line, col) = chat_input::wrap_input_with_cursor("", input, n, 4);
        assert_eq!(lines, vec!["ab", "cdef", "gh"]);
        let back = chat_input::chat_input_char_index_for_display_pos(input, 4, line, col);
        assert_eq!(back, n);
    }
    let (_, line, col) = chat_input::wrap_input_with_cursor("", "日本", 1, 10);
    assert_eq!((line, col), (0, 2));
    assert_eq!(chat_input::chat_input_display_pos_for_char_idx("日本", 10, 1), (0, 1));
}

#[test]
fn numbers_paths_and_commands_are_told_apart() {
    assert!(words::looks_like_numberish("42"));
    assert!(words::looks_like_numberish("12.5%"));
    assert!(!words::looks_like_numberish("abc"));
    assert!(words::looks_like_link_or_path_ref("https://example.org"));
    assert!(words::looks_like_link_or_path_ref("src/main.rs"));
    assert!(!words::looks_like_link_or_path_ref("plain"));
    assert!(words::contains_colon_number("lib.rs:12"));
    assert!(!words::contains_colon_number("lib.rs:"));
    assert!(words::looks_like_command("cargo test"));
    assert!(words::looks_like_command("git"));
    assert!(!words::looks_like_command("hello"));
    assert!(!words::looks_like_command("  "));
}

#[test]
fn counts_and_durations_are_short() {
    assert_eq!(stages::format_token_count_short(999), "999");
    assert_eq!(stages::format_duration_compact(59), "59s");
    assert_eq!(stages::format_duration_compact(60), "1m00s");
    assert_eq!(stages::format_duration_compact(3661), "1h01m");
}

#[test]
fn sentences_start_with_a_capital() {
    assert_eq!(stages::sentence_case("running tests"), "Running tests");
    assert_eq!(stages::sentence_case("ßtraße"), "SStraße");
    assert_eq!(stages::sentence_case(""), "");
}

#[test]
fn pulses_last_six_frames() {
    assert!(stages::pulse_on(0));
    assert!(stages::pulse_on(5));
    assert!(!stages::pulse_on(6));
    assert!(stages::pulse_on(12));
}

#[test]
fn words_are_ascii_letters_digits_and_underscores() {
    assert!(highlights::is_in_word('a'));
    assert!(!highlights::is_in_word(' '));
}

#[test]
fn path_segments_are_harmless() {
    let once = history::sanitize_artifact_path_segment("a/b c");
    assert!(!once.contains('/'));
    assert_eq!(history::sanitize_artifact_path_segment(&once), once);
}

#[test]
fn archive_names_start_with_their_time() {
    assert_eq!(history::persisted_history_archive_micros("1700000000000000-run"), Some(1700000000000000));
    assert_eq!(history::persisted_history_archive_micros("run"), None);
}

#[test]
fn saved_runs_are_dated() {
    let label = history::format_saved_run_absolute_label_from_micros(Some(1_700_000_000_000_000));
    assert_eq!(label, Some("2023-11-14 22:13 UTC".to_string()));
    assert_eq!(history::format_saved_run_absolute_label_from_micros(None), None);
}

#[test]
fn errors_that_are_json_are_laid_out() {
    assert_eq!(mcp::format_mcp_error_for_display("{\"a\":1}"), "{\n  \"a\": 1\n}");
    assert_eq!(mcp::format_mcp_error_for_display("no json"), "no json");
    assert_eq!(mcp::error_text("raw", Some("laid out".to_string())), "laid out");
}

#[test]
fn clones_are_known_by_their_names() {
    assert!(clone_labels::is_swarm_clone_agent_id("codex#swarm-mis-001-clone-01"));
    assert!(!clone_labels::is_swarm_clone_agent_id("codex"));
}

#[test]
fn places_are_ranked_latest_first() {
    assert_eq!(order::rank_places(&vec![Some(1), None, Some(3), Some(1)]), vec![2, 0, 3, 1]);
}

#[test]
fn previews_are_one_short_line() {
    let p = previews::summarize_text_preview("first\n\nsecond line of text", 12);
    assert_eq!(p, "first / seco...");
    assert_eq!(previews::summarize_text_preview(" a\n\n b ", 12), "a / b");
}

#[test]
fn borders_take_one_cell_on_every_side() {
    let area = Rect { x: 2, y: 3, width: 10, height: 5 };
    assert_eq!(geometry::inner(area), Rect { x: 3, y: 4, width: 8, height: 3 });
    let tiny = Rect { x: 0, y: 0, width: 1, height: 1 };
    assert_eq!(geometry::inner(tiny), Rect { x: 1, y: 1, width: 0, height: 0 });
    assert!(geometry::point_in_rect(3, 4, area));
    assert!(!geometry::point_in_rect(12, 4, area));
    assert_eq!(geometry::share_of(100, 80), 80);
    assert_eq!(geometry::share_of(60000, 80), 655);
}

#[test]
fn dimming_mixes_towards_the_background() {
    let top = Color::Rgb(100, 0, 255);
    let base = Color::Rgb(0, 0, 0);
    assert_eq!(style::dim_bg_towards(top, base, 0), top);
    assert_eq!(style::dim_bg_towards(top, base, 100), base);
    assert_eq!(style::dim_bg_towards(top, base, 75), Color::Rgb(25, 0, 64));
    assert_eq!(style::dim_bg_towards(Color::Red, base, 75), Color::Red);
}

#[test]
fn the_last_name_of_a_path_is_found() {
    assert_eq!(paths::file_name("/a/b.txt"), Some("b.txt".to_string()));
    assert_eq!(paths::file_name("a/b/"), Some("b".to_string()));
    assert_eq!(paths::file_name("a/."), Some("a".to_string()));
    assert_eq!(paths::file_name("a/.."), None);
    assert_eq!(paths::file_name("/"), None);
    assert_eq!(paths::file_name("."), None);
    for p in ["/a/b.txt", "a/b/", "a/.", "a/..", "/", ".", "", "x", "a//b//", "./", "../", "a/./."] {
        let name = std::path::Path::new(p).file_name().map(|n| n.to_string_lossy().to_string());
        assert_eq!(paths::file_name(p), name, "{}", p);
    }
}

#[test]
fn texts_are_trimmed_and_split() {
    assert_eq!(text::trim("\u{a0} x \t"), "x");
    assert_eq!(text::split_char("a,b,,c", ','), vec!["a", "b", "", "c"]);
    assert_eq!(text::lines("a\r\nb\n"), vec!["a", "b"]);
    assert_eq!(text::split_once("k=v=w", "="), Some(("k".to_string(), "v=w".to_string())));
    assert_eq!(text::decimal_u64(0), "0");
    assert_eq!(text::decimal_u64(u64::MAX), "18446744073709551615");
    assert_eq!(text::parse_u64("18446744073709551616"), None);
    assert_eq!(text::parse_u64("12"), Some(12));
}

#[test]
fn signals_make_up_a_score() {
    let words = vec!["a1".to_string(), "b2".to_string(), "a1".to_string()];
    assert_eq!(archive::term_frequency(&words, "a1"), 2);
    assert_eq!(archive::term_frequency(&words, "c3"), 0);
    assert_eq!(archive::matched_terms(&words, &vec!["b2".to_string(), "c3".to_string()]), 1);
    assert_eq!(archive::document_frequency(&Vec::new(), &vec![0], "a1"), 0);
    assert_eq!(archive::combined_score(true, 150, 0, 10), Some(160));
    assert_eq!(archive::combined_score(false, 0, 3, 1), Some(4));
    assert_eq!(archive::combined_score(false, 0, 0, 10), None);
}

#[test]
fn white_characters_are_told() {
    let mut white = Vec::new();
    for c in '\u{0}'..=char::MAX {
        if text::trim(&c.to_string()).is_empty() {
            white.push(c as u32);
        }
    }
    let mut all: Vec<u32> = (0x9..=0xd).collect();
    all.extend([0x20, 0x85, 0xa0, 0x1680]);
    all.extend(0x2000..=0x200a);
    all.extend([0x2028, 0x2029, 0x202f, 0x205f, 0x3000]);
    assert_eq!(white, all);
}
