use nit_widgets::editor_view::buffer;
use nit_widgets::editor_view::buffer::Buffer;
use nit_widgets::editor_view::buffer::BufferLine;
use nit_widgets::editor_view::buffer::CursorPlacement;
use nit_widgets::editor_view::buffer::HighlightSnapshot;
use nit_widgets::editor_view::buffer::LineDiffStatus;
use nit_widgets::editor_view::buffer::Mode;
use nit_widgets::editor_view::buffer::SearchHighlight;
use nit_widgets::editor_view::buffer::Segment;
use nit_widgets::editor_view::buffer::SegmentMapError;
use nit_widgets::editor_view::buffer::Viewport;
use nit_widgets::editor_view::looks;
use nit_widgets::editor_view::pane;
use nit_widgets::editor_view::spans;
use nit_widgets::geometry::Rect;
use nit_widgets::style::Color;
use nit_widgets::style::HighlightColors;
use nit_widgets::style::Line;
use nit_widgets::style::Style;
use nit_widgets::style::Theme;

fn theme() -> Theme {
    Theme {
        accent: Color::Rgb(1, 1, 1),
        accent_2: Color::Rgb(2, 2, 2),
        background: Color::Rgb(0, 0, 0),
        border: Color::Rgb(3, 3, 3),
        border_focused: Color::Rgb(4, 4, 4),
        bracket_match: Color::Rgb(5, 5, 5),
        cursor_line_bg: Color::Rgb(100, 100, 100),
        diff_added: Color::Rgb(7, 7, 7),
        diff_deleted: Color::Rgb(8, 8, 8),
        diff_modified: Color::Rgb(9, 9, 9),
        error: Color::Rgb(10, 10, 10),
        foreground: Color::Rgb(11, 11, 11),
        hl: HighlightColors {
            boolean: Color::Rgb(20, 0, 0),
            emphasis: Color::Rgb(21, 0, 0),
            heading: Color::Rgb(22, 0, 0),
            keyword: Color::Rgb(23, 0, 0),
            link: Color::Rgb(24, 0, 0),
            number: Color::Rgb(25, 0, 0),
            operator: Color::Rgb(26, 0, 0),
            property: Color::Rgb(27, 0, 0),
            punctuation: Color::Rgb(28, 0, 0),
            string: Color::Rgb(29, 0, 0),
        },
        selection_bg: Color::Rgb(12, 12, 12),
        success: Color::Rgb(13, 13, 13),
        title: Color::Rgb(14, 14, 14),
        title_focused: Color::Rgb(15, 15, 15),
        warning: Color::Rgb(16, 16, 16),
    }
}

fn line(text: &str, hash: u64, start: usize, diff: LineDiffStatus) -> BufferLine {
    BufferLine {
        text: text.to_string(),
        hash,
        char_start: start,
        char_end: start + text.chars().count(),
        matches: Vec::new(),
        diff,
    }
}

fn text() -> Buffer {
    Buffer {
        lines: vec![
            line("fn a() {", 1, 0, LineDiffStatus::Unchanged),
            line("\tx", 2, 9, LineDiffStatus::Added),
            line("}", 3, 12, LineDiffStatus::DeletedAbove),
        ],
        empty_hash: 0,
        cursor_line: 0,
        cursor_col: 3,
        viewport: Viewport { offset_line: 0, offset_col: 0, height: 3, width: 20 },
        selection: None,
        bracket_partner: None,
    }
}

fn plain(l: &Line) -> String {
    l.spans.iter().map(|x| x.text.as_str()).collect()
}

fn area() -> Rect {
    Rect { x: 0, y: 0, width: 40, height: 6 }
}

fn keyword() -> Segment {
    Segment { start: 0, end: 2, style: Style::plain().bold(), quoted: false }
}

#[test]
fn lines_stand_behind_their_numbers() {
    let paint = pane::render_editor(area(), &text(), &None, true, Mode::Normal, &theme(), 4);
    let shown: Vec<String> = paint.lines.iter().map(|l| plain(l).trim_end().to_string()).collect();
    assert!(shown[0].ends_with("1 │ fn a() {"));
    assert!(shown[1].ends_with("2 │     x"));
    assert!(shown[2].ends_with("3 ▔ }"));
    assert!(paint.cursor.is_some());
    assert_eq!(paint.highlight_error, None);
}

#[test]
fn changed_lines_have_no_colors() {
    let snapshot = Some(HighlightSnapshot {
        line_hashes: vec![1, 99],
        per_line: vec![Ok(vec![keyword()]), Ok(vec![keyword()])],
        line_map: None,
    });
    assert_eq!(buffer::map_snapshot_for_line(&text(), &snapshot, 0).0.unwrap().len(), 1);
    assert!(buffer::map_snapshot_for_line(&text(), &snapshot, 1).0.is_none());
    assert!(buffer::map_snapshot_for_line(&text(), &None, 0).0.is_none());
    let broken = Some(HighlightSnapshot {
        line_hashes: vec![1],
        per_line: vec![Err(SegmentMapError { start: 3, end: 90, line_len: 8 })],
        line_map: None,
    });
    let paint = pane::render_editor(area(), &text(), &broken, true, Mode::Normal, &theme(), 4);
    assert_eq!(paint.highlight_error, Some(SegmentMapError { start: 3, end: 90, line_len: 8 }));
}

#[test]
fn columns_grow_with_characters() {
    let chars: Vec<char> = "a\t日x".chars().collect();
    let cols: Vec<usize> = (0..=4).map(|i| spans::display_col_for_char_idx(&chars, i, 4)).collect();
    assert_eq!(cols, vec![0, 1, 4, 6, 7]);
}

#[test]
fn wide_panes_show_the_whole_line() {
    let chars: Vec<char> = "let x = 1;".chars().collect();
    let looks = vec![Style::plain(); chars.len()];
    let all = spans::build_spans(&chars, &looks, 0, 30, 4, Style::plain());
    assert!(all.iter().map(|x| x.text.as_str()).collect::<String>().starts_with("let x = 1;"));
    let cut = spans::build_spans(&chars, &looks, 4, 3, 4, Style::plain());
    assert_eq!(cut.iter().map(|x| x.text.as_str()).collect::<String>(), "x =   ");
}

#[test]
fn strings_and_comments_are_known() {
    let quoted = vec![Segment { start: 2, end: 5, style: Style::plain(), quoted: true }];
    assert!(looks::cursor_in_string_or_comment(Some(&quoted), 2));
    assert!(!looks::cursor_in_string_or_comment(Some(&quoted), 5));
    assert!(!looks::cursor_in_string_or_comment(None, 3));
}

#[test]
fn matches_and_brackets_stand_out() {
    let mut b = text();
    b.lines[0].matches = vec![(0, 2)];
    b.cursor_col = 7;
    b.bracket_partner = Some((2, 0));
    let search = Some(SearchHighlight { term: "fn", whole_word: true, case_insensitive: false, live: false });
    let plain_pane = pane::render_editor(area(), &text(), &None, true, Mode::Normal, &theme(), 4);
    let marked = pane::render_editor_with_search(area(), &b, &None, true, Mode::Normal, &theme(), 4, search);
    assert!(marked.lines[0].spans.len() > plain_pane.lines[0].spans.len());
    let pair = looks::bracket_pair_for_render(&b, &None, Mode::Normal, 3).unwrap();
    assert_eq!((pair.cursor_line, pair.cursor_col, pair.partner_line, pair.partner_col), (0, 7, 2, 0));
    assert!(looks::bracket_pair_for_render(&b, &None, Mode::Visual, 3).is_none());
}

#[test]
fn the_caret_stands_behind_the_numbers() {
    let at = pane::cursor_placement(&text(), area(), 4);
    let mut next = text();
    next.cursor_line = 1;
    next.cursor_col = 1;
    let tabbed = pane::cursor_placement(&next, area(), 4);
    assert_eq!(tabbed, CursorPlacement { x: at.x + 1, y: at.y + 1 });
}
