use nit_widgets::artifacts_popup::code;
use nit_widgets::artifacts_popup::code::CodeBlock;
use nit_widgets::artifacts_popup::code::RecentBlocks;
use nit_widgets::artifacts_popup::code::StyledRange;
use nit_widgets::artifacts_popup::code::SyntaxTables;
use nit_widgets::artifacts_popup::content;
use nit_widgets::artifacts_popup::json;
use nit_widgets::artifacts_popup::markdown;
use nit_widgets::artifacts_popup::math;
use nit_widgets::artifacts_popup::spans;
use nit_widgets::artifacts_popup::tables;
use nit_widgets::state::Entry;
use nit_widgets::style::Color;
use nit_widgets::style::HighlightColors;
use nit_widgets::style::Line;
use nit_widgets::style::Span;
use nit_widgets::style::Style;
use nit_widgets::style::Theme;

fn theme() -> Theme {
    Theme {
        accent: Color::Rgb(1, 1, 1),
        accent_2: Color::Rgb(2, 2, 2),
        background: Color::Rgb(0, 0, 0),
        border: Color::Rgb(3, 3, 3),
        border_focused: Color::Rgb(4, 4, 4),
        bracket_match: Color::Rgb(5, 5, 5),
        cursor_line_bg: Color::Rgb(100, 100, 100),
        diff_added: Color::Rgb(7, 7, 7),
        diff_deleted: Color::Rgb(8, 8, 8),
        diff_modified: Color::Rgb(9, 9, 9),
        error: Color::Rgb(10, 10, 10),
        foreground: Color::Rgb(11, 11, 11),
        hl: HighlightColors {
            boolean: Color::Rgb(20, 0, 0),
            emphasis: Color::Rgb(21, 0, 0),
            heading: Color::Rgb(22, 0, 0),
            keyword: Color::Rgb(23, 0, 0),
            link: Color::Rgb(24, 0, 0),
            number: Color::Rgb(25, 0, 0),
            operator: Color::Rgb(26, 0, 0),
            property: Color::Rgb(27, 0, 0),
            punctuation: Color::Rgb(28, 0, 0),
            string: Color::Rgb(29, 0, 0),
        },
        selection_bg: Color::Rgb(12, 12, 12),
        success: Color::Rgb(13, 13, 13),
        title: Color::Rgb(14, 14, 14),
        title_focused: Color::Rgb(15, 15, 15),
        warning: Color::Rgb(16, 16, 16),
    }
}

fn syntax() -> SyntaxTables {
    SyntaxTables {
        aliases: vec![
            Entry { key: "rs".to_string(), value: "rust".to_string() },
            Entry { key: "jsonc".to_string(), value: "json".to_string() },
            Entry { key: "json".to_string(), value: "json".to_string() },
        ],
        grammars: vec![
            Entry { key: "rust".to_string(), value: "rust".to_string() },
            Entry { key: "json".to_string(), value: "json".to_string() },
        ],
        blocks: Vec::new(),
    }
}

fn spans_text(spans: &[Span]) -> String {
    spans.iter().map(|s| s.text.as_str()).collect()
}

fn plain(lines: &[Line]) -> Vec<String> {
    lines.iter().map(|l| spans_text(&l.spans)).collect()
}

fn document(s: &str, width: usize) -> Vec<String> {
    plain(&markdown::render_markdown_document(s, &syntax(), &theme(), width))
}

#[test]
fn headings_are_marked_by_level() {
    assert_eq!(document("# One", 40), vec![" § One"]);
    assert_eq!(document("## Two", 40), vec![" • Two"]);
    assert_eq!(document("### Three", 40), vec![" · Three"]);
    assert_eq!(document("**Strong**", 40), vec![" • Strong"]);
    assert_eq!(document("#", 40), vec![" #"]);
}

#[test]
fn lists_and_quotes_keep_their_marks() {
    assert_eq!(document("- item", 40), vec![" - item"]);
    assert_eq!(document("12. item", 40), vec![" 12. item"]);
    assert_eq!(document("> said", 40), vec![" │ said"]);
    assert_eq!(document("- a longer item", 12), vec![" - a longer ", "   item"]);
}

#[test]
fn rules_and_blank_lines_are_drawn() {
    assert_eq!(document("---", 5), vec!["─────"]);
    assert_eq!(document("a\n\nb", 40), vec![" a", "", " b"]);
    assert_eq!(document("", 40), vec![""]);
}

#[test]
fn code_blocks_are_numbered() {
    let lines = document("```rs\nfn main() {}\n```", 40);
    assert_eq!(lines, vec![" code block (rust)", " 1 │ fn main() {}", ""]);
    assert_eq!(document("~~~\nopen", 40), vec![" code block", " 1 │ open"]);
    assert_eq!(document("```\n```", 40), vec![" code block", "   │ ", ""]);
}

#[test]
fn json_blocks_are_laid_out() {
    let lines = document("```json\n{\"a\":1}\n```", 40);
    assert_eq!(lines, vec![" code block (json)", " 1 │ {", " 2 │   \"a\": 1", " 3 │ }", ""]);
    let broken = document("```json\n{\"a\":\n```", 40);
    assert_eq!(broken, vec![" code block (json)", " 1 │ {\"a\":", ""]);
}

#[test]
fn json_documents_are_laid_out() {
    let lines = document("[1]", 40);
    assert_eq!(lines, vec![" json document", " code block (json)", " 1 │ [", " 2 │   1", " 3 │ ]"]);
    assert_eq!(document("[no json", 40), vec![" [no json"]);
}

#[test]
fn the_layout_of_a_document_is_taken_as_given() {
    let lines = markdown::render_document_with("x", Some("{}".to_string()), &syntax(), &theme(), 40);
    assert_eq!(plain(&lines), vec![" json document", " code block (json)", " 1 │ {}"]);
    let lines = markdown::render_document_with("x", None, &syntax(), &theme(), 40);
    assert_eq!(plain(&lines), vec![" x"]);
    assert_eq!(code::code_lines_with(vec!["a".to_string()], None), vec!["a"]);
    assert_eq!(
        code::code_lines_with(vec!["a".to_string()], Some("b\nc".to_string())),
        vec!["b", "c"]
    );
}

#[test]
fn formulas_stand_on_their_own() {
    assert_eq!(document("$$\nx+y\nz\n$$", 40), vec![" equation", " ∑ x+y", "   z", ""]);
    assert_eq!(document("$$x$$", 40), vec![" equation", " ∑ x", ""]);
    assert_eq!(document("\\[\nx\n\\]", 40), vec![" equation", " ∑ x", ""]);
    assert_eq!(document("$$\n$$", 40), vec![" equation", " ∑ ", ""]);
}

#[test]
fn tables_fill_the_width() {
    let lines = document("| a | b |\n|---|---|\n| 1 | 22 |", 31);
    assert_eq!(lines.len(), 5);
    assert!(lines.iter().all(|l| l.chars().count() == 31));
    assert_eq!(lines[1], "| a   | b                     |");
    assert_eq!(lines[3], "| 1   | 22                    |");
    assert_eq!(lines[0], "+-----+-----------------------+");
}

#[test]
fn broken_tables_are_shown_as_code() {
    assert_eq!(document("| a | b |", 40), vec!["   │ | a | b |"]);
    assert_eq!(document("| a | b |\n| c | d |", 40).len(), 2);
}

#[test]
fn cells_are_cut_to_their_columns() {
    assert_eq!(tables::truncate_to_width("abcdef", 4), "abc…");
    assert_eq!(tables::truncate_to_width("abcd", 4), "abcd");
    assert_eq!(tables::truncate_to_width("日本語", 4), "日…");
    assert!(tables::is_markdown_table_candidate("|a|b|"));
    assert!(!tables::is_markdown_table_candidate("|a|"));
    assert_eq!(tables::split_markdown_table_cells("| a | b |"), vec!["a", "b"]);
    assert!(tables::is_markdown_table_separator(&vec![":-".to_string(), "---".to_string()]));
    assert!(!tables::is_markdown_table_separator(&vec!["x".to_string()]));
}

#[test]
fn tags_stand_for_languages() {
    let syn = syntax();
    assert_eq!(code::canonical_code_lang(&syn, " rs "), "rust");
    assert_eq!(code::canonical_code_lang(&syn, "Zig"), "zig");
    assert_eq!(code::canonical_code_lang(&syn, ""), "");
    assert!(code::is_json_code_lang(&syn, "jsonc"));
    assert_eq!(code::language_id_for_code_block(&syn, "", " {"), Some("json".to_string()));
    assert_eq!(code::language_id_for_code_block(&syn, "", "x"), None);
    assert_eq!(code::language_id_for_code_block(&syn, "fish", "x"), Some("bash".to_string()));
    assert_eq!(code::language_id_for_code_block(&syn, "txt", "x"), Some("plaintext".to_string()));
    assert_eq!(code::language_id_for_code_block(&syn, "rs", "x"), Some("rust".to_string()));
    assert_eq!(code::language_id_for_code_block(&syn, "zig", "x"), None);
}

#[test]
fn analysed_code_is_coloured_and_keeps_its_text() {
    let base = Style::plain().fg(Color::White);
    let red = Style::plain().fg(Color::Red);
    let ranges = vec![StyledRange { start: 0, end: 2, style: red }];
    let lines = code::syntax_highlighted_wrapped_segments("fn main", &ranges, base, 4);
    assert_eq!(plain(&lines).concat(), "fn main");
    assert_eq!(plain(&lines), vec!["fn m", "ain"]);
    assert_eq!(lines[0].spans[0].text, "fn");
    assert_eq!(lines[0].spans[0].style, red);
    assert_eq!(lines[0].spans[1].style, base);
    let tabbed = code::syntax_highlighted_wrapped_segments("\tx", &Vec::new(), base, 10);
    assert_eq!(plain(&tabbed), vec!["    x"]);
}

#[test]
fn blocks_are_found_by_grammar_and_text() {
    let mut syn = syntax();
    syn.blocks.push(CodeBlock {
        grammar: "rust".to_string(),
        text: "let x".to_string(),
        lines: vec![Some(vec![StyledRange { start: 0, end: 3, style: Style::plain().bold() }])],
    });
    let lines = markdown::render_markdown_document("```rs\nlet x\n```", &syn, &theme(), 40);
    assert_eq!(lines[1].spans[1].text, "let");
    assert!(lines[1].spans[1].style.bold);
    assert!(code::highlight_code_block(&syn, "rust", "let y").is_none());
}

#[test]
fn recent_blocks_are_listed_once() {
    let mut recent = RecentBlocks::new();
    for id in [1usize, 2, 3, 1] {
        let (next, reset) = recent.touch_buffer_id(id);
        assert!(!reset);
        recent = next;
    }
    assert_eq!(recent.ids, vec![2, 3, 1]);
    for id in 10..103usize {
        recent = recent.touch_buffer_id(id).0;
    }
    assert_eq!(recent.ids.len(), 96);
    let (anew, reset) = recent.touch_buffer_id(500);
    assert!(reset);
    assert_eq!(anew.ids, vec![500]);
}

#[test]
fn json_keeps_every_character() {
    let s = "{\"key\": [1, -2.5e3, true, null, \"v\\\"\"], broken \"x";
    let spans = json::styled_json_spans(s, Style::plain(), &theme());
    assert_eq!(spans_text(&spans), s);
    assert_eq!(spans[1].text, "\"key\"");
    assert_eq!(spans[1].style, Style::plain().fg(theme().hl.property).bold());
}

#[test]
fn formulas_keep_every_character() {
    let s = "\\alpha_1 + 2x^2";
    let spans = math::styled_math_spans(s, Style::plain(), &theme());
    assert_eq!(spans_text(&spans), s);
}

#[test]
fn marks_are_taken_out_of_text() {
    let spans = spans::styled_text_spans("a **b** `c` *d*", Style::plain(), &theme());
    assert_eq!(spans_text(&spans), "a b `c` d");
    let plain_spans = spans::styled_text_spans("nothing marked", Style::plain(), &theme());
    assert_eq!(spans_text(&plain_spans), "nothing marked");
    let empty = spans::styled_text_spans("", Style::plain(), &theme());
    assert_eq!(empty.len(), 1);
}

#[test]
fn changes_are_coloured_by_their_first_characters() {
    let t = theme();
    assert_eq!(content::diff_line_style("+x", &t).fg, Some(t.success));
    assert_eq!(content::diff_line_style("+++ b", &t).fg, Some(t.foreground));
    assert_eq!(content::diff_line_style("-x", &t).fg, Some(t.error));
    assert_eq!(content::diff_line_style("@@ 1", &t).fg, Some(t.title_focused));
}

#[test]
fn plain_lines_are_styled_by_what_they_say() {
    let t = theme();
    assert_eq!(content::style_line(0, "title", &t).spans[0].style, Style::plain().fg(t.title_focused).bold());
    assert_eq!(content::style_line(1, "───", &t).spans[0].style, Style::plain().fg(t.border).dim());
    assert!(content::style_line(1, "", &t).spans.is_empty());
    let link = content::style_line(2, " link: https://x", &t);
    assert_eq!(link.spans[0].text, " link: ");
    assert_eq!(link.spans[1].style, Style::plain().fg(t.hl.link).underlined());
    assert_eq!(content::style_line(2, "no label", &t).spans.len(), 1);
}
