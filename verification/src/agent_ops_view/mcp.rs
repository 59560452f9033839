//! The tab on the tool server.

use vstd::prelude::*;

use crate::agent_ops_view::roster_lines;
use crate::agent_ops_view::styles;
use crate::fit;
use crate::state::AppState;
use crate::state::McpStatus;
use crate::style;
use crate::style::Line;
use crate::style::Piece;
use crate::style::Span;
use crate::style::Style;
use crate::style::Theme;
use crate::text;
use crate::wrap;

verus! {

/// A JSON text laid out over several lines; nothing where the text is no JSON.
pub uninterp spec fn pretty(s: Seq<char>) -> Option<Seq<char>>;

/// Reads `s` as a JSON value with `serde_json::from_str` and writes it out again with
/// `serde_json::to_string_pretty`; `None` where either of them fails. Of what is written, only
/// that it depends on the text alone is said.
#[verifier::external_body]
pub(crate) fn pretty_json(s: &str) -> (r: Option<String>)
    ensures
        text::opt_text(r) == pretty(s@),
{
    let value: serde_json::Value = serde_json::from_str(s).ok()?;
    serde_json::to_string_pretty(&value).ok()
}

/// What is shown of an error, given how it would be laid out as JSON.
pub open spec fn shown_error(raw: Seq<char>, laid_out: Option<Seq<char>>) -> Seq<char> {
    let bare: Seq<char> = text::trimmed(raw);
    if bare.len() == 0 {
        Seq::empty()
    } else {
        match laid_out {
            Some(p) => p,
            None => bare,
        }
    }
}

/// The error text, or its layout as JSON where there is one.
pub fn error_text(raw: &str, laid_out: Option<String>) -> (r: String)
    ensures
        r@ == shown_error(raw@, text::opt_text(laid_out)),
{
    let bare: String = text::trim(raw);
    if text::length(bare.as_str()) == 0 {
        return String::new();
    }
    match laid_out {
        Some(p) => p,
        None => bare,
    }
}

pub fn format_mcp_error_for_display(raw: &str) -> (r: String)
    ensures
        r@ == shown_error(raw@, pretty(text::trimmed(raw@))),
{
    let bare: String = text::trim(raw);
    error_text(raw, pretty_json(bare.as_str()))
}

/// The width of the keys.
pub open spec fn key_width(width: int) -> int {
    text::min_int(11, text::monus(width, 4))
}

/// The width of the values.
pub open spec fn value_width(width: int) -> int {
    text::max_int(text::monus(width, key_width(width) + 2), 1)
}

/// The lines of a key and its value; the key stands on the first of them, or on each.
pub open spec fn kv_lines(
    key_w: int,
    value_w: int,
    key: Seq<char>,
    value: Seq<char>,
    repeat_key: bool,
) -> Seq<Seq<char>> {
    let chunks: Seq<Seq<char>> = wrap::cell_lines(value, value_w);
    Seq::new(
        chunks.len(),
        |i: int|
            " "@ + fit::left(
                if i == 0 || repeat_key {
                    key
                } else {
                    ""@
                },
                key_w,
            ) + " "@ + fit::left(chunks[i], value_w),
    )
}

pub fn push_wrapped_kv(
    out: &mut Vec<String>,
    key_w: usize,
    value_w: usize,
    key: &str,
    value: &str,
    repeat_key: bool,
)
    ensures
        text::texts(final(out)@) == text::texts(old(out)@) + kv_lines(
            key_w as int,
            value_w as int,
            key@,
            value@,
            repeat_key,
        ),
{
    broadcast use text::group_texts;

    let chunks: Vec<String> = wrap::wrap_cell_text(value, value_w);
    let ghost before: Seq<Seq<char>> = text::texts(out@);
    let ghost lines: Seq<Seq<char>> = kv_lines(
        key_w as int,
        value_w as int,
        key@,
        value@,
        repeat_key,
    );
    let mut i: usize = 0;
    assert(before + lines.take(0) =~= before);
    while i < chunks.len()
        invariant
            i <= chunks@.len(),
            chunks@.len() == lines.len(),
            text::texts(chunks@) == wrap::cell_lines(value@, value_w as int),
            lines == kv_lines(key_w as int, value_w as int, key@, value@, repeat_key),
            text::texts(out@) == before + lines.take(i as int),
        decreases chunks@.len() - i,
    {
        let cell: String = fit::fit_left(
            if i == 0 || repeat_key {
                key
            } else {
                ""
            },
            key_w,
        );
        let chunk: String = fit::fit_left(chunks[i].as_str(), value_w);
        let line: String = text::cat4(" ", cell.as_str(), " ", chunk.as_str());
        assert(text::texts(chunks@)[i as int] == chunks@[i as int]@);
        assert(line@ == lines[i as int]);
        out.push(line);
        i += 1;
        assert(before + lines.take(i as int) =~= (before + lines.take(i - 1)).push(line@));
    }
    assert(lines.take(i as int) =~= lines);
}

/// All lines of the tab.
pub open spec fn all_lines(st: AppState, width: int) -> Seq<Seq<char>> {
    let mcp: McpStatus = st.agents.mcp;
    let k: int = key_width(width);
    let v: int = value_width(width);
    let head: Seq<Seq<char>> = seq![
        " "@ + fit::left("KEY"@, k) + " "@ + fit::left("VALUE"@, v),
        roster_lines::rule(width),
    ];
    let latency: Seq<char> = match mcp.latency_ms {
        Some(ms) => text::decimal(ms as nat) + "ms"@,
        None => "--"@,
    };
    let body: Seq<Seq<char>> = head + kv_lines(k, v, "STATE"@, mcp.state_label@, false) + kv_lines(
        k,
        v,
        "ENDPOINT"@,
        mcp.endpoint@,
        false,
    ) + kv_lines(k, v, "LATENCY"@, latency, false);
    let all: Seq<Seq<char>> = match mcp.last_error {
        Some(e) => body + kv_lines(
            k,
            v,
            "LAST ERR"@,
            shown_error(e@, pretty(text::trimmed(e@))),
            true,
        ),
        None => body,
    };
    all.push(Seq::empty()).push(" [r] reconnect   [s] start   [x] stop"@)
}

pub fn mcp_lines(st: &AppState, width: usize) -> (r: Vec<String>)
    ensures
        text::texts(r@) == all_lines(*st, width as int),
{
    broadcast use text::group_texts;

    let mcp: &McpStatus = &st.agents.mcp;
    let k: usize = text::min_of(11, text::minus(width, 4));
    let v: usize = text::max_of(text::minus(width, k + 2), 1);
    let latency: String = match mcp.latency_ms {
        Some(ms) => text::cat2(text::decimal_u64(ms).as_str(), "ms"),
        None => text::copy("--"),
    };
    let mut out: Vec<String> = Vec::new();
    let key: String = fit::fit_left("KEY", k);
    let value: String = fit::fit_left("VALUE", v);
    out.push(text::cat4(" ", key.as_str(), " ", value.as_str()));
    out.push(roster_lines::rule_line(width));
    assert(text::texts(out@) =~= seq![
        " "@ + fit::left("KEY"@, k as int) + " "@ + fit::left("VALUE"@, v as int),
        roster_lines::rule(width as int),
    ]);
    push_wrapped_kv(&mut out, k, v, "STATE", mcp.state_label.as_str(), false);
    push_wrapped_kv(&mut out, k, v, "ENDPOINT", mcp.endpoint.as_str(), false);
    push_wrapped_kv(&mut out, k, v, "LATENCY", latency.as_str(), false);
    if let Some(e) = &mcp.last_error {
        let shown: String = format_mcp_error_for_display(e.as_str());
        push_wrapped_kv(&mut out, k, v, "LAST ERR", shown.as_str(), true);
    }
    out.push(String::new());
    assert(text::texts(out@).last() =~= Seq::<char>::empty());
    out.push(text::copy(" [r] reconnect   [s] start   [x] stop"));
    out
}

/// The widths of the keys and of the values.
pub open spec fn mcp_widths(width: int) -> Seq<usize> {
    seq![key_width(width) as usize, value_width(width) as usize]
}

/// The style of a value behind its key.
pub open spec fn value_look(st: AppState, name: Seq<char>, theme: Theme) -> Style {
    if name == "STATE"@ {
        styles::mcp_state_style(st.agents.mcp.state, theme)
    } else if name == "LATENCY"@ {
        Style::plain().fg(theme.accent)
    } else if name == "LAST ERR"@ {
        Style::plain().fg(theme.error)
    } else {
        styles::plain_text(theme)
    }
}

/// A line of the tab whose text is `line`.
pub open spec fn styled_line(
    st: AppState,
    line: Seq<char>,
    usable: int,
    theme: Theme,
) -> Seq<Piece> {
    let k: int = key_width(usable);
    let name: Seq<char> = text::trimmed(fit::slice(line, 1, k));
    let value: Seq<char> = fit::slice(line, 2 + k, value_width(usable));
    if line.len() == 0 {
        seq![style::piece(Seq::empty(), Style::plain())]
    } else if text::starts(line, " ["@) {
        seq![style::piece(line, styles::muted(theme))]
    } else if line[0] == ' ' {
        if name.len() == 0 && text::trimmed(value).len() == 0 {
            seq![style::piece(line, Style::plain())]
        } else {
            styles::table_row(
                line,
                mcp_widths(usable),
                Style::plain(),
                seq![styles::muted(theme), value_look(st, name, theme)],
                Style::plain(),
            )
        }
    } else {
        seq![style::piece(line, styles::plain_text(theme))]
    }
}

pub fn mcp_styled_line(st: &AppState, line: &str, usable: usize, theme: &Theme) -> (r: Line)
    ensures
        r@ == styled_line(*st, line@, usable as int, *theme),
{
    let k: usize = text::min_of(11, text::minus(usable, 4));
    let v: usize = text::max_of(text::minus(usable, k + 2), 1);
    if text::length(line) == 0 {
        let r: Line = style::single(String::new(), Style::plain());
        assert(r@[0].text =~= Seq::<char>::empty());
        return r;
    }
    if text::starts_with(line, " [") {
        return style::single(text::copy(line), styles::muted(*theme));
    }
    let chars: Vec<char> = text::chars_of(line);
    if chars[0] == ' ' {
        let key: String = fit::take_chars(line, 1, k);
        let value: String = fit::take_chars(line, 2 + k, v);
        let name: String = text::trim(key.as_str());
        if text::length(name.as_str()) == 0 && text::is_blank(value.as_str()) {
            return style::single(text::copy(line), Style::plain());
        }
        let look: Style = if text::str_eq(name.as_str(), "STATE") {
            styles::mcp_state_style(st.agents.mcp.state, *theme)
        } else if text::str_eq(name.as_str(), "LATENCY") {
            Style::plain().fg(theme.accent)
        } else if text::str_eq(name.as_str(), "LAST ERR") {
            Style::plain().fg(theme.error)
        } else {
            styles::plain_text(*theme)
        };
        let w: Vec<usize> = vec![k, v];
        assert(w@ =~= mcp_widths(usable as int));
        let looks: Vec<Style> = vec![styles::muted(*theme), look];
        assert(looks@ =~= seq![styles::muted(*theme), look]);
        return styles::styled_row(line, &w, Style::plain(), &looks, Style::plain());
    }
    style::single(text::copy(line), styles::plain_text(*theme))
}

/// Every line of the tab is drawn with its own text.
pub proof fn drawn_lines_keep_text(st: AppState, line: Seq<char>, usable: int, theme: Theme)
    ensures
        style::plain_text(styled_line(st, line, usable, theme)) == line,
{
    let k: int = key_width(usable);
    let name: Seq<char> = text::trimmed(fit::slice(line, 1, k));
    let value: Seq<char> = fit::slice(line, 2 + k, value_width(usable));
    let all: Seq<Piece> = styled_line(st, line, usable, theme);
    if line.len() > 0 && line[0] == ' ' && !text::starts(line, " ["@) && !(name.len() == 0
        && text::trimmed(value).len() == 0) {
        styles::rows_keep_text(
            line,
            mcp_widths(usable),
            Style::plain(),
            seq![styles::muted(theme), value_look(st, name, theme)],
            Style::plain(),
        );
    } else {
        style::one_piece_text(all[0]);
        assert(all =~= seq![all[0]]);
        assert(line.len() == 0 ==> line =~= Seq::<char>::empty());
    }
}

} // verus!
