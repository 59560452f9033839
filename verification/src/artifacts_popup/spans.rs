//! Marked-up text in colour.

use vstd::prelude::*;

use crate::agent_console_view::highlights;
use crate::agent_console_view::words;
use crate::style;
use crate::style::Piece;
use crate::style::Span;
use crate::style::Style;
use crate::style::Theme;
use crate::text;

verus! {

/// The style of a word, which is `base` with what the word asks for.
pub open spec fn word_style(s: Seq<char>, base: Style, theme: Theme) -> Style {
    if words::link_or_path(s) {
        base.fg(theme.hl.link).underlined()
    } else if words::numberish(s) {
        base.fg(theme.accent).bold()
    } else if words::command(s) {
        base.fg(theme.hl.operator)
    } else {
        base
    }
}

fn style_of_word(s: &str, base: Style, theme: &Theme) -> (r: Style)
    ensures
        r == word_style(s@, base, *theme),
{
    if words::looks_like_link_or_path_ref(s) {
        base.fg(theme.hl.link).underlined()
    } else if words::looks_like_numberish(s) {
        base.fg(theme.accent).bold()
    } else if words::looks_like_command(s) {
        base.fg(theme.hl.operator)
    } else {
        base
    }
}

/// The words from place `i` on and what stands between them.
pub open spec fn word_pieces(s: Seq<char>, base: Style, theme: Theme, i: int) -> Seq<Piece>
    decreases s.len() - i,
{
    if i < 0 || i >= s.len() {
        Seq::empty()
    } else {
        let word: bool = highlights::in_word(s[i]);
        let end: int = highlights::run_end(s, word, i + 1);
        let run: Seq<char> = s.subrange(i, end);
        proof {
            highlights::run_goes_on(s, word, i + 1);
        }
        seq![
            style::piece(
                run,
                if word {
                    word_style(run, base, theme)
                } else {
                    base
                },
            ),
        ] + word_pieces(s, base, theme, end)
    }
}

fn push_plain_token_spans(spans: &mut Vec<Span>, s: &str, base: Style, theme: &Theme)
    ensures
        style::pieces(final(spans)@) == style::pieces(old(spans)@) + word_pieces(
            s@,
            base,
            *theme,
            0,
        ),
{
    broadcast use {style::group_lines, style::group_piece_lists};

    let v: Vec<char> = text::chars_of(s);
    let ghost before: Seq<Piece> = style::pieces(spans@);
    let mut i: usize = 0;
    while i < v.len()
        invariant
            i <= v@.len(),
            v@ == s@,
            style::pieces(spans@) + word_pieces(s@, base, *theme, i as int) == before + word_pieces(
                s@,
                base,
                *theme,
                0,
            ),
        decreases v@.len() - i,
    {
        broadcast use {style::group_lines, style::group_piece_lists};

        let word: bool = highlights::is_in_word(v[i]);
        let start: usize = i;
        i += 1;
        while i < v.len() && highlights::is_in_word(v[i]) == word
            invariant
                start < i <= v@.len(),
                v@ == s@,
                highlights::run_end(s@, word, i as int) == highlights::run_end(
                    s@,
                    word,
                    start + 1,
                ),
            decreases v@.len() - i,
        {
            i += 1;
        }
        let run: String = text::text_range(&v, start, i);
        let look: Style = if word {
            style_of_word(run.as_str(), base, theme)
        } else {
            base
        };
        spans.push(style::styled(run, look));
    }
}

/// The style of a piece of code inside a line.
pub open spec fn code_style(code: Seq<char>, theme: Theme) -> Style {
    let t: Seq<char> = text::trimmed(code);
    if words::link_or_path(t) {
        Style::plain().fg(theme.hl.link).underlined()
    } else if words::numberish(t) {
        Style::plain().fg(theme.accent).bold()
    } else if words::command(t) {
        Style::plain().fg(theme.hl.operator)
    } else {
        Style::plain().fg(theme.foreground).bg(
            style::dimmed(theme.cursor_line_bg, theme.background, 25),
        )
    }
}

pub fn inline_code_style(code: &str, theme: &Theme) -> (r: Style)
    ensures
        r == code_style(code@, *theme),
{
    let bare: String = text::trim(code);
    let t: &str = bare.as_str();
    if words::looks_like_link_or_path_ref(t) {
        Style::plain().fg(theme.hl.link).underlined()
    } else if words::looks_like_numberish(t) {
        Style::plain().fg(theme.accent).bold()
    } else if words::looks_like_command(t) {
        Style::plain().fg(theme.hl.operator)
    } else {
        Style::plain().fg(theme.foreground).bg(
            style::dim_bg_towards(theme.cursor_line_bg, theme.background, 25),
        )
    }
}

/// The style of a formula inside a line.
pub open spec fn math_style(theme: Theme) -> Style {
    Style::plain().fg(theme.accent).bg(
        style::dimmed(theme.cursor_line_bg, theme.background, 22),
    ).italic().bold()
}

pub fn inline_math_style(theme: &Theme) -> (r: Style)
    ensures
        r == math_style(*theme),
{
    Style::plain().fg(theme.accent).bg(
        style::dim_bg_towards(theme.cursor_line_bg, theme.background, 22),
    ).italic().bold()
}

/// Whether a character shows that a text is a formula.
pub open spec fn math_char(c: char) -> bool {
    text::digit(c) || c == '=' || c == '+' || c == '-' || c == '*' || c == '/' || c == '^' || c
        == '_' || c == '\\' || c == '(' || c == ')' || c == '[' || c == ']'
}

/// Whether a text reads as a formula.
pub open spec fn inline_math(s: Seq<char>) -> bool {
    let t: Seq<char> = text::trimmed(s);
    t.len() > 0 && t[0] != ' ' && t.last() != ' ' && exists|i: int|
        0 <= i < t.len() && math_char(#[trigger] t[i])
}

pub fn looks_like_inline_math(s: &str) -> (r: bool)
    ensures
        r == inline_math(s@),
{
    let bare: String = text::trim(s);
    let v: Vec<char> = text::chars_of(bare.as_str());
    let n: usize = v.len();
    if n == 0 || v[0] == ' ' || v[n - 1] == ' ' {
        return false;
    }
    let ghost t: Seq<char> = text::trimmed(s@);
    let mut i: usize = 0;
    while i < n
        invariant
            i <= n == v@.len(),
            v@ == t,
            t == text::trimmed(s@),
            t.len() > 0 && t[0] != ' ' && t.last() != ' ',
            forall|k: int| 0 <= k < i ==> !math_char(#[trigger] t[k]),
        decreases n - i,
    {
        let c: char = v[i];
        if text::is_digit(c) || c == '=' || c == '+' || c == '-' || c == '*' || c == '/' || c == '^'
            || c == '_' || c == '\\' || c == '(' || c == ')' || c == '[' || c == ']' {
            assert(math_char(t[i as int]));
            return true;
        }
        i += 1;
    }
    false
}

/// What is marked up at the start of a text: the piece that it shows and how long it is.
pub open spec fn marked_up(s: Seq<char>, base: Style, theme: Theme) -> Option<(Piece, int)> {
    let rest: Seq<char> = text::tail(s, 1);
    let rest2: Seq<char> = text::tail(s, 2);
    let code: Option<int> = if s.len() > 0 && s[0] == '`' {
        text::position(rest, '`')
    } else {
        None
    };
    let math: Option<int> = if s.len() > 0 && s[0] == '$' {
        text::position(rest, '$')
    } else {
        None
    };
    let strong: Option<int> = if text::starts(s, "**"@) {
        text::find(rest2, "**"@)
    } else {
        None
    };
    let emphasis: Option<int> = if s.len() > 0 && s[0] == '*' {
        text::position(rest, '*')
    } else {
        None
    };
    if let Some(k) = code {
        let inner: Seq<char> = text::head(rest, k);
        Some(
            (
                style::piece("`"@ + inner + "`"@, code_style(inner, theme).patch(base)),
                k + 2,
            ),
        )
    } else if math is Some && inline_math(text::head(rest, math->0)) {
        let inner: Seq<char> = text::head(rest, math->0);
        Some((style::piece("$"@ + inner + "$"@, math_style(theme).patch(base)), math->0 + 2))
    } else if let Some(k) = strong {
        Some((style::piece(text::head(rest2, k), base.fg(theme.hl.heading).bold()), k + 4))
    } else if let Some(k) = emphasis {
        Some((style::piece(text::head(rest, k), base.fg(theme.hl.emphasis).italic()), k + 2))
    } else {
        None
    }
}

/// Whether a character may start something marked up.
pub open spec fn mark(c: char) -> bool {
    c == '`' || c == '*' || c == '$'
}

/// How many characters stand before the first mark, from `i` on.
pub open spec fn unmarked(s: Seq<char>, i: int) -> int
    decreases s.len() - i,
{
    if 0 <= i < s.len() && !mark(s[i]) {
        unmarked(s, i + 1)
    } else {
        i
    }
}

/// The rest of a text is shorter than the text.
pub proof fn marked_up_is_long(s: Seq<char>, base: Style, theme: Theme)
    ensures
        marked_up(s, base, theme) matches Some(m) ==> 0 < m.1 <= s.len(),
{
    reveal_strlit("**");
    let rest: Seq<char> = text::tail(s, 1);
    let rest2: Seq<char> = text::tail(s, 2);
    text::char_at_or_after_is_first(rest, '`', 0);
    text::char_at_or_after_is_first(rest, '$', 0);
    text::char_at_or_after_is_first(rest, '*', 0);
    highlights::found_inside(rest2, "**"@, 0);
}

/// Where the marks start lies in the text.
pub proof fn unmarked_is_inside(s: Seq<char>, i: int)
    requires
        0 <= i <= s.len(),
    ensures
        i <= unmarked(s, i) <= s.len(),
    decreases s.len() - i,
{
    if i < s.len() && !mark(s[i]) {
        unmarked_is_inside(s, i + 1);
    }
}

/// Marked-up text in pieces.
pub open spec fn inline_pieces(s: Seq<char>, base: Style, theme: Theme) -> Seq<Piece>
    decreases s.len(),
{
    if s.len() == 0 {
        Seq::empty()
    } else {
        proof {
            marked_up_is_long(s, base, theme);
            unmarked_is_inside(s, 0);
        }
        match marked_up(s, base, theme) {
            Some(m) => seq![m.0] + inline_pieces(text::tail(s, m.1), base, theme),
            None => {
                let n: int = unmarked(s, 0);
                if n == 0 {
                    seq![style::piece(text::head(s, 1), base)] + inline_pieces(
                        text::tail(s, 1),
                        base,
                        theme,
                    )
                } else {
                    word_pieces(text::head(s, n), base, theme, 0) + inline_pieces(
                        text::tail(s, n),
                        base,
                        theme,
                    )
                }
            },
        }
    }
}

/// Pieces, or an empty one where there are none.
pub open spec fn or_empty(v: Seq<Piece>, base: Style) -> Seq<Piece> {
    if v.len() == 0 {
        seq![style::piece(Seq::empty(), base)]
    } else {
        v
    }
}

pub fn spans_or_empty(v: Vec<Span>, base: Style) -> (r: Vec<Span>)
    ensures
        style::pieces(r@) == or_empty(style::pieces(v@), base),
{
    assert(style::pieces(v@).len() == v@.len());
    if v.len() == 0 {
        let none: String = String::new();
        assert(none@ =~= Seq::<char>::empty());
        let r: Vec<Span> = vec![style::styled(none, base)];
        assert(style::pieces(r@) =~= seq![style::piece(Seq::empty(), base)]);
        r
    } else {
        v
    }
}

/// Marked-up text.
pub open spec fn text_pieces(s: Seq<char>, base: Style, theme: Theme) -> Seq<Piece> {
    or_empty(inline_pieces(s, base, theme), base)
}

fn find_marked_up(s: &str, base: Style, theme: &Theme) -> (r: Option<(Span, usize)>)
    ensures
        match r {
            Some(m) => marked_up(s@, base, *theme) == Some((m.0@, m.1 as int)),
            None => marked_up(s@, base, *theme) is None,
        },
{
    proof {
        reveal_strlit("**");
        reveal_strlit("`");
        reveal_strlit("*");
        reveal_strlit("$");
    }
    let rest: String = text::tail_of(s, 1);
    let v: Vec<char> = text::chars_of(s);
    let n: usize = v.len();
    if n == 0 {
        assert(!text::starts(s@, "**"@));
        return None;
    }
    let first: char = v[0];
    if first == '`' {
        if let Some(k) = text::find_char(rest.as_str(), '`') {
            let inner: String = text::head_of(rest.as_str(), k);
            let look: Style = inline_code_style(inner.as_str(), theme);
            return Some(
                (
                    style::styled(text::cat3("`", inner.as_str(), "`"), look.patch(base)),
                    k + 2,
                ),
            );
        }
    }
    if first == '$' {
        if let Some(k) = text::find_char(rest.as_str(), '$') {
            let inner: String = text::head_of(rest.as_str(), k);
            if looks_like_inline_math(inner.as_str()) {
                let look: Style = inline_math_style(theme);
                return Some(
                    (
                        style::styled(text::cat3("$", inner.as_str(), "$"), look.patch(base)),
                        k + 2,
                    ),
                );
            }
        }
    }
    if text::starts_with(s, "**") {
        let rest2: String = text::tail_of(s, 2);
        if let Some(k) = text::find_text(rest2.as_str(), "**") {
            return Some(
                (
                    style::styled(
                        text::head_of(rest2.as_str(), k),
                        base.fg(theme.hl.heading).bold(),
                    ),
                    k + 4,
                ),
            );
        }
    }
    if first == '*' {
        if let Some(k) = text::find_char(rest.as_str(), '*') {
            return Some(
                (
                    style::styled(
                        text::head_of(rest.as_str(), k),
                        base.fg(theme.hl.emphasis).italic(),
                    ),
                    k + 2,
                ),
            );
        }
    }
    None
}

fn count_unmarked(s: &str) -> (r: usize)
    ensures
        r == unmarked(s@, 0),
        r <= s@.len(),
{
    let v: Vec<char> = text::chars_of(s);
    let mut i: usize = 0;
    while i < v.len() && !(v[i] == '`' || v[i] == '*' || v[i] == '$')
        invariant
            i <= v@.len(),
            v@ == s@,
            unmarked(s@, 0) == unmarked(s@, i as int),
        decreases v@.len() - i,
    {
        i += 1;
    }
    i
}

fn push_inline(spans: &mut Vec<Span>, s: &str, base: Style, theme: &Theme)
    ensures
        style::pieces(final(spans)@) == style::pieces(old(spans)@) + inline_pieces(
            s@,
            base,
            *theme,
        ),
    decreases s@.len(),
{
    broadcast use {style::group_lines, style::group_piece_lists};

    if text::length(s) == 0 {
        return;
    }
    proof {
        marked_up_is_long(s@, base, *theme);
        unmarked_is_inside(s@, 0);
    }
    match find_marked_up(s, base, theme) {
        Some(m) => {
            spans.push(m.0);
            let rest: String = text::tail_of(s, m.1);
            push_inline(spans, rest.as_str(), base, theme);
        },
        None => {
            let n: usize = count_unmarked(s);
            if n == 0 {
                spans.push(style::styled(text::head_of(s, 1), base));
                let rest: String = text::tail_of(s, 1);
                push_inline(spans, rest.as_str(), base, theme);
            } else {
                let plain: String = text::head_of(s, n);
                push_plain_token_spans(spans, plain.as_str(), base, theme);
                let rest: String = text::tail_of(s, n);
                push_inline(spans, rest.as_str(), base, theme);
            }
        },
    }
}

pub fn styled_text_spans(s: &str, base: Style, theme: &Theme) -> (r: Vec<Span>)
    ensures
        style::pieces(r@) == text_pieces(s@, base, *theme),
{
    broadcast use {style::group_lines, style::group_piece_lists};

    let mut spans: Vec<Span> = Vec::new();
    assert(style::pieces(spans@) =~= Seq::<Piece>::empty());
    push_inline(&mut spans, s, base, theme);
    assert(style::pieces(spans@) =~= inline_pieces(s@, base, *theme));
    spans_or_empty(spans, base)
}

proof fn words_keep_text(s: Seq<char>, base: Style, theme: Theme, i: int)
    requires
        0 <= i <= s.len(),
    ensures
        style::plain_text(word_pieces(s, base, theme, i)) == s.subrange(i, s.len() as int),
    decreases s.len() - i,
{
    if i < s.len() {
        let word: bool = highlights::in_word(s[i]);
        let end: int = highlights::run_end(s, word, i + 1);
        highlights::run_goes_on(s, word, i + 1);
        words_keep_text(s, base, theme, end);
        let run: Seq<char> = s.subrange(i, end);
        let first: Piece = style::piece(
            run,
            if word {
                word_style(run, base, theme)
            } else {
                base
            },
        );
        style::one_piece_text(first);
        style::plain_text_add(seq![first], word_pieces(s, base, theme, end));
        assert(run + s.subrange(end, s.len() as int) =~= s.subrange(i, s.len() as int));
    }
}

/// Text without marks is shown as it is.
pub proof fn plain_text_is_shown(s: Seq<char>, base: Style, theme: Theme)
    requires
        forall|i: int| 0 <= i < s.len() ==> !mark(#[trigger] s[i]),
    ensures
        style::plain_text(text_pieces(s, base, theme)) == s,
{
    reveal_strlit("**");
    if s.len() == 0 {
        style::one_piece_text(style::piece(Seq::empty(), base));
        assert(s =~= Seq::<char>::empty());
    } else {
        assert(!mark(s[0]));
        if text::starts(s, "**"@) {
            assert(s.subrange(0, 2)[0] == '*');
        }
        no_marks(s, 0);
        assert(text::head(s, s.len() as int) =~= s);
        words_keep_text(s, base, theme, 0);
        assert(s.subrange(0, s.len() as int) =~= s);
        let w: Seq<Piece> = word_pieces(s, base, theme, 0);
        assert(inline_pieces(text::tail(s, s.len() as int), base, theme) =~= Seq::<Piece>::empty());
        assert(w + Seq::<Piece>::empty() =~= w);
    }
}

proof fn no_marks(s: Seq<char>, i: int)
    requires
        0 <= i <= s.len(),
        forall|j: int| 0 <= j < s.len() ==> !mark(#[trigger] s[j]),
    ensures
        unmarked(s, i) == s.len(),
    decreases s.len() - i,
{
    if i < s.len() {
        no_marks(s, i + 1);
    }
}

} // verus!
