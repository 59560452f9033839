//! The words of a message in colour.

use vstd::prelude::*;

use crate::agent_console_view::words;
use crate::style;
use crate::style::Piece;
use crate::style::Span;
use crate::style::Style;
use crate::style::Theme;
use crate::text;

verus! {

/// The style of a word, which is `base` where the word is an ordinary one.
pub open spec fn word_style(s: Seq<char>, base: Style, theme: Theme) -> Style {
    if words::link_or_path(s) {
        Style::plain().fg(theme.hl.link).underlined()
    } else if words::numberish(s) {
        Style::plain().fg(theme.accent).bold()
    } else if words::command(s) {
        Style::plain().fg(theme.hl.operator)
    } else {
        base
    }
}

fn style_of_word(s: &str, base: Style, theme: &Theme) -> (r: Style)
    ensures
        r == word_style(s@, base, *theme),
{
    if words::looks_like_link_or_path_ref(s) {
        Style::plain().fg(theme.hl.link).underlined()
    } else if words::looks_like_numberish(s) {
        Style::plain().fg(theme.accent).bold()
    } else if words::looks_like_command(s) {
        Style::plain().fg(theme.hl.operator)
    } else {
        base
    }
}

/// The style of a piece of code inside a line.
pub open spec fn code_style(code: Seq<char>, theme: Theme) -> Style {
    word_style(text::trimmed(code), Style::plain().fg(theme.foreground), theme)
}

pub fn inline_code_style(code: &str, theme: &Theme) -> (r: Style)
    ensures
        r == code_style(code@, *theme),
{
    let bare: String = text::trim(code);
    style_of_word(bare.as_str(), Style::plain().fg(theme.foreground), theme)
}

/// Whether a character is part of a word.
pub open spec fn in_word(c: char) -> bool {
    text::alnum(c) || c == '_' || c == '-' || c == '.' || c == '/' || c == '\\' || c == ':' || c
        == '#' || c == '%'
}

pub fn is_in_word(c: char) -> (r: bool)
    ensures
        r == in_word(c),
{
    text::is_alnum(c) || c == '_' || c == '-' || c == '.' || c == '/' || c == '\\' || c == ':' || c
        == '#' || c == '%'
}

/// Where the run of characters of one sort ends that starts at `i` or before.
pub open spec fn run_end(s: Seq<char>, word: bool, i: int) -> int
    decreases s.len() - i,
{
    if 0 <= i < s.len() && in_word(s[i]) == word {
        run_end(s, word, i + 1)
    } else {
        i
    }
}

/// A run ends where it starts or behind it.
pub proof fn run_goes_on(s: Seq<char>, word: bool, i: int)
    requires
        0 <= i <= s.len(),
    ensures
        i <= run_end(s, word, i) <= s.len(),
    decreases s.len() - i,
{
    if i < s.len() && in_word(s[i]) == word {
        run_goes_on(s, word, i + 1);
    }
}

/// The words from place `i` on and what stands between them.
pub open spec fn word_pieces(s: Seq<char>, base: Style, theme: Theme, i: int) -> Seq<Piece>
    decreases s.len() - i,
{
    if i < 0 || i >= s.len() {
        Seq::empty()
    } else {
        let word: bool = in_word(s[i]);
        let end: int = run_end(s, word, i + 1);
        let run: Seq<char> = s.subrange(i, end);
        proof {
            run_goes_on(s, word, i + 1);
        }
        seq![
            style::piece(
                run,
                if word {
                    word_style(run, base, theme)
                } else {
                    base
                },
            ),
        ] + word_pieces(s, base, theme, end)
    }
}

fn push_words(spans: &mut Vec<Span>, s: &str, base: Style, theme: &Theme)
    ensures
        style::pieces(final(spans)@) == style::pieces(old(spans)@) + word_pieces(
            s@,
            base,
            *theme,
            0,
        ),
{
    broadcast use {style::group_lines, style::group_piece_lists};

    let v: Vec<char> = text::chars_of(s);
    let ghost before: Seq<Piece> = style::pieces(spans@);
    let mut i: usize = 0;
    while i < v.len()
        invariant
            i <= v@.len(),
            v@ == s@,
            style::pieces(spans@) + word_pieces(s@, base, *theme, i as int) == before + word_pieces(
                s@,
                base,
                *theme,
                0,
            ),
        decreases v@.len() - i,
    {
        broadcast use {style::group_lines, style::group_piece_lists};

        let word: bool = is_in_word(v[i]);
        let start: usize = i;
        i += 1;
        while i < v.len() && is_in_word(v[i]) == word
            invariant
                start < i <= v@.len(),
                v@ == s@,
                run_end(s@, word, i as int) == run_end(s@, word, start + 1),
            decreases v@.len() - i,
        {
            i += 1;
        }
        let run: String = text::text_range(&v, start, i);
        let look: Style = if word {
            style_of_word(run.as_str(), base, theme)
        } else {
            base
        };
        spans.push(style::styled(run, look));
    }
}

proof fn words_keep_text_from(s: Seq<char>, base: Style, theme: Theme, i: int)
    requires
        0 <= i <= s.len(),
    ensures
        style::plain_text(word_pieces(s, base, theme, i)) == s.subrange(i, s.len() as int),
    decreases s.len() - i,
{
    if i < s.len() {
        let word: bool = in_word(s[i]);
        let end: int = run_end(s, word, i + 1);
        run_goes_on(s, word, i + 1);
        words_keep_text_from(s, base, theme, end);
        let run: Seq<char> = s.subrange(i, end);
        let first: Seq<Piece> = seq![
            style::piece(
                run,
                if word {
                    word_style(run, base, theme)
                } else {
                    base
                },
            ),
        ];
        style::plain_text_add(first, word_pieces(s, base, theme, end));
        style::one_piece_text(first[0]);
        assert(first =~= seq![first[0]]);
        assert(run + s.subrange(end, s.len() as int) =~= s.subrange(i, s.len() as int));
    }
}

/// Where the first character stands that is not white space, at `i` or after it.
pub open spec fn dark_from(s: Seq<char>, i: int) -> int
    decreases s.len() - i,
{
    if 0 <= i < s.len() && text::white(s[i]) {
        dark_from(s, i + 1)
    } else {
        i
    }
}

/// Where the letters end that start at `i`.
pub open spec fn letters_end(s: Seq<char>, i: int) -> int
    decreases s.len() - i,
{
    if 0 <= i < s.len() && text::alpha(s[i]) {
        letters_end(s, i + 1)
    } else {
        i
    }
}

/// The word behind `VERIFY result:`, where there is one.
pub open spec fn verify_outcome(s: Seq<char>) -> Option<(int, int)> {
    match text::find(s, "VERIFY result:"@) {
        Some(k) => {
            let start: int = dark_from(s, k + 14);
            let end: int = letters_end(s, start);
            if start < end {
                Some((start, end))
            } else {
                None
            }
        },
        None => None,
    }
}

fn find_verify_outcome(v: &Vec<char>, s: &str) -> (r: Option<(usize, usize)>)
    requires
        v@ == s@,
    ensures
        match r {
            Some(p) => verify_outcome(s@) == Some((p.0 as int, p.1 as int)) && p.0 < p.1
                <= v@.len(),
            None => verify_outcome(s@) is None,
        },
{
    proof {
        reveal_strlit("VERIFY result:");
    }
    let k: usize = match text::find_text(s, "VERIFY result:") {
        Some(k) => k,
        None => {
            return None;
        },
    };
    let mut start: usize = k + 14;
    while start < v.len() && text::is_white(v[start])
        invariant
            start <= v@.len(),
            v@ == s@,
            dark_from(s@, start as int) == dark_from(s@, k + 14),
        decreases v@.len() - start,
    {
        start += 1;
    }
    let mut end: usize = start;
    while end < v.len() && text::is_alpha(v[end])
        invariant
            start <= end <= v@.len(),
            v@ == s@,
            letters_end(s@, end as int) == letters_end(s@, start as int),
        decreases v@.len() - end,
    {
        end += 1;
    }
    if start < end {
        Some((start, end))
    } else {
        None
    }
}

/// The style of the outcome of the checks.
pub open spec fn outcome_style(outcome: Seq<char>, theme: Theme) -> Style {
    let upper: Seq<char> = text::raised_text(text::trimmed(outcome));
    Style::plain().fg(
        if upper == "PASS"@ || upper == "SUCCESS"@ {
            theme.success
        } else if upper == "FAIL"@ || upper == "FAILED"@ {
            theme.error
        } else {
            theme.warning
        },
    ).bold()
}

pub fn verify_outcome_style(outcome: &str, theme: &Theme) -> (r: Style)
    ensures
        r == outcome_style(outcome@, *theme),
{
    let bare: String = text::trim(outcome);
    let upper: String = text::upper_of(bare.as_str());
    let u: &str = upper.as_str();
    Style::plain().fg(
        if text::str_eq(u, "PASS") || text::str_eq(u, "SUCCESS") {
            theme.success
        } else if text::str_eq(u, "FAIL") || text::str_eq(u, "FAILED") {
            theme.error
        } else {
            theme.warning
        },
    ).bold()
}

/// Text without code in colour.
pub open spec fn plain_pieces(s: Seq<char>, base: Style, theme: Theme) -> Seq<Piece> {
    match verify_outcome(s) {
        Some(p) => {
            let outcome: Seq<char> = s.subrange(p.0, p.1);
            word_pieces(s.subrange(0, p.0), base, theme, 0) + seq![
                style::piece(outcome, outcome_style(outcome, theme)),
            ] + word_pieces(s.subrange(p.1, s.len() as int), base, theme, 0)
        },
        None => word_pieces(s, base, theme, 0),
    }
}

pub fn push_agent_plain_text_with_token_highlights(
    spans: &mut Vec<Span>,
    s: &str,
    base: Style,
    theme: &Theme,
)
    ensures
        style::pieces(final(spans)@) == style::pieces(old(spans)@) + plain_pieces(
            s@,
            base,
            *theme,
        ),
{
    broadcast use {style::group_lines, style::group_piece_lists};

    let v: Vec<char> = text::chars_of(s);
    match find_verify_outcome(&v, s) {
        Some(p) => {
            let before: String = text::text_range(&v, 0, p.0);
            let outcome: String = text::text_range(&v, p.0, p.1);
            let after: String = text::text_range(&v, p.1, v.len());
            push_words(spans, before.as_str(), base, theme);
            let look: Style = verify_outcome_style(outcome.as_str(), theme);
            spans.push(style::styled(outcome, look));
            push_words(spans, after.as_str(), base, theme);
        },
        None => push_words(spans, s, base, theme),
    }
}

/// Text with code between backticks in colour.
pub open spec fn ticked_pieces(s: Seq<char>, base: Style, theme: Theme) -> Seq<Piece>
    decreases s.len(),
{
    let tick: Seq<Piece> = seq![style::piece("`"@, Style::plain().fg(theme.border).dim())];
    proof {
        text::char_at_or_after_is_first(s, '`', 0);
    }
    match text::position(s, '`') {
        None => plain_pieces(s, base, theme),
        Some(a) => {
            let before: Seq<Piece> = plain_pieces(text::head(s, a), base, theme);
            let rest: Seq<char> = text::tail(s, a + 1);
            proof {
                text::char_at_or_after_is_first(rest, '`', 0);
            }
            match text::position(rest, '`') {
                None => before + tick + plain_pieces(rest, base, theme),
                Some(b) => {
                    let code: Seq<char> = text::head(rest, b);
                    before + tick + seq![style::piece(code, code_style(code, theme))] + tick
                        + ticked_pieces(text::tail(rest, b + 1), base, theme)
                },
            }
        },
    }
}

/// The text of an agent in colour: a fence of a block of code as it is, else words and code.
pub open spec fn inline_pieces(s: Seq<char>, base: Style, theme: Theme) -> Seq<Piece> {
    if text::starts(text::trimmed_start(s), "```"@) {
        seq![style::piece(s, Style::plain().fg(theme.foreground).dim())]
    } else {
        ticked_pieces(s, base, theme)
    }
}

fn push_ticked(spans: &mut Vec<Span>, s: &str, base: Style, theme: &Theme)
    ensures
        style::pieces(final(spans)@) == style::pieces(old(spans)@) + ticked_pieces(
            s@,
            base,
            *theme,
        ),
    decreases s@.len(),
{
    broadcast use {style::group_lines, style::group_piece_lists};

    let look: Style = Style::plain().fg(theme.border).dim();
    match text::find_char(s, '`') {
        None => push_agent_plain_text_with_token_highlights(spans, s, base, theme),
        Some(a) => {
            let before: String = text::head_of(s, a);
            let rest: String = text::tail_of(s, a + 1);
            push_agent_plain_text_with_token_highlights(spans, before.as_str(), base, theme);
            spans.push(style::span("`", look));
            match text::find_char(rest.as_str(), '`') {
                None => push_agent_plain_text_with_token_highlights(
                    spans,
                    rest.as_str(),
                    base,
                    theme,
                ),
                Some(b) => {
                    let code: String = text::head_of(rest.as_str(), b);
                    let after: String = text::tail_of(rest.as_str(), b + 1);
                    let inner: Style = inline_code_style(code.as_str(), theme);
                    spans.push(style::styled(code, inner));
                    spans.push(style::span("`", look));
                    push_ticked(spans, after.as_str(), base, theme);
                },
            }
        },
    }
}

pub fn push_agent_text_with_inline_highlights(
    spans: &mut Vec<Span>,
    s: &str,
    base: Style,
    theme: &Theme,
)
    ensures
        style::pieces(final(spans)@) == style::pieces(old(spans)@) + inline_pieces(
            s@,
            base,
            *theme,
        ),
{
    broadcast use {style::group_lines, style::group_piece_lists};

    let bare: String = text::trim_start(s);
    if text::starts_with(bare.as_str(), "```") {
        spans.push(style::span(s, Style::plain().fg(theme.foreground).dim()));
    } else {
        push_ticked(spans, s, base, theme);
    }
}

proof fn outcome_is_inside(s: Seq<char>)
    ensures
        verify_outcome(s) matches Some(p) ==> 0 <= p.0 < p.1 <= s.len(),
{
    reveal_strlit("VERIFY result:");
    if let Some(k) = text::find(s, "VERIFY result:"@) {
        found_inside(s, "VERIFY result:"@, 0);
        dark_is_after(s, k + 14);
        letters_are_after(s, dark_from(s, k + 14));
    }
}

/// A text that is found lies inside.
pub proof fn found_inside(s: Seq<char>, p: Seq<char>, i: int)
    requires
        0 <= i,
    ensures
        text::text_at_or_after(s, p, i) matches Some(k) ==> i <= k && k + p.len() <= s.len(),
    decreases s.len() - i,
{
    if i + p.len() <= s.len() && s.subrange(i, i + p.len()) != p && i < s.len() {
        found_inside(s, p, i + 1);
    }
}

proof fn dark_is_after(s: Seq<char>, i: int)
    requires
        0 <= i <= s.len(),
    ensures
        i <= dark_from(s, i) <= s.len(),
    decreases s.len() - i,
{
    if i < s.len() && text::white(s[i]) {
        dark_is_after(s, i + 1);
    }
}

proof fn letters_are_after(s: Seq<char>, i: int)
    requires
        0 <= i <= s.len(),
    ensures
        i <= letters_end(s, i) <= s.len(),
    decreases s.len() - i,
{
    if i < s.len() && text::alpha(s[i]) {
        letters_are_after(s, i + 1);
    }
}

proof fn plain_keeps_text(s: Seq<char>, base: Style, theme: Theme)
    ensures
        style::plain_text(plain_pieces(s, base, theme)) == s,
{
    outcome_is_inside(s);
    match verify_outcome(s) {
        Some(p) => {
            let a: Seq<char> = s.subrange(0, p.0);
            let outcome: Seq<char> = s.subrange(p.0, p.1);
            let c: Seq<char> = s.subrange(p.1, s.len() as int);
            let mid: Piece = style::piece(outcome, outcome_style(outcome, theme));
            words_keep_text_from(a, base, theme, 0);
            words_keep_text_from(c, base, theme, 0);
            style::one_piece_text(mid);
            style::plain_text_add(word_pieces(a, base, theme, 0), seq![mid]);
            style::plain_text_add(
                word_pieces(a, base, theme, 0) + seq![mid],
                word_pieces(c, base, theme, 0),
            );
            assert(a.subrange(0, a.len() as int) =~= a);
            assert(c.subrange(0, c.len() as int) =~= c);
            assert(a + outcome + c =~= s);
        },
        None => {
            words_keep_text_from(s, base, theme, 0);
            assert(s.subrange(0, s.len() as int) =~= s);
        },
    }
}

proof fn text_before_tick(before: Seq<Piece>, tick: Piece)
    ensures
        style::plain_text(before + seq![tick]) == style::plain_text(before) + tick.text,
{
    style::one_piece_text(tick);
    style::plain_text_add(before, seq![tick]);
}

proof fn text_around_code(before: Seq<Piece>, tick: Piece, code: Piece, after: Seq<Piece>)
    ensures
        style::plain_text(before + seq![tick] + seq![code] + seq![tick] + after)
            == style::plain_text(before) + tick.text + code.text + tick.text + style::plain_text(
            after,
        ),
{
    text_before_tick(before, tick);
    text_before_tick(before + seq![tick], code);
    text_before_tick(before + seq![tick] + seq![code], tick);
    style::plain_text_add(before + seq![tick] + seq![code] + seq![tick], after);
}

proof fn ticked_keeps_text(s: Seq<char>, base: Style, theme: Theme)
    ensures
        style::plain_text(ticked_pieces(s, base, theme)) == s,
    decreases s.len(),
{
    reveal_strlit("`");
    text::char_at_or_after_is_first(s, '`', 0);
    let tick: Piece = style::piece("`"@, Style::plain().fg(theme.border).dim());
    match text::position(s, '`') {
        None => {
            plain_keeps_text(s, base, theme);
        },
        Some(a) => {
            let head: Seq<char> = text::head(s, a);
            let rest: Seq<char> = text::tail(s, a + 1);
            let before: Seq<Piece> = plain_pieces(head, base, theme);
            plain_keeps_text(head, base, theme);
            text::char_at_or_after_is_first(rest, '`', 0);
            match text::position(rest, '`') {
                None => {
                    plain_keeps_text(rest, base, theme);
                    text_before_tick(before, tick);
                    style::plain_text_add(before + seq![tick], plain_pieces(rest, base, theme));
                    assert(head + "`"@ + rest =~= s);
                },
                Some(b) => {
                    let code: Seq<char> = text::head(rest, b);
                    let after: Seq<char> = text::tail(rest, b + 1);
                    ticked_keeps_text(after, base, theme);
                    text_around_code(
                        before,
                        tick,
                        style::piece(code, code_style(code, theme)),
                        ticked_pieces(after, base, theme),
                    );
                    ticks_part(s, a, b);
                },
            }
        },
    }
}

proof fn ticks_part(s: Seq<char>, a: int, b: int)
    requires
        0 <= a,
        0 <= b,
        a + 1 + b < s.len(),
        s[a] == '`',
        s[a + 1 + b] == '`',
    ensures
        ({
            let rest: Seq<char> = text::tail(s, a + 1);
            text::head(s, a) + "`"@ + text::head(rest, b) + "`"@ + text::tail(rest, b + 1) == s
        }),
{
    reveal_strlit("`");
    let rest: Seq<char> = text::tail(s, a + 1);
    assert(text::head(s, a) + "`"@ + text::head(rest, b) + "`"@ + text::tail(rest, b + 1) =~= s);
}

/// Colouring the words of a message leaves its text as it is.
pub proof fn highlights_keep_text(s: Seq<char>, base: Style, theme: Theme)
    ensures
        style::plain_text(inline_pieces(s, base, theme)) == s,
{
    if text::starts(text::trimmed_start(s), "```"@) {
        style::one_piece_text(style::piece(s, Style::plain().fg(theme.foreground).dim()));
    } else {
        ticked_keeps_text(s, base, theme);
    }
}

} // verus!
