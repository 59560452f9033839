//! What becomes of the lines of a document.

use vstd::prelude::*;

use crate::artifacts_popup::code;
use crate::artifacts_popup::code::SyntaxTables;
use crate::artifacts_popup::json;
use crate::artifacts_popup::lines;
use crate::artifacts_popup::lines::Fill;
use crate::artifacts_popup::markdown;
use crate::artifacts_popup::markdown::Doc;
use crate::artifacts_popup::markdown::Within;
use crate::artifacts_popup::math;
use crate::artifacts_popup::spans;
use crate::artifacts_popup::tables;
use crate::laws::labels;
use crate::laws::texts;
use crate::style;
use crate::style::Piece;
use crate::style::Style;
use crate::style::Theme;
use crate::text;
use crate::wrap;

verus! {

/// Whether a line, without the white characters around it, starts with three backquotes or three
/// tildes.
pub open spec fn is_fence(line: Seq<char>) -> bool {
    let t: Seq<char> = text::trimmed(line);
    t.len() >= 3 && ((t[0] == '`' && t[1] == '`' && t[2] == '`') || (t[0] == '~' && t[1] == '~'
        && t[2] == '~'))
}

/// Whether a line is a line of code, as it stands or with a carriage return behind it.
pub open spec fn holds(line: Seq<char>, code: Seq<char>) -> bool {
    (line == code || line == code.push('\r')) && (code.len() > 0 ==> code[code.len() - 1] != '\r')
}

proof fn bare_line(line: Seq<char>, code: Seq<char>)
    requires
        holds(line, code),
    ensures
        text::without_trailing(line, '\r') == code,
{
    if line == code.push('\r') {
        assert(line.subrange(0, line.len() - 1) =~= code);
        assert(text::without_trailing(code, '\r') == code);
    }
}

proof fn fences_are_fences(line: Seq<char>)
    ensures
        markdown::fence(text::trimmed(line)) is Some <==> is_fence(line),
        is_fence(line) ==> markdown::fence(text::trimmed(line)) == Some(
            text::trimmed(text::trimmed(line).skip(3)),
        ),
        is_fence(line) ==> !tables::candidate(text::trimmed(line)),
{
    reveal_strlit("```");
    reveal_strlit("~~~");
    reveal_strlit("|");
    let t: Seq<char> = text::trimmed(line);
    if t.len() >= 3 {
        let front: Seq<char> = t.subrange(0, 3);
        assert(front[0] == t[0] && front[1] == t[1] && front[2] == t[2]);
        if t[0] == '`' && t[1] == '`' && t[2] == '`' {
            assert(front =~= "```"@);
        }
        if t[0] == '~' && t[1] == '~' && t[2] == '~' {
            assert(front =~= "~~~"@);
        }
        assert(text::tail(t, 3) =~= t.skip(3));
        assert(t.subrange(0, 1)[0] == t[0]);
    }
}

proof fn code_is_collected(
    all: Seq<Seq<char>>,
    at: int,
    body: Seq<Seq<char>>,
    n: int,
    syn: SyntaxTables,
    theme: Theme,
    width: int,
)
    requires
        0 <= at,
        at + body.len() < all.len(),
        0 <= n <= body.len(),
        markdown::after_lines(all, syn, theme, width, at).within is Text,
        is_fence(all[at]),
        text::without_trailing(all[at], '\r') == all[at],
        forall|i: int| 0 <= i < body.len() ==> holds(#[trigger] all[at + 1 + i], body[i]),
        forall|i: int| 0 <= i < body.len() ==> !is_fence(#[trigger] body[i]),
    ensures
        ({
            let before: Doc = markdown::after_lines(all, syn, theme, width, at);
            markdown::after_lines(all, syn, theme, width, at + 1 + n) == (Doc {
                done: before.done + markdown::pending_table(before, theme, width),
                within: Within::Code {
                    tag: text::trimmed(text::trimmed(all[at]).skip(3)),
                    code: body.take(n),
                },
                table: Seq::empty(),
            })
        }),
    decreases n,
{
    if n <= 0 {
        fences_are_fences(all[at]);
        assert(body.take(0) =~= Seq::<Seq<char>>::empty());
    } else {
        code_is_collected(all, at, body, n - 1, syn, theme, width);
        bare_line(all[at + 1 + (n - 1)], body[n - 1]);
        fences_are_fences(body[n - 1]);
        assert(body.take(n - 1).push(body[n - 1]) =~= body.take(n));
    }
}

/// The lines between two code fences make up one block of code, each as it stands, with the blanks
/// that it starts with and those behind it; only a carriage return at its end is dropped. The block
/// has the tag of the first fence, and a blank line stands below it.
pub proof fn code_between_fences_is_kept(
    all: Seq<Seq<char>>,
    at: int,
    body: Seq<Seq<char>>,
    syn: SyntaxTables,
    theme: Theme,
    width: int,
)
    requires
        0 <= at,
        at + body.len() + 1 < all.len(),
        markdown::after_lines(all, syn, theme, width, at).within is Text,
        is_fence(all[at]),
        text::without_trailing(all[at], '\r') == all[at],
        forall|i: int| 0 <= i < body.len() ==> holds(#[trigger] all[at + 1 + i], body[i]),
        forall|i: int| 0 <= i < body.len() ==> !is_fence(#[trigger] body[i]),
        is_fence(all[at + 1 + body.len()]),
        text::without_trailing(all[at + 1 + body.len()], '\r') == all[at + 1 + body.len()],
    ensures
        ({
            let before: Doc = markdown::after_lines(all, syn, theme, width, at);
            markdown::after_lines(all, syn, theme, width, at + body.len() + 2) == (Doc {
                done: before.done + markdown::pending_table(before, theme, width) + code::fenced(
                    syn,
                    text::trimmed(text::trimmed(all[at]).skip(3)),
                    body,
                    theme,
                    width,
                ) + seq![Seq::<Piece>::empty()],
                within: Within::Text,
                table: Seq::empty(),
            })
        }),
{
    let n: int = body.len() as int;
    code_is_collected(all, at, body, n, syn, theme, width);
    fences_are_fences(all[at + 1 + n]);
    assert(body.take(n) =~= body);
    let open: Doc = markdown::after_lines(all, syn, theme, width, at + 1 + n);
    assert(markdown::after_lines(all, syn, theme, width, at + 2 + n) == markdown::after_line(
        open,
        all[at + 1 + n],
        syn,
        theme,
        width,
    ));
}

/// A document that is one fenced block is drawn as that block: every line between the fences, as it
/// stands.
pub proof fn a_fenced_document_is_its_code(
    s: Seq<char>,
    body: Seq<Seq<char>>,
    syn: SyntaxTables,
    theme: Theme,
    width: int,
)
    requires
        text::lines_of(s).len() == body.len() + 2,
        is_fence(text::lines_of(s)[0]),
        text::without_trailing(text::lines_of(s)[0], '\r') == text::lines_of(s)[0],
        forall|i: int| 0 <= i < body.len() ==> holds(#[trigger] text::lines_of(s)[1 + i], body[i]),
        forall|i: int| 0 <= i < body.len() ==> !is_fence(#[trigger] body[i]),
        is_fence(text::lines_of(s)[body.len() + 1int]),
        text::without_trailing(text::lines_of(s)[body.len() + 1int], '\r') == text::lines_of(s)[body.len() + 1int],
    ensures
        markdown::marked_up(s, syn, theme, width) == code::fenced(
            syn,
            text::trimmed(text::trimmed(text::lines_of(s)[0]).skip(3)),
            body,
            theme,
            width,
        ) + seq![Seq::<Piece>::empty()],
{
    let all: Seq<Seq<char>> = text::lines_of(s);
    assert forall|i: int| 0 <= i < body.len() implies holds(#[trigger] all[0 + 1 + i], body[i]) by {
        assert(holds(all[1 + i], body[i]));
    }
    code_between_fences_is_kept(all, 0, body, syn, theme, width);
    let end: Doc = markdown::after_lines(all, syn, theme, width, all.len() as int);
    let shown: Seq<Seq<Piece>> = code::fenced(
        syn,
        text::trimmed(text::trimmed(all[0]).skip(3)),
        body,
        theme,
        width,
    ) + seq![Seq::<Piece>::empty()];
    assert(end.done =~= shown);
    assert(markdown::finished(end, syn, theme, width) =~= shown);
}

/// Code whose block is not closed is drawn like code whose block is.
pub proof fn an_open_block_is_shown_too(
    s: Seq<char>,
    body: Seq<Seq<char>>,
    syn: SyntaxTables,
    theme: Theme,
    width: int,
)
    requires
        text::lines_of(s).len() == body.len() + 1,
        is_fence(text::lines_of(s)[0]),
        text::without_trailing(text::lines_of(s)[0], '\r') == text::lines_of(s)[0],
        forall|i: int| 0 <= i < body.len() ==> holds(#[trigger] text::lines_of(s)[1 + i], body[i]),
        forall|i: int| 0 <= i < body.len() ==> !is_fence(#[trigger] body[i]),
    ensures
        markdown::marked_up(s, syn, theme, width) == code::fenced(
            syn,
            text::trimmed(text::trimmed(text::lines_of(s)[0]).skip(3)),
            body,
            theme,
            width,
        ),
{
    let all: Seq<Seq<char>> = text::lines_of(s);
    let n: int = body.len() as int;
    assert forall|i: int| 0 <= i < body.len() implies holds(#[trigger] all[0 + 1 + i], body[i]) by {
        assert(holds(all[1 + i], body[i]));
    }
    code_is_collected(all, 0, body, n, syn, theme, width);
    assert(body.take(n) =~= body);
    let end: Doc = markdown::after_lines(all, syn, theme, width, n + 1);
    let tag: Seq<char> = text::trimmed(text::trimmed(all[0]).skip(3));
    let shown: Seq<Seq<Piece>> = code::fenced(syn, tag, body, theme, width);
    assert(shown.len() > 0) by {
        reveal(code::fenced);
    }
    assert(markdown::finished(end, syn, theme, width) =~= shown);
}

proof fn block_rows_hold(
    body: Seq<Seq<char>>,
    block: Option<code::CodeBlock>,
    json: bool,
    theme: Theme,
    width: int,
    gutter_width: int,
    n: int,
    k: int,
) -> (at: int)
    requires
        0 <= k < n <= body.len(),
    ensures
        0 <= at,
        at + code::numbered(
            Some((k + 1) as nat),
            body[k],
            json,
            code::mapped_line(block, k),
            theme,
            width,
            gutter_width,
        ).len() <= code::block_rows(body, block, json, theme, width, gutter_width, n).len(),
        forall|i: int|
            0 <= i < code::numbered(
                Some((k + 1) as nat),
                body[k],
                json,
                code::mapped_line(block, k),
                theme,
                width,
                gutter_width,
            ).len() ==> #[trigger] code::block_rows(
                body,
                block,
                json,
                theme,
                width,
                gutter_width,
                n,
            )[at + i] == code::numbered(
                Some((k + 1) as nat),
                body[k],
                json,
                code::mapped_line(block, k),
                theme,
                width,
                gutter_width,
            )[i],
    decreases n,
{
    let before: Seq<Seq<Piece>> = code::block_rows(
        body,
        block,
        json,
        theme,
        width,
        gutter_width,
        n - 1,
    );
    if k == n - 1 {
        before.len() as int
    } else {
        let at: int = block_rows_hold(body, block, json, theme, width, gutter_width, n - 1, k);
        assert forall|i: int|
            0 <= i < code::numbered(
                Some((k + 1) as nat),
                body[k],
                json,
                code::mapped_line(block, k),
                theme,
                width,
                gutter_width,
            ).len() implies #[trigger] code::block_rows(
            body,
            block,
            json,
            theme,
            width,
            gutter_width,
            n,
        )[at + i] == before[at + i] by {}
        at
    }
}

/// Whether the characters of a text all take their place on a line.
pub open spec fn on_one_line(s: Seq<char>) -> bool {
    forall|i: int| 0 <= i < s.len() ==> #[trigger] s[i] != '\n' && s[i] != '\r' && s[i] != '\t'
}

/// Whether a text holds none of the marks that emphasize, quote or set formulas.
pub open spec fn unmarked(s: Seq<char>) -> bool {
    forall|i: int| 0 <= i < s.len() ==> #[trigger] s[i] != '`' && s[i] != '*' && s[i] != '$'
}

proof fn part_of_whole(lines: Seq<Seq<char>>, i: int)
    requires
        0 <= i < lines.len(),
    ensures
        forall|k: int|
            0 <= k < lines[i].len() ==> text::run_together(lines).contains(#[trigger] lines[i][k]),
    decreases lines.len(),
{
    let whole: Seq<char> = text::run_together(lines);
    let front: Seq<char> = text::run_together(lines.drop_last());
    if i == lines.len() - 1 {
        assert forall|k: int| 0 <= k < lines[i].len() implies whole.contains(
            #[trigger] lines[i][k],
        ) by {
            assert(whole[front.len() + k] == lines[i][k]);
        }
    } else {
        part_of_whole(lines.drop_last(), i);
        assert forall|k: int| 0 <= k < lines[i].len() implies whole.contains(
            #[trigger] lines[i][k],
        ) by {
            let c: char = lines.drop_last()[i][k];
            assert(front.contains(c));
            let j: int = front.index_of(c);
            assert(whole[j] == c);
        }
    }
}

proof fn filled_keeps(fill: Fill, s: Seq<char>, theme: Theme)
    requires
        fill is Marked ==> unmarked(s),
    ensures
        style::plain_text(lines::filled(fill, s, theme)) == s,
{
    match fill {
        Fill::Marked(base) => {
            spans::plain_text_is_shown(s, base, theme);
        },
        Fill::Formula(base) => {
            math::math_keeps_text(s, base, theme);
        },
        Fill::Json(base) => {
            json::json_keeps_text(s, base, theme);
        },
        Fill::Plain(base) => {
            style::one_piece_text(style::piece(s, base));
        },
    }
}

/// A text that is wrapped behind a prefix is shown whole: run together, what stands behind the
/// prefixes is the text. The first row has one prefix, every other row the other one.
pub proof fn prefixed_text_is_shown_whole(
    s: Seq<char>,
    room: int,
    first: Piece,
    other: Piece,
    fill: Fill,
    theme: Theme,
) -> (parts: Seq<Seq<char>>)
    requires
        on_one_line(s),
        fill is Marked ==> unmarked(s),
    ensures
        parts.len() == lines::prefixed(
            wrap::visual_lines(s, room),
            first,
            other,
            fill,
            theme,
        ).len(),
        parts.len() > 0,
        text::run_together(parts) == s,
        forall|i: int|
            #![trigger parts[i]]
            0 <= i < parts.len() ==> style::plain_text(
                lines::prefixed(wrap::visual_lines(s, room), first, other, fill, theme)[i],
            ) == (if i == 0 {
                first.text
            } else {
                other.text
            }) + parts[i],
{
    let parts: Seq<Seq<char>> = wrap::visual_lines(s, room);
    wrap::lines_run_together(s, room);
    assert forall|i: int| #![trigger parts[i]] 0 <= i < parts.len() implies style::plain_text(
        lines::prefixed(parts, first, other, fill, theme)[i],
    ) == (if i == 0 {
        first.text
    } else {
        other.text
    }) + parts[i] by {
        part_of_whole(parts, i);
        if fill is Marked {
            assert forall|k: int| 0 <= k < parts[i].len() implies #[trigger] parts[i][k] != '`'
                && parts[i][k] != '*' && parts[i][k] != '$' by {
                let j: int = s.index_of(parts[i][k]);
                assert(s[j] == parts[i][k]);
            }
        }
        filled_keeps(fill, parts[i], theme);
        let lead: Piece = if i == 0 {
            first
        } else {
            other
        };
        style::one_piece_text(lead);
        style::plain_text_add(seq![lead], lines::filled(fill, parts[i], theme));
    }
    parts
}

proof fn numbered_text_is_shown_whole(
    line_no: Option<nat>,
    s: Seq<char>,
    is_json: bool,
    mapped: Option<Seq<code::StyledRange>>,
    theme: Theme,
    width: int,
    gutter_width: int,
) -> (parts: Seq<Seq<char>>)
    requires
        on_one_line(s),
        mapped is Some || is_json || unmarked(s),
    ensures
        ({
            let all: Seq<Seq<Piece>> = code::numbered(
                line_no,
                s,
                is_json,
                mapped,
                theme,
                width,
                gutter_width,
            );
            &&& parts.len() == all.len()
            &&& parts.len() > 0
            &&& text::run_together(parts) == s
            &&& forall|i: int|
                #![trigger parts[i]]
                0 <= i < parts.len() ==> style::plain_text(all[i]) == code::gutter(
                    if i == 0 && line_no is Some {
                        text::decimal(line_no->0)
                    } else {
                        ""@
                    },
                    gutter_width,
                ) + parts[i]
        }),
{
    let look: Style = Style::plain().fg(theme.border).bg(code::code_bg(theme)).dim();
    let base: Style = Style::plain().fg(theme.foreground).bg(code::code_bg(theme));
    let first: Seq<char> = code::gutter(
        match line_no {
            Some(n) => text::decimal(n),
            None => ""@,
        },
        gutter_width,
    );
    let other: Seq<char> = code::gutter(""@, gutter_width);
    let room: int = lines::room(first, width);
    match mapped {
        Some(ranges) => {
            text::char_at_or_after_is_first(s, '\t', 0);
            code::code_keeps_text(s, ranges, base, room);
            let body: Seq<Seq<Piece>> = code::code_rows(s, ranges, base, room);
            let parts: Seq<Seq<char>> = code::row_texts(body);
            let all: Seq<Seq<Piece>> = code::with_gutter(body, first, other, look);
            assert forall|i: int| #![trigger parts[i]] 0 <= i < parts.len() implies style::plain_text(
                all[i],
            ) == (if i == 0 {
                first
            } else {
                other
            }) + parts[i] by {
                let lead: Piece = style::piece(
                    if i == 0 {
                        first
                    } else {
                        other
                    },
                    look,
                );
                style::one_piece_text(lead);
                style::plain_text_add(seq![lead], body[i]);
            }
            parts
        },
        None => {
            let fill: Fill = if is_json {
                Fill::Json(base)
            } else {
                Fill::Marked(base)
            };
            prefixed_text_is_shown_whole(
                s,
                room,
                style::piece(first, look),
                style::piece(other, look),
                fill,
                theme,
            )
        },
    }
}

/// A block of code shows each of its lines whole and in its order: the line `k` starts a row behind
/// its number and a bar, and what follows the bars on its rows, run together, is the line itself.
pub proof fn code_is_shown_whole(
    syn: SyntaxTables,
    tag: Seq<char>,
    body: Seq<Seq<char>>,
    theme: Theme,
    width: int,
    k: int,
) -> (shown: (int, Seq<Seq<char>>))
    requires
        0 <= k < body.len(),
        !code::lay_out(syn, body, tag),
        on_one_line(body[k]),
        unmarked(body[k]),
    ensures
        ({
            let all: Seq<Seq<Piece>> = code::fenced(syn, tag, body, theme, width);
            let digits: int = text::decimal(body.len()).len() as int;
            let (at, parts) = shown;
            &&& 0 < at
            &&& at + parts.len() <= all.len()
            &&& parts.len() > 0
            &&& text::run_together(parts) == body[k]
            &&& style::plain_text(all[at]) == " "@ + text::fill(
                ' ',
                text::monus(digits, text::decimal((k + 1) as nat).len() as int) as nat,
            ) + text::decimal((k + 1) as nat) + " │ "@ + parts[0]
            &&& forall|i: int|
                #![trigger parts[i]]
                0 < i < parts.len() ==> style::plain_text(all[at + i]) == " "@ + text::fill(
                    ' ',
                    digits as nat,
                ) + " │ "@ + parts[i]
        }),
{
    reveal(code::fenced);
    reveal_strlit("");
    let lang: Seq<char> = code::canonical(syn, tag);
    let block: Option<code::CodeBlock> = code::analysed(
        syn,
        lang,
        text::joined(body, seq!['\n']),
    );
    let n: int = body.len() as int;
    let digits: int = text::decimal(body.len()).len() as int;
    let is_json: bool = code::is_json(syn, lang);
    let mapped: Option<Seq<code::StyledRange>> = code::mapped_line(block, k);
    let at: int = block_rows_hold(body, block, is_json, theme, width, digits, n, k);
    let parts: Seq<Seq<char>> = numbered_text_is_shown_whole(
        Some((k + 1) as nat),
        body[k],
        is_json,
        mapped,
        theme,
        width,
        digits,
    );
    let rows: Seq<Seq<Piece>> = code::block_rows(body, block, is_json, theme, width, digits, n);
    let own: Seq<Seq<Piece>> = code::numbered(
        Some((k + 1) as nat),
        body[k],
        is_json,
        mapped,
        theme,
        width,
        digits,
    );
    let all: Seq<Seq<Piece>> = code::fenced(syn, tag, body, theme, width);
    assert forall|i: int| 0 <= i < own.len() implies all[at + 1 + i] == own[i] by {
        assert(rows[at + i] == own[i]);
        assert(all[at + i + 1] == rows[at + i]);
    }
    assert(all[at + 1 + 0] == own[0]);
    assert(parts[0] == parts[0]);
    assert forall|i: int| #![trigger parts[i]] 0 < i < parts.len() implies style::plain_text(
        all[at + 1 + i],
    ) == " "@ + text::fill(' ', digits as nat) + " │ "@ + parts[i] by {
        assert(all[at + 1 + i] == own[i]);
        assert(" "@ + text::fill(' ', digits as nat) + ""@ + " │ "@ =~= " "@ + text::fill(
            ' ',
            digits as nat,
        ) + " │ "@);
    }
    (at + 1, parts)
}

/// Whether rows show a text whole: run together, what stands behind their prefixes is the text. The
/// first row has one prefix, every other row the other one.
pub open spec fn shown_behind(
    all: Seq<Seq<Piece>>,
    first: Seq<char>,
    other: Seq<char>,
    s: Seq<char>,
) -> bool {
    exists|parts: Seq<Seq<char>>| #[trigger]
        text::run_together(parts) == s && parts.len() == all.len() && parts.len() > 0 && forall|
            i: int,
        |
            #![trigger parts[i]]
            0 <= i < parts.len() ==> style::plain_text(all[i]) == (if i == 0 {
                first
            } else {
                other
            }) + parts[i]
}

proof fn prefixed_shows(
    s: Seq<char>,
    room: int,
    first: Piece,
    other: Piece,
    fill: Fill,
    theme: Theme,
)
    requires
        on_one_line(s),
        fill is Marked ==> unmarked(s),
    ensures
        shown_behind(
            lines::prefixed(wrap::visual_lines(s, room), first, other, fill, theme),
            first.text,
            other.text,
            s,
        ),
{
    let parts: Seq<Seq<char>> = prefixed_text_is_shown_whole(s, room, first, other, fill, theme);
    assert(text::run_together(parts) == s);
}

/// Whether the document is not in a block or a table.
pub open spec fn in_text(d: Doc) -> bool {
    d.within is Text && d.table.len() == 0
}

proof fn text_lines_are_drawn(
    d: Doc,
    raw: Seq<char>,
    syn: SyntaxTables,
    theme: Theme,
    width: int,
)
    requires
        in_text(d),
        labels::bare(raw),
        raw[raw.len() - 1] != '\r',
        raw[0] != '|' && raw[0] != '`' && raw[0] != '~' && raw[0] != '$' && raw[0] != '\\',
    ensures
        markdown::after_line(d, raw, syn, theme, width) == (Doc {
            done: d.done + markdown::text_line(raw, theme, width),
            within: Within::Text,
            table: Seq::empty(),
        }),
{
    reveal_strlit("|");
    reveal_strlit("$$");
    reveal_strlit("\\[");
    assert(text::without_trailing(raw, '\r') == raw);
    texts::nothing_else_is_trimmed(raw);
    fences_are_fences(raw);
    assert(raw.subrange(0, 1)[0] == raw[0]);
    assert(!tables::candidate(raw));
    assert("$$"@[0] == '$');
    assert("\\["@[0] == '\\');
    assert(markdown::formula_end(raw) is None);
    assert(d.done + Seq::<Seq<Piece>>::empty() =~= d.done);
}

proof fn no_formula(s: Seq<char>)
    requires
        labels::bare(s),
        s[0] != '$' && s[0] != '\\',
    ensures
        markdown::line_formula(s) is None,
{
    reveal_strlit("$$");
    reveal_strlit("\\[");
    texts::nothing_else_is_trimmed(s);
    if s.len() > 4 {
        assert(s.subrange(0, 2)[0] == s[0]);
        assert("$$"@[0] == '$');
        assert("\\["@[0] == '\\');
    }
}

proof fn hashes_lead(s: Seq<char>, n: int, i: int)
    requires
        0 <= i <= n < s.len(),
        forall|k: int| 0 <= k < n ==> #[trigger] s[k] == '#',
        s[n] != '#',
    ensures
        markdown::leading(s, '#', i) == n,
    decreases n - i,
{
    if i < n {
        hashes_lead(s, n, i + 1);
    }
}

/// A line that starts with hashes is a heading of as many levels: its text is shown whole, without
/// the hashes, behind the mark of its level and in bold.
pub proof fn headings_are_shown_whole(
    d: Doc,
    level: nat,
    s: Seq<char>,
    syn: SyntaxTables,
    theme: Theme,
    width: int,
) -> (all: Seq<Seq<Piece>>)
    requires
        in_text(d),
        level >= 1,
        labels::bare(s),
        on_one_line(s),
    ensures
        ({
            let after: Doc = markdown::after_line(
                d,
                text::fill('#', level) + seq![' '] + s,
                syn,
                theme,
                width,
            );
            let mark: Seq<char> = if level == 1 {
                " § "@
            } else if level == 2 {
                " • "@
            } else {
                " · "@
            };
            &&& in_text(after)
            &&& after.done == d.done + all
            &&& shown_behind(all, mark, lines::indent(mark), s)
        }),
{
    reveal(markdown::text_line);
    let raw: Seq<char> = text::fill('#', level) + seq![' '] + s;
    let n: int = level as int;
    assert(raw[0] == '#');
    assert(raw[raw.len() - 1] == s[s.len() - 1]);
    assert(raw[n] == ' ');
    text_lines_are_drawn(d, raw, syn, theme, width);
    no_formula(raw);
    texts::nothing_else_is_trimmed(raw);
    assert(!markdown::thematic(raw)) by {
        assert(raw[0] == '#');
    }
    hashes_lead(raw, n, 0);
    let behind: Seq<char> = text::tail(raw, n);
    assert(behind =~= seq![' '] + s);
    assert(behind.subrange(1, behind.len() as int) =~= s);
    assert(text::trimmed_start(s) == s);
    assert(text::trimmed_start(behind) == s);
    texts::nothing_else_is_trimmed(s);
    let mark: Seq<char> = markdown::heading_mark(n);
    let look: Style = markdown::heading_style(n, theme);
    prefixed_shows(
        s,
        lines::room(mark, width),
        style::piece(mark, look),
        style::piece(lines::indent(mark), look),
        Fill::Plain(look),
        theme,
    );
    markdown::heading_rows(n, s, theme, width)
}

/// A line that starts with a letter is a paragraph and is shown whole.
pub proof fn paragraphs_are_shown_whole(
    d: Doc,
    s: Seq<char>,
    syn: SyntaxTables,
    theme: Theme,
    width: int,
) -> (all: Seq<Seq<Piece>>)
    requires
        in_text(d),
        labels::bare(s),
        text::alpha(s[0]),
        on_one_line(s),
        unmarked(s),
    ensures
        ({
            let after: Doc = markdown::after_line(d, s, syn, theme, width);
            &&& in_text(after)
            &&& after.done == d.done + all
            &&& shown_behind(all, " "@, " "@, s)
        }),
{
    reveal(markdown::text_line);
    reveal_strlit("**");
    reveal_strlit(">");
    reveal_strlit("- ");
    reveal_strlit("* ");
    reveal_strlit("+ ");
    text_lines_are_drawn(d, s, syn, theme, width);
    no_formula(s);
    texts::nothing_else_is_trimmed(s);
    assert(!markdown::thematic(s));
    assert(markdown::leading(s, '#', 0) == 0);
    if s.len() >= 2 {
        assert(s.subrange(0, 2)[0] == s[0]);
    }
    assert(s.subrange(0, 1)[0] == s[0]);
    assert("**"@[0] == '*');
    assert(">"@[0] == '>');
    assert("- "@[0] == '-');
    assert("* "@[0] == '*');
    assert("+ "@[0] == '+');
    assert(markdown::digits_end(s, 0) == 0);
    let space: Piece = style::piece(" "@, Style::plain());
    prefixed_shows(
        s,
        lines::room(" "@, width),
        space,
        space,
        Fill::Marked(Style::plain().fg(theme.foreground)),
        theme,
    );
    markdown::paragraph_rows(s, theme, width)
}

/// A line behind a greater-than sign is a quotation and is shown whole, behind bars.
pub proof fn quotations_are_shown_whole(
    d: Doc,
    s: Seq<char>,
    syn: SyntaxTables,
    theme: Theme,
    width: int,
) -> (all: Seq<Seq<Piece>>)
    requires
        in_text(d),
        labels::bare(s),
        on_one_line(s),
        unmarked(s),
    ensures
        ({
            let after: Doc = markdown::after_line(d, seq!['>', ' '] + s, syn, theme, width);
            &&& in_text(after)
            &&& after.done == d.done + all
            &&& shown_behind(all, " │ "@, " │ "@, s)
        }),
{
    reveal(markdown::text_line);
    reveal_strlit("**");
    reveal_strlit(">");
    let raw: Seq<char> = seq!['>', ' '] + s;
    assert(raw[0] == '>');
    assert(raw[raw.len() - 1] == s[s.len() - 1]);
    text_lines_are_drawn(d, raw, syn, theme, width);
    no_formula(raw);
    texts::nothing_else_is_trimmed(raw);
    assert(!markdown::thematic(raw)) by {
        assert(raw[0] == '>');
    }
    assert(markdown::leading(raw, '#', 0) == 0);
    assert(raw.subrange(0, 2)[0] == raw[0]);
    assert("**"@[0] == '*');
    assert(raw.subrange(0, 1) =~= ">"@);
    let behind: Seq<char> = text::tail(raw, 1);
    assert(behind =~= seq![' '] + s);
    assert(behind.subrange(1, behind.len() as int) =~= s);
    assert(text::trimmed_start(s) == s);
    assert(text::trimmed_start(behind) == s);
    let bar: Piece = style::piece(" │ "@, Style::plain().fg(theme.border));
    prefixed_shows(
        s,
        lines::room(" │ "@, width),
        bar,
        bar,
        Fill::Marked(Style::plain().fg(theme.border_focused).italic()),
        theme,
    );
    markdown::quote_rows(s, theme, width)
}

/// A line behind a dash, a star or a plus sign is an item of a list: it is shown whole, behind its
/// own sign.
pub proof fn items_are_shown_whole(
    d: Doc,
    sign: char,
    s: Seq<char>,
    syn: SyntaxTables,
    theme: Theme,
    width: int,
) -> (all: Seq<Seq<Piece>>)
    requires
        in_text(d),
        sign == '-' || sign == '*' || sign == '+',
        labels::bare(s),
        text::alpha(s[0]),
        on_one_line(s),
        unmarked(s),
    ensures
        ({
            let after: Doc = markdown::after_line(d, seq![sign, ' '] + s, syn, theme, width);
            let mark: Seq<char> = seq![' ', sign, ' '];
            &&& in_text(after)
            &&& after.done == d.done + all
            &&& shown_behind(all, mark, lines::indent(mark), s)
        }),
{
    reveal(markdown::text_line);
    reveal(lines::item);
    reveal_strlit("**");
    reveal_strlit(">");
    reveal_strlit("- ");
    reveal_strlit("* ");
    reveal_strlit("+ ");
    reveal_strlit("-");
    reveal_strlit("*");
    reveal_strlit("+");
    reveal_strlit(" ");
    let raw: Seq<char> = seq![sign, ' '] + s;
    assert(raw[0] == sign && raw[1] == ' ' && raw[2] == s[0]);
    assert(raw[raw.len() - 1] == s[s.len() - 1]);
    text_lines_are_drawn(d, raw, syn, theme, width);
    no_formula(raw);
    texts::nothing_else_is_trimmed(raw);
    assert(!markdown::thematic(raw)) by {
        assert(raw[1] == ' ');
    }
    assert(markdown::leading(raw, '#', 0) == 0);
    let front: Seq<char> = raw.subrange(0, 2);
    assert(front[0] == sign && front[1] == ' ');
    assert("**"@[1] == '*');
    assert(raw.subrange(0, 1)[0] == sign);
    assert(">"@[0] == '>');
    if sign == '-' {
        assert(front =~= "- "@);
    } else if sign == '*' {
        assert(front =~= "* "@);
        assert("- "@[0] == '-');
    } else {
        assert(front =~= "+ "@);
        assert("- "@[0] == '-');
        assert("* "@[0] == '*');
    }
    let behind: Seq<char> = text::tail(raw, 2);
    assert(behind =~= s);
    assert(text::trimmed_start(s) == s);
    let mark: Seq<char> = seq![' ', sign, ' '];
    let own: Seq<char> = if sign == '-' {
        "-"@
    } else if sign == '*' {
        "*"@
    } else {
        "+"@
    };
    assert(" "@ + own + " "@ =~= mark);
    prefixed_shows(
        s,
        lines::room(mark, width),
        style::piece(mark, Style::plain().fg(theme.accent).bold()),
        style::piece(lines::indent(mark), Style::plain()),
        Fill::Marked(Style::plain().fg(theme.foreground)),
        theme,
    );
    lines::item(mark, s, theme, width)
}

/// A blank line is a blank row.
pub proof fn blank_lines_stay_blank(d: Doc, syn: SyntaxTables, theme: Theme, width: int)
    requires
        in_text(d),
    ensures
        markdown::after_line(d, Seq::empty(), syn, theme, width).done == d.done + seq![
            Seq::<Piece>::empty(),
        ],
{
    reveal(markdown::text_line);
    reveal_strlit("```");
    reveal_strlit("~~~");
    reveal_strlit("|");
    reveal_strlit("$$");
    reveal_strlit("\\[");
    let none: Seq<char> = Seq::empty();
    assert(text::without_trailing(none, '\r') == none);
    assert(text::trimmed(none) == none);
    assert(d.done + Seq::<Seq<Piece>>::empty() =~= d.done);
}

proof fn formulas_are_collected(
    all: Seq<Seq<char>>,
    at: int,
    body: Seq<Seq<char>>,
    n: int,
    syn: SyntaxTables,
    theme: Theme,
    width: int,
)
    requires
        0 <= at,
        at + body.len() < all.len(),
        0 <= n <= body.len(),
        markdown::after_lines(all, syn, theme, width, at).within is Text,
        all[at] == "$$"@,
        forall|i: int| 0 <= i < body.len() ==> holds(#[trigger] all[at + 1 + i], body[i]),
        forall|i: int| 0 <= i < body.len() ==> text::trimmed(#[trigger] body[i]) != "$$"@,
    ensures
        ({
            let before: Doc = markdown::after_lines(all, syn, theme, width, at);
            markdown::after_lines(all, syn, theme, width, at + 1 + n) == (Doc {
                done: before.done + markdown::pending_table(before, theme, width),
                within: Within::Math { end: "$$"@, math: body.take(n) },
                table: Seq::empty(),
            })
        }),
    decreases n,
{
    if n <= 0 {
        reveal_strlit("$$");
        reveal_strlit("|");
        reveal_strlit("```");
        reveal_strlit("~~~");
        let line: Seq<char> = "$$"@;
        assert(line[0] == '$' && line[1] == '$');
        assert(text::without_trailing(line, '\r') == line);
        texts::nothing_else_is_trimmed(line);
        assert(line.subrange(0, 1)[0] == '$');
        assert(!tables::candidate(line));
        assert(body.take(0) =~= Seq::<Seq<char>>::empty());
    } else {
        formulas_are_collected(all, at, body, n - 1, syn, theme, width);
        bare_line(all[at + 1 + (n - 1)], body[n - 1]);
        assert(body.take(n - 1).push(body[n - 1]) =~= body.take(n));
    }
}

/// The lines between two lines of two dollars make up one formula, with a blank line below it.
pub proof fn formulas_are_kept(
    all: Seq<Seq<char>>,
    at: int,
    body: Seq<Seq<char>>,
    syn: SyntaxTables,
    theme: Theme,
    width: int,
)
    requires
        0 <= at,
        at + body.len() + 1 < all.len(),
        markdown::after_lines(all, syn, theme, width, at).within is Text,
        all[at] == "$$"@,
        forall|i: int| 0 <= i < body.len() ==> holds(#[trigger] all[at + 1 + i], body[i]),
        forall|i: int| 0 <= i < body.len() ==> text::trimmed(#[trigger] body[i]) != "$$"@,
        all[at + 1 + body.len()] == "$$"@,
    ensures
        ({
            let before: Doc = markdown::after_lines(all, syn, theme, width, at);
            markdown::after_lines(all, syn, theme, width, at + body.len() + 2) == (Doc {
                done: before.done + markdown::pending_table(before, theme, width)
                    + markdown::formula(body, theme, width) + seq![Seq::<Piece>::empty()],
                within: Within::Text,
                table: Seq::empty(),
            })
        }),
{
    reveal_strlit("$$");
    let n: int = body.len() as int;
    formulas_are_collected(all, at, body, n, syn, theme, width);
    assert(body.take(n) =~= body);
    let line: Seq<char> = "$$"@;
    assert(line[0] == '$' && line[1] == '$');
    assert(text::without_trailing(line, '\r') == line);
    texts::nothing_else_is_trimmed(line);
    let open: Doc = markdown::after_lines(all, syn, theme, width, at + 1 + n);
    assert(markdown::after_lines(all, syn, theme, width, at + 2 + n) == markdown::after_line(
        open,
        all[at + 1 + n],
        syn,
        theme,
        width,
    ));
}

} // verus!
