//! How rows, tabs and areas are drawn.

use vstd::prelude::*;

use crate::agent_console_view::console;
use crate::agent_console_view::highlights;
use crate::agent_console_view::rows::Row;
use crate::agent_console_view::stages;
use crate::agent_console_view::thread_lines;
use crate::agent_console_view::turns;
use crate::agent_console_view::words;
use crate::agent_ops_view::tabs;
use crate::artifacts_popup::content;
use crate::geometry;
use crate::geometry::Rect;
use crate::laws::texts;
use crate::state::AgentLane;
use crate::state::AgentOpsTab;
use crate::state::AppState;
use crate::style;
use crate::style::Piece;
use crate::style::Style;
use crate::style::Theme;
use crate::text;

verus! {

proof fn pieces_beside(a: Seq<Piece>, b: Seq<Piece>, c: Seq<Piece>)
    ensures
        style::plain_text(a + b + c) == style::plain_text(a) + style::plain_text(b)
            + style::plain_text(c),
{
    style::plain_text_add(a + b, c);
    style::plain_text_add(a, b);
}

proof fn if_any_text(s: Seq<char>, look: Style)
    ensures
        style::plain_text(style::if_any(s, look)) == s,
{
    if s.len() > 0 {
        style::one_piece_text(style::piece(s, look));
    } else {
        assert(s =~= Seq::<char>::empty());
    }
}

proof fn spaces_text(n: int, look: Style)
    requires
        n >= 0,
    ensures
        style::plain_text(thread_lines::spaces(n, look)) == text::fill(' ', n as nat),
{
    if n > 0 {
        style::one_piece_text(style::piece(text::fill(' ', n as nat), look));
    } else {
        assert(text::fill(' ', 0) =~= Seq::<char>::empty());
    }
}

proof fn leading_spaces(s: Seq<char>)
    ensures
        text::without_leading(s, ' ').len() <= s.len(),
        s == text::fill(' ', (s.len() - text::without_leading(s, ' ').len()) as nat)
            + text::without_leading(s, ' '),
    decreases s.len(),
{
    let rest: Seq<char> = text::without_leading(s, ' ');
    if s.len() > 0 && s[0] == ' ' {
        let t: Seq<char> = s.subrange(1, s.len() as int);
        leading_spaces(t);
        assert(s =~= seq![' '] + t);
        assert(s =~= text::fill(' ', (s.len() - rest.len()) as nat) + rest);
    } else {
        assert(s =~= text::fill(' ', 0) + s);
    }
}

/// A link is drawn with all of its text, and the word for the artifacts stands out in it.
pub proof fn links_keep_their_text(s: Seq<char>, theme: Theme)
    ensures
        style::plain_text(thread_lines::link_pieces(s, theme)) == s,
{
    reveal_strlit("ARTIFACTS");
    let body: Seq<char> = text::without_leading(s, ' ');
    let look: Style = Style::plain().fg(theme.foreground).bg(thread_lines::prompt_bg(theme)).bold();
    leading_spaces(s);
    let lead: Seq<Piece> = thread_lines::spaces(thread_lines::lead(s), look);
    spaces_text(thread_lines::lead(s), look);
    texts::texts_are_found_where_they_stand_first(body, "ARTIFACTS"@);
    match text::find(body, "ARTIFACTS"@) {
        Some(k) => {
            let mark: Piece = style::piece(
                "ARTIFACTS"@,
                Style::plain().fg(theme.background).bg(theme.title_focused).bold(),
            );
            let a: Seq<Piece> = style::if_any(body.subrange(0, k), look);
            let c: Seq<Piece> = style::if_any(body.subrange(k + 9, body.len() as int), look);
            pieces_beside(a, seq![mark], c);
            if_any_text(body.subrange(0, k), look);
            if_any_text(body.subrange(k + 9, body.len() as int), look);
            style::one_piece_text(mark);
            assert(body.subrange(0, k) + "ARTIFACTS"@ + body.subrange(k + 9, body.len() as int)
                =~= body);
            style::plain_text_add(lead, a + seq![mark] + c);
        },
        None => {
            style::one_piece_text(style::piece(body, look));
            style::plain_text_add(lead, seq![style::piece(body, look)]);
        },
    }
}

/// What an agent said is drawn with all of its text.
pub proof fn answers_keep_their_text(s: Seq<char>, theme: Theme)
    requires
        s.len() > 0 ==> s.last() != ' ',
    ensures
        style::plain_text(thread_lines::agent_pieces(s, theme)) == s,
{
    let base: Style = Style::plain().fg(theme.title);
    let body: Seq<char> = text::without_leading(s, ' ');
    leading_spaces(s);
    spaces_text(thread_lines::lead(s), base);
    let lead: Seq<Piece> = thread_lines::spaces(thread_lines::lead(s), base);
    let (first, rest) = thread_lines::first_word(body);
    text::char_at_or_after_is_first(body, ' ', 0);
    reveal_with_fuel(text::split_few, 3);
    reveal_strlit(" ");
    let head: Piece = style::piece(
        first,
        if words::ecg(first) {
            Style::plain().fg(theme.accent).bold()
        } else {
            Style::plain().fg(theme.warning).bold()
        },
    );
    style::one_piece_text(head);
    if rest.len() == 0 {
        if text::position(body, ' ') is Some {
            assert(body.last() == ' ');
            assert(s.last() == body.last());
        }
        assert(first == body);
        assert(seq![head] + Seq::<Piece>::empty() =~= seq![head]);
    } else {
        assert(first + (" "@ + rest) =~= body);
    }
    badges_keep_text(" "@ + rest, theme);
    highlights::highlights_keep_text(" "@ + rest, base, theme);
    highlights::highlights_keep_text(body, base, theme);
    style::plain_text_add(seq![head], thread_lines::badged(" "@ + rest, theme));
    style::plain_text_add(seq![head], highlights::inline_pieces(" "@ + rest, base, theme));
    if words::ecg(first) || (first.len() > 0 && first[0] == '[' && first.last() == ']') {
        let told: Seq<Piece> = seq![head] + (if rest.len() == 0 {
            Seq::empty()
        } else if words::ecg(first) {
            thread_lines::badged(" "@ + rest, theme)
        } else {
            highlights::inline_pieces(" "@ + rest, base, theme)
        });
        assert(thread_lines::agent_pieces(s, theme) =~= lead + told);
        style::plain_text_add(lead, told);
    } else {
        style::plain_text_add(lead, highlights::inline_pieces(body, base, theme));
    }
}

proof fn badges_keep_text(s: Seq<char>, theme: Theme)
    ensures
        style::plain_text(thread_lines::badged(s, theme)) == s,
{
    let base: Style = Style::plain().fg(theme.title);
    text::char_at_or_after_is_first(s, '[', 0);
    match thread_lines::brackets(s) {
        Some(p) => {
            let inner: Seq<char> = text::tail(s, text::position(s, '[')->0);
            text::char_at_or_after_is_first(inner, ']', 0);
            let mark: Piece = style::piece(
                s.subrange(p.0, p.1),
                Style::plain().fg(theme.warning).bold(),
            );
            let a: Seq<Piece> = highlights::inline_pieces(s.subrange(0, p.0), base, theme);
            let c: Seq<Piece> = highlights::inline_pieces(
                s.subrange(p.1, s.len() as int),
                base,
                theme,
            );
            highlights::highlights_keep_text(s.subrange(0, p.0), base, theme);
            highlights::highlights_keep_text(s.subrange(p.1, s.len() as int), base, theme);
            style::one_piece_text(mark);
            pieces_beside(a, seq![mark], c);
            assert(s.subrange(0, p.0) + s.subrange(p.0, p.1) + s.subrange(p.1, s.len() as int)
                =~= s);
        },
        None => {
            highlights::highlights_keep_text(s, base, theme);
        },
    }
}

/// The rows of tables are drawn with all of their text.
pub proof fn table_rows_keep_their_text(row: Row, theme: Theme)
    requires
        row.kind is StatusHeader || row.kind is StatusRow,
    ensures
        style::plain_text(thread_lines::row_pieces(row, theme)) == row.text,
{
    let pieces: Seq<Piece> = thread_lines::row_pieces(row, theme);
    assert(pieces =~= seq![pieces[0]]);
    style::one_piece_text(pieces[0]);
}

/// What the user said is drawn with all of its text.
pub proof fn prompts_keep_their_text(s: Seq<char>, theme: Theme)
    requires
        text::trimmed(s) != "You"@,
    ensures
        style::plain_text(thread_lines::prompt_pieces(s, theme)) == s,
{
    let pieces: Seq<Piece> = thread_lines::prompt_pieces(s, theme);
    assert(pieces =~= seq![pieces[0]]);
    style::one_piece_text(pieces[0]);
    if s.len() == 0 {
        assert(s =~= Seq::<char>::empty());
    }
}

/// The transcript is drawn from where it is scrolled to, row by row.
pub proof fn the_transcript_is_drawn_row_by_row(
    all: Seq<Row>,
    from: int,
    count: int,
    theme: Theme,
    i: int,
)
    requires
        0 <= i < count,
    ensures
        thread_lines::lines(all, from, count, theme).len() == count,
        thread_lines::lines(all, from, count, theme)[i] == thread_lines::row_pieces(
            all[from + i],
            theme,
        ),
{
}

/// An outcome is green where the gates passed and red where they failed, in capitals or not.
pub proof fn outcomes_have_their_color(s: Seq<char>, theme: Theme)
    requires
        s.len() == 4,
    ensures
        (s[0] == 'P' || s[0] == 'p') && (s[1] == 'A' || s[1] == 'a') && (s[2] == 'S' || s[2] == 's')
            && (s[3] == 'S' || s[3] == 's') ==> highlights::outcome_style(s, theme).fg == Some(
            theme.success,
        ),
        (s[0] == 'F' || s[0] == 'f') && (s[1] == 'A' || s[1] == 'a') && (s[2] == 'I' || s[2] == 'i')
            && (s[3] == 'L' || s[3] == 'l') ==> highlights::outcome_style(s, theme).fg == Some(
            theme.error,
        ),
        s[0] == 'S' || s[0] == 's' ==> highlights::outcome_style(s, theme).fg == Some(
            theme.warning,
        ) || text::white(s[3]),
{
    reveal_strlit("PASS");
    reveal_strlit("FAIL");
    reveal_strlit("FAILED");
    reveal_strlit("SUCCESS");
    if !text::white(s[0]) && !text::white(s[3]) {
        texts::nothing_else_is_trimmed(s);
        let raised: Seq<char> = text::raised_text(s);
        assert(raised.len() == 4);
        assert(raised == "PASS"@ ==> raised[0] == 'P');
        assert(raised == "FAIL"@ ==> raised[0] == 'F');
        if (s[0] == 'P' || s[0] == 'p') && (s[1] == 'A' || s[1] == 'a') && (s[2] == 'S' || s[2]
            == 's') && (s[3] == 'S' || s[3] == 's') {
            assert(raised =~= "PASS"@);
        }
        if (s[0] == 'F' || s[0] == 'f') && (s[1] == 'A' || s[1] == 'a') && (s[2] == 'I' || s[2]
            == 'i') && (s[3] == 'L' || s[3] == 'l') {
            assert(raised =~= "FAIL"@);
        }
    }
}

/// An agent of a backend that counts its context has all of it left until it says otherwise; no
/// other agent has a count.
pub proof fn unused_context_is_all_there(st: AppState, id: Seq<char>, mission: Option<Seq<char>>)
    ensures
        turns::lane(st, id) is None ==> console::context_pct(st, id, mission) is None,
        turns::lane(st, id) is Some && !(turns::lane(st, id)->0.kind is Codex) && !(turns::lane(
            st,
            id,
        )->0.kind is Claude) ==> console::context_pct(st, id, mission) is None
            && console::context_used(st, id, mission) is None,
        turns::lane(st, id) is Some && turns::lane(st, id)->0.kind is Codex && stages::left_pct(
            st,
            false,
            id,
            mission,
        ) is None ==> console::context_pct(st, id, mission) == Some(100u32),
        turns::lane(st, id) is Some && turns::lane(st, id)->0.kind is Codex && stages::left_pct(
            st,
            false,
            id,
            mission,
        ) is Some ==> console::context_pct(st, id, mission) == stages::left_pct(
            st,
            false,
            id,
            mission,
        ),
        turns::lane(st, id) is Some && turns::lane(st, id)->0.kind is Claude && stages::left_pct(
            st,
            true,
            id,
            mission,
        ) is Some ==> console::context_pct(st, id, mission) == stages::left_pct(
            st,
            true,
            id,
            mission,
        ),
{
}

/// The turn that an agent is working on does not wait any more.
pub proof fn a_running_turn_does_not_wait(st: AppState, id: Seq<char>, agent: AgentLane)
    requires
        turns::lane(st, id) == Some(agent),
    ensures
        !turns::active(st, agent.id@) ==> console::waiting(st, Some(id)) == agent.queue_len,
        turns::active(st, agent.id@) && agent.queue_len > 0 ==> console::waiting(st, Some(id))
            == agent.queue_len - 1,
        agent.queue_len == 0 ==> console::waiting(st, Some(id)) == 0,
        console::waiting(st, None) == 0,
{
}

/// What waits is told where something does, by its number where it is more than one.
pub proof fn waiting_turns_are_told(count: int, theme: Theme)
    ensures
        count <= 0 ==> console::queued_pieces(count, theme).len() == 0,
        count == 1 ==> console::queued_pieces(count, theme).len() == 2 && console::queued_pieces(
            count,
            theme,
        )[1].text == " Queued "@,
        count > 1 ==> console::queued_pieces(count, theme).len() == 2 && console::queued_pieces(
            count,
            theme,
        )[1].text == " Queued "@ + text::decimal(count as nat) + " "@,
{
}

/// A console that follows its end shows the last rows.
pub proof fn followed_consoles_show_their_end(total: int, height: int, wanted: int)
    requires
        0 <= wanted,
        0 <= height <= total,
    ensures
        console::scroll(console::CONSOLE_SCROLL_BOTTOM as int, total, height) == total - height,
        wanted != console::CONSOLE_SCROLL_BOTTOM && wanted <= total - height ==> console::scroll(
            wanted,
            total,
            height,
        ) == wanted,
        0 <= console::scroll(wanted, total, height) <= total - height,
{
}

/// The inside of a frame is one cell smaller on every side.
pub proof fn frames_take_one_cell_on_every_side(area: Rect)
    requires
        area.width >= 2,
        area.height >= 2,
        area.x + area.width <= u16::MAX,
        area.y + area.height <= u16::MAX,
    ensures
        geometry::inside(area).x == area.x + 1,
        geometry::inside(area).y == area.y + 1,
        geometry::inside(area).width == area.width - 2,
        geometry::inside(area).height == area.height - 2,
{
}

/// A cell lies within an area exactly where it is none of the cells before or behind it.
pub proof fn cells_lie_within_their_area(x: u16, y: u16, area: Rect)
    requires
        area.x + area.width <= u16::MAX,
        area.y + area.height <= u16::MAX,
    ensures
        geometry::within(x, y, area) <==> area.x <= x && x < area.x + area.width && area.y <= y && y
            < area.y + area.height,
{
}

/// The halves of an area stand side by side and make it up; they differ by one column at most.
pub proof fn halves_make_up_the_area(area: Rect)
    requires
        area.x + area.width <= u16::MAX,
    ensures
        ({
            let parts: Seq<Rect> = geometry::halves(area);
            &&& parts.len() == 2
            &&& parts[0].x == area.x
            &&& parts[1].x == parts[0].x + parts[0].width
            &&& parts[0].width + parts[1].width == area.width
            &&& parts[1].width <= parts[0].width <= parts[1].width + 1
            &&& parts[0].y == area.y && parts[1].y == area.y
            &&& parts[0].height == area.height && parts[1].height == area.height
        }),
{
}

/// The place of a tab among the pieces of the bar.
pub open spec fn piece_of_tab(n: int) -> int {
    2 * n
}

proof fn tabs_in_order(labels: Seq<Seq<char>>, current: AgentOpsTab, theme: Theme, m: int, n: int)
    requires
        0 <= n < m <= 8,
        labels.len() == 8,
    ensures
        tabs::tab_pieces(labels, current, theme, m).len() == 2 * m - 1,
        tabs::tab_pieces(labels, current, theme, m)[2 * n].text == labels[n],
        tabs::tab_pieces(labels, current, theme, m)[2 * n].style == (if tabs::lit(current)
            == tabs::tabs()[n] {
            Style::plain().fg(theme.title_focused).bold().underlined()
        } else {
            Style::plain().fg(theme.border)
        }),
    decreases m,
{
    let all: Seq<Piece> = tabs::tab_pieces(labels, current, theme, m);
    if m > 1 {
        if n < m - 1 {
            tabs_in_order(labels, current, theme, m - 1, n);
        } else {
            tabs_in_order(labels, current, theme, m - 1, 0);
        }
    } else {
        assert(tabs::tab_pieces(labels, current, theme, 0).len() == 0);
    }
    assert(all.len() == 2 * m - 1);
}

/// Every tab has its label in the bar, and exactly the open one is underlined; the changes count
/// among the diagnostics.
pub proof fn the_open_tab_is_underlined(
    labels: Seq<Seq<char>>,
    current: AgentOpsTab,
    theme: Theme,
    n: int,
)
    requires
        0 <= n < 8,
        labels.len() == 8,
    ensures
        tabs::tab_pieces(labels, current, theme, 8)[piece_of_tab(n)].text == labels[n],
        current !is Patch ==> (tabs::tab_pieces(labels, current, theme, 8)[piece_of_tab(
            n,
        )].style.underlined <==> tabs::tabs()[n] == current),
        current is Patch ==> (tabs::tab_pieces(labels, current, theme, 8)[piece_of_tab(
            n,
        )].style.underlined <==> tabs::tabs()[n] is Diagnostics),
{
    tabs_in_order(labels, current, theme, 8, n);
}

/// The lines of a change are told apart by their first character: added ones, removed ones, and the
/// headings of hunks; the names of the files are neither added nor removed.
pub proof fn changed_lines_have_their_color(s: Seq<char>, theme: Theme)
    ensures
        s.len() >= 1 && s[0] == '+' && !(s.len() >= 3 && s[1] == '+' && s[2] == '+')
            ==> content::change_style(s, theme).fg == Some(theme.success),
        s.len() >= 1 && s[0] == '-' && !(s.len() >= 3 && s[1] == '-' && s[2] == '-')
            ==> content::change_style(s, theme).fg == Some(theme.error),
        s.len() >= 2 && s[0] == '@' && s[1] == '@' ==> content::change_style(s, theme).fg == Some(
            theme.title_focused,
        ),
        s.len() >= 1 && s[0] == ' ' ==> content::change_style(s, theme).fg == Some(
            theme.foreground,
        ),
        s.len() >= 3 && s[0] == '+' && s[1] == '+' && s[2] == '+' ==> content::change_style(
            s,
            theme,
        ).fg == Some(theme.foreground),
{
    reveal_strlit("+");
    reveal_strlit("+++");
    reveal_strlit("-");
    reveal_strlit("---");
    reveal_strlit("@@");
    if s.len() >= 1 {
        let one: Seq<char> = s.subrange(0, 1);
        assert(one[0] == s[0]);
        if s[0] == '+' {
            assert(one =~= "+"@);
        }
        if s[0] == '-' {
            assert(one =~= "-"@);
        }
        if s.len() >= 2 {
            let two: Seq<char> = s.subrange(0, 2);
            assert(two[0] == s[0] && two[1] == s[1]);
            if s[0] == '@' && s[1] == '@' {
                assert(two =~= "@@"@);
            }
        }
        if s.len() >= 3 {
            let three: Seq<char> = s.subrange(0, 3);
            assert(three[0] == s[0] && three[1] == s[1] && three[2] == s[2]);
            if s[0] == '+' && s[1] == '+' && s[2] == '+' {
                assert(three =~= "+++"@);
            }
        }
    }
}

/// Every line of a change is drawn, whole and in its order.
pub proof fn changes_are_drawn_line_by_line(all: Seq<Seq<char>>, change: bool, theme: Theme, i: int)
    requires
        0 <= i < all.len(),
    ensures
        content::spaced(all, change, theme).len() == all.len(),
        style::plain_text(content::spaced(all, change, theme)[i]) == " "@ + all[i],
{
    let row: Seq<Piece> = content::spaced(all, change, theme)[i];
    assert(row =~= seq![row[0]]);
    style::one_piece_text(row[0]);
}

} // verus!
