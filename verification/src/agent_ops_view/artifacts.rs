//! The tab of artifacts.

use vstd::prelude::*;

use crate::agent_ops_view::cards;
use crate::agent_ops_view::cards::ArtifactCard;
use crate::agent_ops_view::cards::Card;
use crate::agent_ops_view::context_cards;
use crate::agent_ops_view::glyphs;
use crate::agent_ops_view::provenance;
use crate::agent_ops_view::roster_lines;
use crate::agent_ops_view::swarm_details;
use crate::fit;
use crate::state::AppState;
use crate::state::SwarmRuntime;
use crate::table_cells;
use crate::text;

verus! {

/// The widths of the columns of the list: the preview takes what is left over.
pub open spec fn list_widths(width: int) -> Seq<usize> {
    fit::allocated(text::monus(width, 3), seq![6, 6, 8, 12], seq![8, 8, 10, 50], 3)
}

pub fn artifact_list_widths(width: usize) -> (r: Vec<usize>)
    ensures
        r@ == list_widths(width as int),
        r@.len() == 4,
{
    let mins: Vec<usize> = vec![6, 6, 8, 12];
    let prefs: Vec<usize> = vec![8, 8, 10, 50];
    proof {
        fit::sums_of_few(6, 6, 8, 12, 0);
        fit::sums_of_few(8, 8, 10, 50, 0);
        assert(mins@ =~= seq![6usize, 6, 8, 12]);
        assert(prefs@ =~= seq![8usize, 8, 10, 50]);
    }
    fit::allocate_columns(text::minus(width, 3), &mins, &prefs, 3)
}

/// How much of a text the list previews.
pub open spec fn preview_width(width: int) -> int {
    text::max_int(text::monus(list_widths(width)[3] as int, 1), 10)
}

pub fn preview_chars(width: usize) -> (r: usize)
    ensures
        r == preview_width(width as int),
{
    let w: Vec<usize> = artifact_list_widths(width);
    text::max_of(text::minus(w[3], 1), 10)
}

/// The row of a card: a root at the margin, or a child under its prompt.
pub open spec fn card_row(card: Card, w: Seq<usize>, selected: bool, child: bool, ascii: bool) -> Seq<
    char,
> {
    let marker: char = if selected {
        '>'
    } else {
        ' '
    };
    let cells: Seq<Seq<char>> = seq![card.kind, card.at, card.owner, card.preview];
    if child {
        seq![
            marker,
            ' ',
            ' ',
            if selected {
                glyphs::cursor_glyph(ascii)
            } else {
                '↳'
            },
            ' ',
        ] + table_cells::left_cells(
            w.update(3, text::monus(w[3] as int, 2) as usize),
            cells,
            4,
        )
    } else {
        seq![
            marker,
            if selected {
                glyphs::cursor_glyph(ascii)
            } else {
                '→'
            },
            ' ',
        ] + table_cells::left_cells(w, cells, 4)
    }
}

pub fn artifact_card_row(
    card: &ArtifactCard,
    w: &Vec<usize>,
    selected: bool,
    child: bool,
    ascii: bool,
) -> (r: String)
    requires
        w@.len() == 4,
    ensures
        r@ == card_row(card@, w@, selected, child, ascii),
{
    let marker: char = if selected {
        '>'
    } else {
        ' '
    };
    let cells: Vec<&str> = vec![
        card.kind,
        card.at.as_str(),
        card.owner.as_str(),
        card.preview.as_str(),
    ];
    assert(table_cells::strs(cells@) =~= seq![card.kind@, card.at@, card.owner@, card.preview@]);
    if child {
        let glyph: char = if selected {
            glyphs::cursor_glyph(ascii)
        } else {
            '↳'
        };
        let front: Vec<char> = vec![marker, ' ', ' ', glyph, ' '];
        assert(front@ =~= seq![marker, ' ', ' ', glyph, ' ']);
        let narrow: Vec<usize> = vec![w[0], w[1], w[2], text::minus(w[3], 2)];
        assert(narrow@ =~= w@.update(3, text::monus(w@[3] as int, 2) as usize));
        table_cells::row_of(text::text_of(&front).as_str(), &narrow, &cells)
    } else {
        let glyph: char = if selected {
            glyphs::cursor_glyph(ascii)
        } else {
            '→'
        };
        let front: Vec<char> = vec![marker, glyph, ' '];
        assert(front@ =~= seq![marker, glyph, ' ']);
        table_cells::row_of(text::text_of(&front).as_str(), w, &cells)
    }
}

/// The cards that stand outside of the tree.
pub open spec fn is_global(kind: Seq<char>) -> bool {
    kind == "REPORT"@ || kind == "VERIFY"@
}

fn global(kind: &str) -> (r: bool)
    ensures
        r == is_global(kind@),
{
    text::str_eq(kind, "REPORT") || text::str_eq(kind, "VERIFY")
}

/// How many cards from `i` on stand under the prompt before them.
pub open spec fn children_from(v: Seq<Card>, i: int) -> nat
    decreases v.len() - i,
{
    if i < 0 || i >= v.len() || v[i].kind == "PROMPT"@ || is_global(v[i].kind) {
        0
    } else {
        1 + children_from(v, i + 1)
    }
}

fn count_children(v: &Vec<ArtifactCard>, from: usize) -> (r: usize)
    requires
        from <= v@.len(),
    ensures
        r == children_from(cards::cards(v@), from as int),
{
    let ghost all: Seq<Card> = cards::cards(v@);
    let mut count: usize = 0;
    let mut i: usize = from;
    while i < v.len() && !text::str_eq(v[i].kind, "PROMPT") && !global(v[i].kind)
        invariant
            from <= i <= v@.len(),
            all == cards::cards(v@),
            count == i - from,
            children_from(all, from as int) == count + children_from(all, i as int),
        decreases v@.len() - i,
    {
        assert(all[i as int] == v@[i as int]@);
        count += 1;
        i += 1;
    }
    assert(i < v@.len() ==> all[i as int] == v@[i as int]@);
    count
}

/// Whether some card is a prompt.
pub open spec fn has_prompt(v: Seq<Card>) -> bool {
    exists|i: int| 0 <= i < v.len() && (#[trigger] v[i]).kind == "PROMPT"@
}

fn some_prompt(v: &Vec<ArtifactCard>) -> (r: bool)
    ensures
        r == has_prompt(cards::cards(v@)),
{
    let ghost all: Seq<Card> = cards::cards(v@);
    let mut i: usize = 0;
    while i < v.len()
        invariant
            i <= v@.len(),
            all == cards::cards(v@),
            forall|k: int| 0 <= k < i ==> (#[trigger] all[k]).kind != "PROMPT"@,
        decreases v@.len() - i,
    {
        assert(all[i as int] == v@[i as int]@);
        if text::str_eq(v[i].kind, "PROMPT") {
            return true;
        }
        i += 1;
    }
    false
}

/// The row of card `i`: a folded prompt says how many cards stand under it.
pub open spec fn tree_row(st: AppState, v: Seq<Card>, w: Seq<usize>, selected: int, i: int) -> Seq<
    char,
> {
    let card: Card = v[i];
    if card.kind == "PROMPT"@ {
        let row: Seq<char> = card_row(card, w, i == selected, false, st.ascii_fallback);
        if st.agents.artifacts_collapsed_prompts@.contains(i as usize) {
            text::trimmed_end(row) + " ["@ + text::decimal(children_from(v, i + 1)) + " hidden]"@
        } else {
            row
        }
    } else {
        card_row(
            card,
            w,
            i == selected,
            !is_global(card.kind) && has_prompt(v),
            st.ascii_fallback,
        )
    }
}

/// Whether the last prompt among the first `n` cards is folded.
pub open spec fn folded(st: AppState, v: Seq<Card>, n: int) -> bool
    decreases n,
{
    if n <= 0 {
        false
    } else if v[n - 1].kind == "PROMPT"@ {
        st.agents.artifacts_collapsed_prompts@.contains((n - 1) as usize)
    } else {
        folded(st, v, n - 1)
    }
}

/// Whether card `i` has a row: a card under a folded prompt has none.
pub open spec fn is_shown(st: AppState, v: Seq<Card>, i: int) -> bool {
    v[i].kind == "PROMPT"@ || is_global(v[i].kind) || !folded(st, v, i)
}

/// Those of the first `n` cards that have rows.
pub open spec fn shown_cards(st: AppState, v: Seq<Card>, n: int) -> Seq<int>
    decreases n,
{
    if n <= 0 {
        Seq::empty()
    } else if is_shown(st, v, n - 1) {
        shown_cards(st, v, n - 1).push(n - 1)
    } else {
        shown_cards(st, v, n - 1)
    }
}

fn contains_place(v: &Vec<usize>, i: usize) -> (r: bool)
    ensures
        r == v@.contains(i),
{
    let mut k: usize = 0;
    while k < v.len()
        invariant
            k <= v@.len(),
            forall|j: int| 0 <= j < k ==> v@[j] != i,
        decreases v@.len() - k,
    {
        if v[k] == i {
            assert(v@[k as int] == i);
            return true;
        }
        k += 1;
    }
    false
}

/// The lines above the cards.
pub open spec fn head_lines(st: AppState, swarm: Option<&SwarmRuntime>, width: int) -> Seq<
    Seq<char>,
> {
    seq![" ARTIFACTS"@, roster_lines::rule(width)] + (match (
        st.agents.context_mission,
        st.agents.context_agent,
    ) {
        (Some(id), _) => match context_cards::swarm_view(swarm, id@) {
            Some(view) => swarm_details::summary(view, width),
            None => provenance::mission_provenance(st, id@, width),
        },
        (None, Some(agent)) => provenance::chat_provenance(st, agent@, width),
        (None, None) => seq![" No mission or agent selected."@],
    })
}

/// The card that is selected among `n`.
pub open spec fn selected_card(st: AppState, n: int) -> int {
    text::min_int(st.agents.artifacts_selected as int, text::monus(n, 1))
}

/// The lines of the cards.
pub open spec fn card_lines(st: AppState, v: Seq<Card>, width: int) -> Seq<Seq<char>> {
    let w: Seq<usize> = list_widths(width);
    if v.len() == 0 {
        seq![" No artifacts captured yet."@]
    } else {
        let shown: Seq<int> = shown_cards(st, v, v.len() as int);
        Seq::new(
            shown.len(),
            |i: int| tree_row(st, v, w, selected_card(st, v.len() as int), shown[i]),
        )
    }
}

/// All lines of the tab.
pub open spec fn all_lines(st: AppState, swarm: Option<&SwarmRuntime>, given: int) -> Seq<
    Seq<char>,
> {
    let width: int = text::max_int(given, 32);
    let head: Seq<Seq<char>> = head_lines(st, swarm, width);
    if st.agents.context_mission is None && st.agents.context_agent is None {
        head
    } else {
        head + seq![roster_lines::rule(width), " Items"@] + card_lines(
            st,
            context_cards::context_cards(st, swarm, preview_width(width)),
            width,
        )
    }
}

fn head(st: &AppState, swarm: Option<&SwarmRuntime>, width: usize) -> (out: Vec<String>)
    ensures
        text::texts(out@) == head_lines(*st, swarm, width as int),
{
    broadcast use text::group_texts;

    let mut out: Vec<String> = vec![text::copy(" ARTIFACTS"), roster_lines::rule_line(width)];
    let ghost start: Seq<Seq<char>> = seq![" ARTIFACTS"@, roster_lines::rule(width as int)];
    assert(text::texts(out@) =~= start);
    match (&st.agents.context_mission, &st.agents.context_agent) {
        (Some(id), _) => match context_cards::find_swarm(swarm, id.as_str()) {
            Some(view) => {
                swarm_details::append_swarm_summary_lines(&mut out, view, width);
            },
            None => {
                provenance::append_mission_provenance_lines(&mut out, st, id.as_str(), width);
            },
        },
        (None, Some(agent)) => {
            provenance::append_ad_hoc_agent_lines(&mut out, st, agent.as_str(), width);
        },
        (None, None) => {
            let line: String = text::copy(" No mission or agent selected.");
            out.push(line);
            assert(start.push(line@) =~= start + seq![line@]);
        },
    }
    out
}

fn row(st: &AppState, v: &Vec<ArtifactCard>, w: &Vec<usize>, selected: usize, tree: bool, i: usize) -> (r:
    String)
    requires
        i < v@.len(),
        w@.len() == 4,
        tree == has_prompt(cards::cards(v@)),
    ensures
        r@ == tree_row(*st, cards::cards(v@), w@, selected as int, i as int),
{
    let card: &ArtifactCard = &v[i];
    let total: usize = v.len();
    assert(i < total);
    assert(card@ == cards::cards(v@)[i as int]);
    if text::str_eq(card.kind, "PROMPT") {
        let line: String = artifact_card_row(card, w, i == selected, false, st.ascii_fallback);
        if contains_place(&st.agents.artifacts_collapsed_prompts, i) {
            let bare: String = text::trim_end(line.as_str());
            let hidden: String = text::decimal_usize(count_children(v, i + 1));
            text::cat4(bare.as_str(), " [", hidden.as_str(), " hidden]")
        } else {
            line
        }
    } else {
        artifact_card_row(
            card,
            w,
            i == selected,
            !global(card.kind) && tree,
            st.ascii_fallback,
        )
    }
}

pub fn artifacts_lines(st: &AppState, swarm: Option<&SwarmRuntime>, given: usize) -> (r: Vec<
    String,
>)
    ensures
        text::texts(r@) == all_lines(*st, swarm, given as int),
{
    broadcast use text::group_texts;

    let width: usize = text::max_of(given, 32);
    let mut out: Vec<String> = head(st, swarm, width);
    if st.agents.context_mission.is_none() && st.agents.context_agent.is_none() {
        return out;
    }
    let ghost start: Seq<Seq<char>> = head_lines(*st, swarm, width as int);
    out.push(roster_lines::rule_line(width));
    out.push(text::copy(" Items"));
    let ghost top: Seq<Seq<char>> = start + seq![roster_lines::rule(width as int), " Items"@];
    assert(text::texts(out@) =~= top);
    let w: Vec<usize> = artifact_list_widths(width);
    let v: Vec<ArtifactCard> = context_cards::artifact_cards_for_context(
        st,
        swarm,
        preview_chars(width),
    );
    let ghost all: Seq<Card> = cards::cards(v@);
    if v.len() == 0 {
        let line: String = text::copy(" No artifacts captured yet.");
        out.push(line);
        assert(top.push(line@) =~= top + seq![line@]);
        return out;
    }
    let selected: usize = text::min_of(st.agents.artifacts_selected, v.len() - 1);
    let tree: bool = some_prompt(&v);
    let ghost lines: Seq<Seq<char>> = card_lines(*st, all, width as int);
    let mut under_folded: bool = false;
    let mut i: usize = 0;
    assert(top + lines.take(0) =~= top);
    while i < v.len()
        invariant
            i <= v@.len(),
            w@.len() == 4,
            w@ == list_widths(width as int),
            all == cards::cards(v@),
            all.len() > 0,
            tree == has_prompt(all),
            selected == selected_card(*st, all.len() as int),
            lines == card_lines(*st, all, width as int),
            under_folded == folded(*st, all, i as int),
            text::texts(out@) == top + lines.take(
                shown_cards(*st, all, i as int).len() as int,
            ),
        decreases v@.len() - i,
    {
        let prompt: bool = text::str_eq(v[i].kind, "PROMPT");
        assert(all[i as int] == v@[i as int]@);
        if prompt || global(v[i].kind) || !under_folded {
            let line: String = row(st, &v, &w, selected, tree, i);
            out.push(line);
            proof {
                let n: int = shown_cards(*st, all, i as int).len() as int;
                shown_cards_go_on(*st, all, i + 1, all.len() as int);
                assert(lines[n] == line@);
                assert(top + lines.take(n + 1) =~= (top + lines.take(n)).push(line@));
            }
        }
        if prompt {
            under_folded = contains_place(&st.agents.artifacts_collapsed_prompts, i);
        }
        i += 1;
    }
    assert(lines.take(lines.len() as int) =~= lines);
    out
}

proof fn shown_cards_go_on(st: AppState, v: Seq<Card>, n: int, m: int)
    requires
        0 <= n <= m,
    ensures
        shown_cards(st, v, n).len() <= shown_cards(st, v, m).len(),
        forall|j: int|
            0 <= j < shown_cards(st, v, n).len() ==> #[trigger] shown_cards(st, v, m)[j]
                == shown_cards(st, v, n)[j],
    decreases m,
{
    if n < m {
        shown_cards_go_on(st, v, n, m - 1);
    }
}

/// The cards that have rows are cards, in their order.
pub proof fn shown_cards_are_cards(st: AppState, v: Seq<Card>, n: int)
    requires
        0 <= n,
    ensures
        forall|j: int|
            0 <= j < shown_cards(st, v, n).len() ==> 0 <= #[trigger] shown_cards(st, v, n)[j] < n
                && is_shown(st, v, shown_cards(st, v, n)[j]),
        forall|i: int, j: int|
            0 <= i < j < shown_cards(st, v, n).len() ==> #[trigger] shown_cards(st, v, n)[i]
                < #[trigger] shown_cards(st, v, n)[j],
        forall|i: int|
            0 <= i < n && #[trigger] is_shown(st, v, i) ==> shown_cards(st, v, n).contains(i),
    decreases n,
{
    if n > 0 {
        shown_cards_are_cards(st, v, n - 1);
        let before: Seq<int> = shown_cards(st, v, n - 1);
        let now: Seq<int> = shown_cards(st, v, n);
        assert forall|i: int| 0 <= i < n && #[trigger] is_shown(st, v, i) implies now.contains(
            i,
        ) by {
            if i < n - 1 {
                let j: int = before.index_of(i);
                assert(now[j] == i);
            } else {
                assert(now[now.len() - 1] == i);
            }
        }
    }
}

proof fn children_are_folded(st: AppState, v: Seq<Card>, from: int, i: int)
    requires
        0 < from <= i <= v.len(),
        i <= from + children_from(v, from),
    ensures
        folded(st, v, i) == folded(st, v, from),
        i < from + children_from(v, from) ==> v[i].kind != "PROMPT"@ && !is_global(v[i].kind),
    decreases i - from,
{
    if from < i {
        children_are_folded(st, v, from + 1, i);
    }
}

proof fn children_are_cards(v: Seq<Card>, i: int)
    requires
        0 <= i <= v.len(),
    ensures
        i + children_from(v, i) <= v.len(),
    decreases v.len() - i,
{
    if i < v.len() {
        children_are_cards(v, i + 1);
    }
}

/// The row of a folded prompt ends with the number of cards that it hides, and none of these has
/// a row.
pub proof fn folded_prompts_hide_their_cards(
    st: AppState,
    v: Seq<Card>,
    w: Seq<usize>,
    selected: int,
    p: int,
    i: int,
)
    requires
        0 <= p < v.len() <= usize::MAX,
        v[p].kind == "PROMPT"@,
        st.agents.artifacts_collapsed_prompts@.contains(p as usize),
        p < i <= p + children_from(v, p + 1),
    ensures
        ({
            let end: Seq<char> = " ["@ + text::decimal(children_from(v, p + 1)) + " hidden]"@;
            let row: Seq<char> = tree_row(st, v, w, selected, p);
            row.len() >= end.len() && row.subrange(row.len() - end.len(), row.len() as int) == end
        }),
        !shown_cards(st, v, v.len() as int).contains(i),
{
    let end: Seq<char> = " ["@ + text::decimal(children_from(v, p + 1)) + " hidden]"@;
    let row: Seq<char> = tree_row(st, v, w, selected, p);
    assert(row.subrange(row.len() - end.len(), row.len() as int) =~= end);
    children_are_cards(v, p + 1);
    children_are_folded(st, v, p + 1, i);
    shown_cards_are_cards(st, v, v.len() as int);
    assert(!is_shown(st, v, i));
    if shown_cards(st, v, v.len() as int).contains(i) {
        let j: int = shown_cards(st, v, v.len() as int).index_of(i);
        assert(is_shown(st, v, shown_cards(st, v, v.len() as int)[j]));
    }
}

/// Which cards have rows, for a click on the row of one of them.
pub fn artifacts_shown_cards(st: &AppState, swarm: Option<&SwarmRuntime>, given: usize) -> (r: Vec<
    usize,
>)
    ensures
        ({
            let v: Seq<Card> = context_cards::context_cards(
                *st,
                swarm,
                preview_width(text::max_int(given as int, 32)),
            );
            let shown: Seq<int> = shown_cards(*st, v, v.len() as int);
            &&& r@.len() == shown.len()
            &&& forall|i: int| 0 <= i < r@.len() ==> #[trigger] r@[i] == shown[i]
        }),
{
    let v: Vec<ArtifactCard> = context_cards::artifact_cards_for_context(
        st,
        swarm,
        preview_chars(text::max_of(given, 32)),
    );
    let ghost all: Seq<Card> = cards::cards(v@);
    let mut out: Vec<usize> = Vec::new();
    let mut under_folded: bool = false;
    let mut i: usize = 0;
    while i < v.len()
        invariant
            i <= v@.len(),
            all == cards::cards(v@),
            under_folded == folded(*st, all, i as int),
            out@.len() == shown_cards(*st, all, i as int).len(),
            forall|j: int|
                0 <= j < out@.len() ==> #[trigger] out@[j] == shown_cards(*st, all, i as int)[j],
        decreases v@.len() - i,
    {
        let prompt: bool = text::str_eq(v[i].kind, "PROMPT");
        assert(all[i as int] == v@[i as int]@);
        if prompt || global(v[i].kind) || !under_folded {
            out.push(i);
        }
        if prompt {
            under_folded = contains_place(&st.agents.artifacts_collapsed_prompts, i);
        }
        i += 1;
    }
    out
}

/// Whether a line is the row of a card at the margin.
pub open spec fn root_row(line: Seq<char>) -> bool {
    line.len() >= 3 && (line[0] == ' ' || line[0] == '>') && (line[1] == '→' || line[1] == '➜'
        || line[1] == '>') && line[2] == ' '
}

pub fn is_artifacts_root_card_row(line: &str) -> (r: bool)
    ensures
        r == root_row(line@),
{
    let v: Vec<char> = text::chars_of(line);
    v.len() >= 3 && (v[0] == ' ' || v[0] == '>') && (v[1] == '→' || v[1] == '➜' || v[1] == '>')
        && v[2] == ' '
}

/// Whether a line is the row of a card under a prompt.
pub open spec fn child_row(line: Seq<char>) -> bool {
    line.len() >= 5 && (line[0] == ' ' || line[0] == '>') && line[1] == ' ' && line[2] == ' ' && (
    line[3] == '↳' || line[3] == '➜') && line[4] == ' '
}

pub fn is_artifacts_child_card_row(line: &str) -> (r: bool)
    ensures
        r == child_row(line@),
{
    let v: Vec<char> = text::chars_of(line);
    v.len() >= 5 && (v[0] == ' ' || v[0] == '>') && v[1] == ' ' && v[2] == ' ' && (v[3] == '↳'
        || v[3] == '➜') && v[4] == ' '
}

/// Whether a line is the row of a card.
pub open spec fn is_row(line: Seq<char>) -> bool {
    root_row(line) || child_row(line)
}

pub fn is_artifacts_card_row(line: &str) -> (r: bool)
    ensures
        r == is_row(line@),
{
    is_artifacts_root_card_row(line) || is_artifacts_child_card_row(line)
}

/// How many of the first `n` lines are rows of cards.
pub open spec fn rows_upto(lines: Seq<Seq<char>>, n: int) -> nat
    decreases n,
{
    if n <= 0 {
        0
    } else {
        rows_upto(lines, n - 1) + (if is_row(lines[n - 1]) {
            1nat
        } else {
            0nat
        })
    }
}

proof fn rows_at_most(lines: Seq<Seq<char>>, n: int)
    requires
        0 <= n,
    ensures
        rows_upto(lines, n) <= n,
    decreases n,
{
    if n > 0 {
        rows_at_most(lines, n - 1);
    }
}

/// The place of the card on a line among those that have rows.
pub open spec fn card_on(lines: Seq<Seq<char>>, line_idx: int) -> Option<nat> {
    if 0 <= line_idx < lines.len() && is_row(lines[line_idx]) {
        Some(rows_upto(lines, line_idx))
    } else {
        None
    }
}

pub fn artifacts_card_index_for_line(lines: &Vec<String>, line_idx: usize) -> (r: Option<usize>)
    ensures
        match r {
            Some(k) => card_on(text::texts(lines@), line_idx as int) == Some(k as nat),
            None => card_on(text::texts(lines@), line_idx as int) is None,
        },
{
    let ghost all: Seq<Seq<char>> = text::texts(lines@);
    if line_idx >= lines.len() || !is_artifacts_card_row(lines[line_idx].as_str()) {
        assert(line_idx < lines@.len() ==> all[line_idx as int] == lines@[line_idx as int]@);
        return None;
    }
    assert(all[line_idx as int] == lines@[line_idx as int]@);
    let mut card: usize = 0;
    let mut i: usize = 0;
    while i < line_idx
        invariant
            i <= line_idx < lines@.len(),
            all == text::texts(lines@),
            card <= i,
            card == rows_upto(all, i as int),
        decreases line_idx - i,
    {
        assert(all[i as int] == lines@[i as int]@);
        if is_artifacts_card_row(lines[i].as_str()) {
            card += 1;
        }
        i += 1;
    }
    Some(card)
}

/// The line of the card at place `n` among those that have rows, from line `i` on.
pub open spec fn line_of_from(lines: Seq<Seq<char>>, n: int, i: int) -> Option<int>
    decreases lines.len() - i,
{
    if i < 0 || i >= lines.len() {
        None
    } else if is_row(lines[i]) && rows_upto(lines, i) == n {
        Some(i)
    } else {
        line_of_from(lines, n, i + 1)
    }
}

/// The line of the card at place `n` among those that have rows.
pub open spec fn line_of(lines: Seq<Seq<char>>, n: int) -> Option<int> {
    line_of_from(lines, n, 0)
}

pub fn artifacts_card_line_for_index(lines: &Vec<String>, card_idx: usize) -> (r: Option<usize>)
    ensures
        match r {
            Some(k) => line_of(text::texts(lines@), card_idx as int) == Some(k as int),
            None => line_of(text::texts(lines@), card_idx as int) is None,
        },
{
    let ghost all: Seq<Seq<char>> = text::texts(lines@);
    let mut cursor: usize = 0;
    let mut i: usize = 0;
    while i < lines.len()
        invariant
            i <= lines@.len(),
            all == text::texts(lines@),
            cursor <= i,
            cursor == rows_upto(all, i as int),
            line_of(all, card_idx as int) == line_of_from(all, card_idx as int, i as int),
        decreases lines@.len() - i,
    {
        assert(all[i as int] == lines@[i as int]@);
        if is_artifacts_card_row(lines[i].as_str()) {
            if cursor == card_idx {
                return Some(i);
            }
            cursor += 1;
        }
        i += 1;
    }
    None
}

pub fn artifacts_card_count(lines: &Vec<String>) -> (r: usize)
    ensures
        r == rows_upto(text::texts(lines@), lines@.len() as int),
{
    let ghost all: Seq<Seq<char>> = text::texts(lines@);
    let mut count: usize = 0;
    let mut i: usize = 0;
    while i < lines.len()
        invariant
            i <= lines@.len(),
            all == text::texts(lines@),
            count <= i,
            count == rows_upto(all, i as int),
        decreases lines@.len() - i,
    {
        assert(all[i as int] == lines@[i as int]@);
        if is_artifacts_card_row(lines[i].as_str()) {
            count += 1;
        }
        i += 1;
    }
    count
}

proof fn rows_grow(lines: Seq<Seq<char>>, n: int, m: int)
    requires
        0 <= n <= m,
    ensures
        rows_upto(lines, n) <= rows_upto(lines, m),
    decreases m,
{
    if n < m {
        rows_grow(lines, n, m - 1);
    }
}

proof fn line_is_found(lines: Seq<Seq<char>>, i: int, j: int)
    requires
        0 <= i <= j < lines.len(),
        is_row(lines[j]),
    ensures
        line_of_from(lines, rows_upto(lines, j) as int, i) == Some(j),
    decreases j - i,
{
    if i < j {
        rows_grow(lines, i + 1, j);
        line_is_found(lines, i + 1, j);
    }
}

/// Lines and cards match: the line of the card on a line is that line.
pub proof fn line_of_card_on_line(lines: Seq<Seq<char>>, line_idx: int)
    requires
        card_on(lines, line_idx) is Some,
    ensures
        line_of(lines, card_on(lines, line_idx)->0 as int) == Some(line_idx),
{
    line_is_found(lines, 0, line_idx);
}

proof fn found_line_holds(lines: Seq<Seq<char>>, n: int, i: int)
    requires
        0 <= i,
    ensures
        line_of_from(lines, n, i) matches Some(k) ==> i <= k < lines.len() && is_row(lines[k])
            && rows_upto(lines, k) == n,
    decreases lines.len() - i,
{
    if i < lines.len() {
        found_line_holds(lines, n, i + 1);
    }
}

/// Cards and lines match: the card on the line of a card is that card.
pub proof fn card_on_line_of_card(lines: Seq<Seq<char>>, n: int)
    requires
        line_of(lines, n) is Some,
    ensures
        card_on(lines, line_of(lines, n)->0) == Some(n as nat),
{
    found_line_holds(lines, n, 0);
}

proof fn some_row_holds(lines: Seq<Seq<char>>, n: int, m: int) -> (k: int)
    requires
        0 <= n < rows_upto(lines, m),
        0 <= m <= lines.len(),
    ensures
        0 <= k < m,
        is_row(lines[k]),
        rows_upto(lines, k) == n,
    decreases m,
{
    if n < rows_upto(lines, m - 1) {
        some_row_holds(lines, n, m - 1)
    } else {
        m - 1
    }
}

/// Every card that is counted has a line, and no other one has.
pub proof fn counted_cards_have_lines(lines: Seq<Seq<char>>, n: int)
    requires
        0 <= n,
    ensures
        line_of(lines, n) is Some <==> n < rows_upto(lines, lines.len() as int),
{
    if n < rows_upto(lines, lines.len() as int) {
        let k: int = some_row_holds(lines, n, lines.len() as int);
        line_is_found(lines, 0, k);
    }
    found_line_holds(lines, n, 0);
    if let Some(k) = line_of(lines, n) {
        rows_grow(lines, k + 1, lines.len() as int);
    }
}

/// The row of a card is told as one, except for a selected child where only ASCII markers are
/// drawn.
pub proof fn card_rows_are_rows(
    card: Card,
    w: Seq<usize>,
    selected: bool,
    child: bool,
    ascii: bool,
)
    requires
        !(ascii && selected && child),
    ensures
        child ==> child_row(card_row(card, w, selected, child, ascii)),
        !child ==> root_row(card_row(card, w, selected, child, ascii)),
{
}

} // verus!
