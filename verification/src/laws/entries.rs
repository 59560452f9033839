//! What is typed, named and counted.

use vstd::prelude::*;

use crate::agent_console_view::breather;
use crate::agent_console_view::chat_input;
use crate::agent_console_view::layout;
use crate::agent_console_view::pane;
use crate::agent_console_view::pane::PaneSession;
use crate::agent_console_view::turns;
use crate::agent_ops_view::dag;
use crate::artifacts_popup::markdown;
use crate::claims_view;
use crate::claims_view::ActiveClaim;
use crate::claims_view::ClaimKind;
use crate::clone_labels;
use crate::file_tree_view;
use crate::file_tree_view::FileTree;
use crate::laws::texts;
use crate::runs;
use crate::runs::Gathered;
use crate::state::AppState;
use crate::state::Entry;
use crate::state::SwarmRuntime;
use crate::style::Color;
use crate::style::Style;
use crate::style::Theme;
use crate::text;

verus! {

/// There is always a last line to write on, and plain characters are on the lines one by one.
proof fn plain_characters_are_kept(s: Seq<char>, width: int, n: int)
    requires
        0 <= n <= s.len(),
        forall|i: int|
            0 <= i < n ==> s[i] != '\n' && s[i] != '\r' && #[trigger] s[i] != '\t',
    ensures
        chat_input::wrapped(s, width, n).len() > 0,
        chat_input::wrapped(s, width, n).flatten() == s.take(n),
    decreases n,
{
    let none: Seq<Seq<char>> = Seq::empty();
    if n <= 0 {
        none.lemma_flatten_push(Seq::empty());
        assert(seq![Seq::<char>::empty()] =~= none.push(Seq::empty()));
        assert(chat_input::wrapped(s, width, n).flatten() =~= s.take(n));
    } else {
        plain_characters_are_kept(s, width, n - 1);
        let before: Seq<Seq<char>> = chat_input::wrapped(s, width, n - 1);
        let c: char = s[n - 1];
        assert(s.take(n) =~= s.take(n - 1) + seq![c]);
        before.lemma_flatten_push(seq![c]);
        before.drop_last().lemma_flatten_push(before.last());
        before.drop_last().lemma_flatten_push(before.last() + seq![c]);
        assert(before.drop_last().push(before.last()) =~= before);
        assert(before.drop_last().flatten() + (before.last() + seq![c]) =~= before.flatten()
            + seq![c]);
    }
}

/// What is typed on one line is shown whole and in its order, wherever it is wrapped.
pub proof fn what_is_typed_is_shown(s: Seq<char>, width: int)
    requires
        forall|i: int|
            0 <= i < s.len() ==> s[i] != '\n' && s[i] != '\r' && #[trigger] s[i] != '\t',
    ensures
        layout::input_lines(s, width).flatten() == s,
{
    plain_characters_are_kept(s, chat_input::at_least_one(width), s.len() as int);
    assert(s.take(s.len() as int) =~= s);
}

/// The lines depend only on what stands before them.
proof fn lines_look_back(s: Seq<char>, more: Seq<char>, width: int, n: int)
    requires
        0 <= n <= s.len(),
    ensures
        chat_input::wrapped(s + more, width, n) == chat_input::wrapped(s, width, n),
        chat_input::caret_after(s + more, width, n) == chat_input::caret_after(s, width, n),
    decreases n,
{
    if n > 0 {
        lines_look_back(s, more, width, n - 1);
        assert((s + more)[n - 1] == s[n - 1]);
    }
}

/// A line break leaves the lines before it as they are and begins an empty one.
pub proof fn line_breaks_begin_a_line(s: Seq<char>, c: char, width: int)
    requires
        c == '\n' || c == '\r',
    ensures
        layout::input_lines(s + seq![c], width) == layout::input_lines(s, width).push(
            Seq::empty(),
        ),
{
    lines_look_back(s, seq![c], chat_input::at_least_one(width), s.len() as int);
    assert((s + seq![c])[s.len() as int] == c);
}

/// Spaces come behind what was gathered, as many as are asked for.
pub proof fn spaces_are_added(g: Gathered, look: Style, n: int)
    requires
        0 <= n,
    ensures
        runs::gathered_text(runs::with_spaces(g, look, n)) == runs::gathered_text(g) + text::fill(
            ' ',
            n as nat,
        ),
    decreases n,
{
    let before: Seq<char> = runs::gathered_text(g);
    if n > 0 {
        spaces_are_added(g, look, n - 1);
        runs::gathering_keeps_text(runs::with_spaces(g, look, n - 1), ' ', look);
        assert((before + text::fill(' ', (n - 1) as nat)).push(' ') =~= before + text::fill(
            ' ',
            n as nat,
        ));
    } else {
        assert(before + text::fill(' ', 0) =~= before);
    }
}

/// A value that does not fit beside its label is told in parts, each behind the label; a label
/// that leaves no room stands alone.
pub proof fn long_values_are_told_behind_their_label(
    label: Seq<char>,
    value: Seq<char>,
    room: int,
    i: int,
)
    requires
        text::trimmed(label).len() + 2 + text::trimmed(value).len() > room,
        0 <= i < dag::segments(label, value, room).len(),
    ensures
        text::trimmed(label).len() + 2 < room ==> text::starts(
            dag::segments(label, value, room)[i],
            text::trimmed(label) + ": "@,
        ),
        text::trimmed(label).len() + 2 >= room ==> dag::segments(label, value, room) == seq![
            text::trimmed(label) + ":"@,
        ],
{
    reveal_strlit(": ");
    let mark: Seq<char> = text::trimmed(label) + ": "@;
    let told: Seq<char> = dag::segments(label, value, room)[i];
    if text::trimmed(label).len() + 2 < room {
        assert(told.subrange(0, mark.len() as int) =~= mark);
    }
}

/// An assigned agent that has nothing to do is done where it said something in the mission, and
/// still to come where it did not.
pub proof fn assigned_agents_are_done_once_they_spoke(
    st: AppState,
    id: Seq<char>,
    mission: Seq<char>,
    k: int,
)
    requires
        turns::open_swarm(st) is Some,
        text::opt_text(st.agents.context_mission) == Some(mission),
        breather::assigned(st).contains(id),
        turns::turn(st, id) is None,
        turns::lane(st, id) matches Some(agent) ==> !(agent.status is Error),
        !turns::queued(st, id),
        !turns::queued_in(st, id, mission),
    ensures
        0 <= k < st.agents.messages@.len() && st.agents.messages@[k].mission_id is Some
            && st.agents.messages@[k].mission_id->0@ == mission
            && st.agents.messages@[k].agent_id is Some && st.agents.messages@[k].agent_id->0@ == id
            ==> breather::table_stage(st, id) == "swarm_done"@,
        (forall|i: int|
            0 <= i < st.agents.messages@.len() ==> !((
            #[trigger] st.agents.messages@[i]).mission_id matches Some(m) && m@ == mission)
                || !(st.agents.messages@[i].agent_id matches Some(a) && a@ == id))
            ==> breather::table_stage(st, id) == "swarm_pending"@,
{
}

/// Where nobody works there is no table, and where somebody does its first row tells what goes on.
pub proof fn the_table_is_there_for_somebody(
    st: AppState,
    swarm: Option<&SwarmRuntime>,
    pulse: bool,
    width: int,
)
    ensures
        breather::table_rows(st, swarm, pulse, width).len() == 0 <==> breather::ordered(st).len()
            == 0,
{
}

/// The role of a copy is told in brackets behind its name; without a role the name is told alone.
pub proof fn roles_are_told_in_brackets(names: Seq<Entry<String>>, id: Seq<char>, role: Seq<char>)
    ensures
        clone_labels::display_label(names, id, Some(role)) == (match clone_labels::display_label(
            names,
            id,
            None,
        ) {
            Some(name) => if text::trimmed(role).len() == 0 {
                Some(name)
            } else {
                Some(
                    name + " ["@ + clone_labels::role_hint(names, text::trimmed(role)) + "]"@,
                )
            },
            None => None,
        }),
{
}

/// A number goes on while digits follow.
proof fn digits_go_on(d: Seq<char>, rest: Seq<char>, i: int)
    requires
        0 <= i <= d.len(),
        forall|k: int| 0 <= k < d.len() ==> text::digit(#[trigger] d[k]),
        rest.len() > 0,
        !text::digit(rest[0]),
    ensures
        markdown::digits_end(d + rest, i) == d.len(),
    decreases d.len() - i,
{
    let s: Seq<char> = d + rest;
    if i < d.len() {
        assert(s[i] == d[i]);
        digits_go_on(d, rest, i + 1);
    } else {
        assert(s[i] == rest[0]);
    }
}

/// An item behind a number and a point keeps its number and its text.
pub proof fn numbered_items_keep_their_number(d: Seq<char>, s: Seq<char>)
    requires
        d.len() > 0,
        forall|k: int| 0 <= k < d.len() ==> text::digit(#[trigger] d[k]),
        s.len() > 0,
        !text::white(s[0]),
    ensures
        markdown::list_item(d + ". "@ + s) == Some((d + "."@, s)),
{
    reveal_strlit(". ");
    reveal_strlit(".");
    reveal_strlit("- ");
    reveal_strlit("* ");
    reveal_strlit("+ ");
    let rest: Seq<char> = ". "@ + s;
    let whole: Seq<char> = d + ". "@ + s;
    let n: int = d.len() as int;
    assert(whole =~= d + rest);
    digits_go_on(d, rest, 0);
    assert(whole[0] == d[0] && text::digit(d[0]));
    assert(whole.subrange(0, 2)[0] == d[0]);
    assert(text::tail(whole, n) =~= rest);
    assert(rest.subrange(0, 2) =~= ". "@);
    assert(text::tail(whole, n + 2) =~= s);
    assert(text::head(whole, n + 1) =~= d + "."@);
}

/// A pane shows its mission, and where it has none that of its chat.
pub proof fn panes_show_their_mission(p: PaneSession)
    ensures
        p.mission_id is Some ==> pane::mission_of(p) == Some(p.mission_id->0@),
        p.mission_id is None && p.chat_mission_id@.len() > 0 ==> pane::mission_of(p) == Some(
            p.chat_mission_id@,
        ),
        p.mission_id is None && p.chat_mission_id@.len() == 0 ==> pane::mission_of(p) is None,
{
}

/// The arrow of a directory, behind its indentation, stands out from the name.
pub proof fn arrows_of_directories_stand_out(
    tree: FileTree,
    height: int,
    theme: Theme,
    file_fg: Color,
    i: int,
)
    requires
        0 <= i < height,
        tree.scroll_offset + i < tree.rows@.len(),
        tree.rows@[tree.scroll_offset + i].kind is Dir,
        2 * tree.rows@[tree.scroll_offset + i].depth + 2 < tree.rows@[tree.scroll_offset
            + i].text@.len() <= usize::MAX,
    ensures
        ({
            let row = tree.rows@[tree.scroll_offset + i];
            let at: int = 2 * row.depth;
            let shown = file_tree_view::shown_rows(tree, height, theme, file_fg)[i];
            &&& shown.len() == 3
            &&& shown[1].text == row.text@.subrange(at, at + 2)
            &&& shown[1].style.fg == Some(theme.accent)
            &&& shown[2].text == row.text@.subrange(at + 2, row.text@.len() as int)
            &&& shown[2].style == shown[0].style
        }),
{
    let row = tree.rows@[tree.scroll_offset + i];
    let at: int = 2 * row.depth;
    let rest: Seq<char> = text::tail(row.text@, at);
    assert(rest =~= row.text@.subrange(at, row.text@.len() as int));
    assert(text::head(rest, 2) =~= row.text@.subrange(at, at + 2));
    assert(text::tail(rest, 2) =~= row.text@.subrange(at + 2, row.text@.len() as int));
}

/// A path into the crates is told from there on.
pub proof fn paths_are_told_from_the_crates_on(p: Seq<char>, k: int)
    requires
        0 <= k,
        k + 7 <= p.len(),
        p.subrange(k, k + 7) == "crates/"@,
    ensures
        text::starts(claims_view::short_path(p), "crates/"@),
        text::ends(p, claims_view::short_path(p)),
        p.len() - k <= claims_view::short_path(p).len(),
{
    reveal_strlit("crates/");
    let mark: Seq<char> = "crates/"@;
    texts::texts_are_found_where_they_stand_first(p, mark);
    assert(p.subrange(k, k + mark.len()) == mark);
    let j: int = text::find(p, mark)->0;
    let rest: Seq<char> = text::tail(p, j);
    assert(rest =~= p.subrange(j, p.len() as int));
    assert(rest.subrange(0, 7) =~= p.subrange(j, j + 7));
}

/// Claims of one kind are all counted, and nothing else is.
proof fn claims_are_counted(claims: Seq<ActiveClaim>, kind: ClaimKind, other: ClaimKind, n: int)
    requires
        0 <= n <= claims.len(),
        forall|i: int| 0 <= i < claims.len() ==> (#[trigger] claims[i]).claim.kind == kind,
    ensures
        claims_view::count_of(claims, other, n) == (if other == kind {
            n
        } else {
            0
        }),
    decreases n,
{
    if n > 0 {
        claims_are_counted(claims, kind, other, n - 1);
        assert(claims[n - 1].claim.kind == kind);
    }
}

/// Where all claims are of one kind, that kind is told with their number, and no other kind is.
pub proof fn claims_of_one_kind_are_counted(claims: Seq<ActiveClaim>, kind: ClaimKind)
    requires
        claims.len() > 0,
        forall|i: int| 0 <= i < claims.len() ==> (#[trigger] claims[i]).claim.kind == kind,
    ensures
        claims_view::kind_counts(claims) == (match kind {
            ClaimKind::ExclusiveWrite => "ExclusiveWrite"@,
            ClaimKind::SharedRead => "SharedRead"@,
            ClaimKind::AppendOnly => "AppendOnly"@,
            ClaimKind::Soft => "Soft"@,
        }) + " "@ + text::decimal(claims.len()),
{
    let n: int = claims.len() as int;
    claims_are_counted(claims, kind, ClaimKind::ExclusiveWrite, n);
    claims_are_counted(claims, kind, ClaimKind::SharedRead, n);
    claims_are_counted(claims, kind, ClaimKind::AppendOnly, n);
    claims_are_counted(claims, kind, ClaimKind::Soft, n);
    let one: Seq<Seq<char>> = claims_view::kind_part(claims, kind);
    let all: Seq<Seq<char>> = claims_view::kind_part(claims, ClaimKind::AppendOnly)
        + claims_view::kind_part(claims, ClaimKind::ExclusiveWrite) + claims_view::kind_part(
        claims,
        ClaimKind::SharedRead,
    ) + claims_view::kind_part(claims, ClaimKind::Soft);
    assert(all =~= one);
    assert(one.len() == 1);
}

} // verus!
