//! What the popup of an artifact shows.

use vstd::prelude::*;

use crate::agent_ops_view::cards::Reference;
use crate::agent_ops_view::popup;
use crate::artifacts_popup::code;
use crate::artifacts_popup::code::CodeBlock;
use crate::artifacts_popup::code::SyntaxTables;
use crate::artifacts_popup::content;
use crate::artifacts_popup::content::OpenedEntry;
use crate::artifacts_popup::json;
use crate::artifacts_popup::lines;
use crate::artifacts_popup::markdown;
use crate::artifacts_popup::math;
use crate::artifacts_popup::views;
use crate::laws::labels;
use crate::laws::texts;
use crate::state;
use crate::state::AgentMessage;
use crate::state::AppState;
use crate::state::EvidenceItem;
use crate::state::GateReportGate;
use crate::state::PersistedPatchRecord;
use crate::state::SwarmPersistenceView;
use crate::state::SwarmRuntime;
use crate::style::Piece;
use crate::style::Style;
use crate::style::Theme;
use crate::text;

verus! {

/// A message is headed by who said it and when, and its text is shown below as a document.
pub proof fn messages_are_headed_by_who_said_them(
    m: AgentMessage,
    syn: SyntaxTables,
    theme: Theme,
    width: int,
)
    requires
        labels::bare(m.at@),
        labels::bare(m.text@),
    ensures
        ({
            let rows: Seq<Seq<Piece>> = content::message_rows(m, syn, theme, width);
            let shown: Seq<Seq<Piece>> = markdown::document(m.text@, syn, theme, width);
            &&& rows.len() == shown.len() + 6
            &&& m.agent_id is None ==> rows[0][0].text == " "@ + "PROMPT"@ + "  "@ + "You"@ + "  "@
                + m.at@
            &&& m.agent_id is Some && m.kind is None ==> rows[0][0].text == " "@ + "REPLY"@ + "  "@
                + m.agent_id->0@ + "  "@ + m.at@
            &&& rows[2][1].text == m.at@
            &&& m.mission_id is Some ==> rows[3][1].text == m.mission_id->0@
            &&& m.mission_id is None ==> rows[3][1].text == "ad-hoc"@
            &&& rows.skip(6) == shown
        }),
{
    reveal(content::message_rows);
    texts::nothing_else_is_trimmed(m.at@);
    texts::nothing_else_is_trimmed(m.text@);
    let rows: Seq<Seq<Piece>> = content::message_rows(m, syn, theme, width);
    let shown: Seq<Seq<Piece>> = markdown::document(m.text@, syn, theme, width);
    assert(rows.skip(6) =~= shown);
}

/// A change is shown line by line at the end of its popup, each line behind a space.
pub proof fn changes_are_shown_line_by_line(
    p: PersistedPatchRecord,
    diff: Seq<char>,
    theme: Theme,
    width: int,
    i: int,
)
    requires
        labels::bare(diff),
        0 <= i < text::lines_of(diff).len(),
    ensures
        ({
            let rows: Seq<Seq<Piece>> = content::patch_rows(p, diff, theme, width);
            let n: int = text::lines_of(diff).len() as int;
            &&& rows.len() >= n
            &&& rows[rows.len() - n + i][0].text == " "@ + text::lines_of(diff)[i]
            &&& rows[rows.len() - n + i].len() == 1
        }),
{
    reveal(content::patch_rows);
    texts::nothing_else_is_trimmed(diff);
    let rows: Seq<Seq<Piece>> = content::patch_rows(p, diff, theme, width);
    let last: Seq<Seq<Piece>> = content::spaced(text::lines_of(diff), true, theme);
    assert(rows[rows.len() - last.len() + i] == last[i]);
}

/// A finding is shown line by line at the end of its popup, each line behind a space.
pub proof fn findings_are_shown_line_by_line(e: EvidenceItem, theme: Theme, width: int, i: int)
    requires
        labels::bare(e.detail@),
        0 <= i < text::lines_of(e.detail@).len(),
    ensures
        ({
            let rows: Seq<Seq<Piece>> = content::evidence_rows(e, theme, width);
            let n: int = text::lines_of(e.detail@).len() as int;
            &&& rows.len() >= n
            &&& rows[rows.len() - n + i][0].text == " "@ + text::lines_of(e.detail@)[i]
            &&& rows[2][1].text == e.title@
        }),
{
    reveal(content::evidence_rows);
    texts::nothing_else_is_trimmed(e.detail@);
    let rows: Seq<Seq<Piece>> = content::evidence_rows(e, theme, width);
    let last: Seq<Seq<Piece>> = content::spaced(text::lines_of(e.detail@), false, theme);
    assert(rows[rows.len() - last.len() + i] == last[i]);
}

/// The difference of a change that was saved is its own, and only where it has none the one that is
/// kept in its file.
pub proof fn saved_changes_show_their_own_difference(
    st: AppState,
    p: PersistedPatchRecord,
    path: Seq<char>,
)
    ensures
        labels::bare(p.diff@) ==> popup::saved_diff(st, p, Some(path)) == p.diff@,
        p.diff@.len() == 0 && state::value_of(st.saved.diffs@, path) is Some ==> popup::saved_diff(
            st,
            p,
            Some(path),
        ) == state::value_of(st.saved.diffs@, path)->0@,
{
    if labels::bare(p.diff@) {
        texts::nothing_else_is_trimmed(p.diff@);
    }
    if p.diff@.len() == 0 {
        let ends: (int, int) = texts::trimming_takes_the_white_ends(p.diff@);
    }
}

/// What is opened out of the archive is the artifact of its run at the place that the archive keeps
/// for it.
pub proof fn archived_artifacts_are_opened_at_their_place(
    st: AppState,
    entry: OpenedEntry,
    syn: SyntaxTables,
    theme: Theme,
    width: int,
)
    requires
        entry.run is Some,
    ensures
        ({
            let i: int = entry.entry.artifact_index as int;
            let shown: Option<Seq<Seq<Piece>>> = content::archived_rows(
                st,
                entry,
                syn,
                theme,
                width,
            );
            let said: bool = entry.entry.kind@ == "PROMPT"@ || entry.entry.kind@ == "REPLY"@
                || entry.entry.kind@ == "PLAN"@ || entry.entry.kind@ == "SYNTH"@;
            &&& said && i < entry.run->0.messages@.len() && entry.run->0.messages@[i] is Some
                ==> shown == Some(
                content::message_rows(entry.run->0.messages@[i]->0, syn, theme, width),
            )
            &&& said && i >= entry.run->0.messages@.len() ==> shown is None
            &&& entry.entry.kind@ == "EVIDENCE"@ && i < entry.run->0.evidence@.len()
                && entry.run->0.evidence@[i] is Some ==> shown == Some(
                content::evidence_rows(entry.run->0.evidence@[i]->0, theme, width),
            )
        }),
{
    reveal_strlit("PROMPT");
    reveal_strlit("REPLY");
    reveal_strlit("PLAN");
    reveal_strlit("SYNTH");
    reveal_strlit("PATCH");
    reveal_strlit("EVIDENCE");
    assert("EVIDENCE"@.len() == 8);
    assert("PROMPT"@.len() == 6 && "REPLY"@.len() == 5 && "PLAN"@.len() == 4 && "SYNTH"@.len() == 5
        && "PATCH"@.len() == 5);
}

/// What is opened is what is referred to.
pub proof fn references_are_opened_as_what_they_are(
    st: AppState,
    swarm: SwarmRuntime,
    idx: usize,
    syn: SyntaxTables,
    theme: Theme,
    width: int,
)
    ensures
        idx < st.agents.messages@.len() ==> content::reference_rows(
            st,
            swarm,
            Reference::Message { idx },
            syn,
            theme,
            width,
        ) == Some(content::message_rows(st.agents.messages@[idx as int], syn, theme, width)),
        idx >= st.agents.messages@.len() ==> content::reference_rows(
            st,
            swarm,
            Reference::Message { idx },
            syn,
            theme,
            width,
        ) is None,
        idx < st.agents.evidence@.len() ==> content::reference_rows(
            st,
            swarm,
            Reference::Evidence { idx },
            syn,
            theme,
            width,
        ) == Some(content::evidence_rows(st.agents.evidence@[idx as int], theme, width)),
{
}

proof fn gate_is_shown(gates: Seq<GateReportGate>, theme: Theme, width: int, n: int, k: int) -> (at:
    int)
    requires
        0 <= k < n <= gates.len(),
    ensures
        ({
            let own: Seq<Seq<Piece>> = lines::item(
                " • "@,
                gates[k].name@ + " ["@ + (if gates[k].ok {
                    "PASS"@
                } else {
                    "FAIL"@
                }) + "] "@ + gates[k].command@,
                theme,
                width,
            );
            let all: Seq<Seq<Piece>> = views::gate_rows(gates, theme, width, n);
            &&& 0 <= at
            &&& at + own.len() <= all.len()
            &&& all.subrange(at, at + own.len()) == own
        }),
    decreases n,
{
    let own: Seq<Seq<Piece>> = lines::item(
        " • "@,
        gates[k].name@ + " ["@ + (if gates[k].ok {
            "PASS"@
        } else {
            "FAIL"@
        }) + "] "@ + gates[k].command@,
        theme,
        width,
    );
    let before: Seq<Seq<Piece>> = views::gate_rows(gates, theme, width, n - 1);
    let all: Seq<Seq<Piece>> = views::gate_rows(gates, theme, width, n);
    if k == n - 1 {
        let at: int = before.len() as int;
        assert(all.subrange(at, at + own.len()) =~= own);
        at
    } else {
        let at: int = gate_is_shown(gates, theme, width, n - 1, k);
        assert(all.subrange(at, at + own.len()) =~= before.subrange(at, at + own.len()));
        at
    }
}

/// The popup of a check shows every gate with its name, whether it is in order, and its command.
pub proof fn checks_show_every_gate(
    view: SwarmPersistenceView,
    syn: SyntaxTables,
    theme: Theme,
    width: int,
    k: int,
) -> (at: int)
    requires
        view.gate_report is Some,
        0 <= k < view.gate_report->0.gates@.len(),
    ensures
        ({
            let gate: GateReportGate = view.gate_report->0.gates@[k];
            let own: Seq<Seq<Piece>> = lines::item(
                " • "@,
                gate.name@ + " ["@ + (if gate.ok {
                    "PASS"@
                } else {
                    "FAIL"@
                }) + "] "@ + gate.command@,
                theme,
                width,
            );
            let all: Seq<Seq<Piece>> = views::verify_rows(view, syn, theme, width);
            &&& 0 <= at
            &&& at + own.len() <= all.len()
            &&& all.subrange(at, at + own.len()) == own
        }),
{
    reveal(views::verify_rows);
    let gates: Seq<GateReportGate> = view.gate_report->0.gates@;
    let gate: GateReportGate = gates[k];
    let own: Seq<Seq<Piece>> = lines::item(
        " • "@,
        gate.name@ + " ["@ + (if gate.ok {
            "PASS"@
        } else {
            "FAIL"@
        }) + "] "@ + gate.command@,
        theme,
        width,
    );
    let head: Seq<Seq<Piece>> = views::checks_head(view, theme, width) + views::section(
        " Gates"@,
        theme,
    );
    let inner: Seq<Seq<Piece>> = views::gate_rows(gates, theme, width, gates.len() as int);
    let all: Seq<Seq<Piece>> = views::verify_rows(view, syn, theme, width);
    let at: int = gate_is_shown(gates, theme, width, gates.len() as int, k);
    let from: int = head.len() + at;
    assert(all.subrange(from, from + own.len()) =~= inner.subrange(at, at + own.len()));
    from
}

proof fn string_goes_on(s: Seq<char>, i: int, end: int)
    requires
        0 <= i <= end < s.len(),
        forall|j: int| i <= j < end ==> #[trigger] s[j] != '"' && s[j] != '\\',
        s[end] == '"',
    ensures
        json::string_end(s, i, false) == Some(end + 1),
    decreases end - i,
{
    if i < end {
        string_goes_on(s, i + 1, end);
    }
}

/// A text in JSON reaches from its quotation mark to the next one; it is a key where a colon
/// follows, and a value where none does.
pub proof fn texts_in_json_are_keys_or_values(
    inner: Seq<char>,
    rest: Seq<char>,
    base: Style,
    theme: Theme,
)
    requires
        labels::lacks(inner, '"'),
        labels::lacks(inner, '\\'),
    ensures
        ({
            let s: Seq<char> = seq!['"'] + (inner + seq!['"'] + rest);
            let told: (int, Style) = json::token(s, 0, base, theme);
            &&& told.0 == inner.len() + 2
            &&& rest.len() > 0 && rest[0] == ':' ==> told.1 == base.fg(theme.hl.property).bold()
            &&& rest.len() > 0 && rest[0] != ':' && !text::white(rest[0]) ==> told.1 == base.fg(
                theme.hl.string,
            )
            &&& rest.len() == 0 ==> told.1 == base.fg(theme.hl.string)
        }),
{
    let s: Seq<char> = seq!['"'] + (inner + seq!['"'] + rest);
    let end: int = inner.len() + 1int;
    assert forall|j: int| 1 <= j < end implies #[trigger] s[j] != '"' && s[j] != '\\' by {
        assert(s[j] == inner[j - 1]);
    }
    assert(s[end] == '"');
    string_goes_on(s, 1, end);
    if rest.len() > 0 {
        assert(s[end + 1] == rest[0]);
    }
}

/// Numbers, brackets and the words of JSON have their own colors.
pub proof fn json_has_its_colors(s: Seq<char>, base: Style, theme: Theme)
    requires
        s.len() > 0,
    ensures
        '0' <= s[0] <= '9' ==> json::token(s, 0, base, theme).1 == base.fg(theme.hl.number).bold(),
        s[0] == '{' || s[0] == '}' || s[0] == '[' || s[0] == ']' || s[0] == ',' || s[0] == ':'
            ==> json::token(s, 0, base, theme) == (1int, base.fg(theme.hl.punctuation)),
        s.len() >= 4 && s.subrange(0, 4) == "true"@ ==> json::token(s, 0, base, theme) == (
            4int,
            base.fg(theme.hl.boolean).bold(),
        ),
{
    reveal_strlit("true");
    if s.len() >= 4 && s.subrange(0, 4) == "true"@ {
        assert(s.subrange(0, 4)[0] == s[0]);
        assert("true"@[0] == 't');
    }
}

/// Numbers, operators and commands in formulas have their own colors.
pub proof fn formulas_have_their_colors(s: Seq<char>, base: Style, theme: Theme)
    requires
        s.len() > 0,
    ensures
        '0' <= s[0] <= '9' ==> math::token(s, 0, base, theme).1 == base.fg(theme.hl.number).bold(),
        s[0] == '+' || s[0] == '=' || s[0] == '^' ==> math::token(s, 0, base, theme) == (
            1int,
            base.fg(theme.hl.operator).bold(),
        ),
        s[0] == '\\' ==> math::token(s, 0, base, theme).1 == base.fg(theme.hl.keyword).bold(),
        text::alpha(s[0]) ==> math::token(s, 0, base, theme) == (1int, base),
{
}

/// A code block is headed by its language: what the tag stands for, or the tag itself in small
/// letters.
pub proof fn code_is_headed_by_its_language(
    syn: SyntaxTables,
    tag: Seq<char>,
    lines: Seq<Seq<char>>,
    theme: Theme,
    width: int,
)
    requires
        labels::bare(tag),
    ensures
        ({
            let rows: Seq<Seq<Piece>> = code::shown_block(syn, tag, lines, theme, width);
            &&& rows.len() > 0
            &&& state::value_of(syn.aliases@, tag) is None ==> rows[0][0].text == " code block ("@
                + text::lowered_text(tag) + ")"@
            &&& state::value_of(syn.aliases@, tag) is Some && state::value_of(
                syn.aliases@,
                tag,
            )->0@.len() > 0 ==> rows[0][0].text == " code block ("@ + state::value_of(
                syn.aliases@,
                tag,
            )->0@ + ")"@
        }),
{
    texts::nothing_else_is_trimmed(tag);
}

proof fn block_is_of_code(blocks: Seq<CodeBlock>, lang: Seq<char>, held: Seq<char>, i: int)
    requires
        0 <= i,
    ensures
        match code::block_from(blocks, lang, held, i) {
            Some(b) => b.grammar@ == lang && b.text@ == held && blocks.contains(b),
            None => forall|j: int|
                i <= j < blocks.len() ==> !((#[trigger] blocks[j]).grammar@ == lang
                    && blocks[j].text@ == held),
        },
    decreases blocks.len() - i,
{
    if i < blocks.len() && !(blocks[i].grammar@ == lang && blocks[i].text@ == held) {
        block_is_of_code(blocks, lang, held, i + 1);
    }
}

/// Code takes its colors from an analysis of exactly this code, in exactly its language.
pub proof fn code_takes_the_colors_of_its_own_analysis(
    syn: SyntaxTables,
    lang: Seq<char>,
    held: Seq<char>,
)
    ensures
        code::analysed(syn, lang, held) matches Some(b) ==> b.text@ == held && code::grammar(
            syn,
            lang,
            held,
        ) == Some(b.grammar@) && syn.blocks@.contains(b),
{
    if code::grammar(syn, lang, held) is Some {
        block_is_of_code(syn.blocks@, code::grammar(syn, lang, held)->0, held, 0);
    }
}

proof fn others_are_kept(v: Seq<usize>, x: usize, n: int)
    requires
        0 <= n <= v.len(),
    ensures
        code::without(v, x, n).len() <= n,
        forall|j: int|
            0 <= j < n && v[j] != x ==> code::without(v, x, n).contains(#[trigger] v[j]),
        !code::without(v, x, n).contains(x),
    decreases n,
{
    if n > 0 {
        others_are_kept(v, x, n - 1);
        let before: Seq<usize> = code::without(v, x, n - 1);
        let all: Seq<usize> = code::without(v, x, n);
        assert forall|j: int| 0 <= j < n && v[j] != x implies all.contains(#[trigger] v[j]) by {
            if j < n - 1 {
                let k: int = before.index_of(v[j]);
                assert(before.contains(v[j]));
                assert(all[k] == v[j]);
            } else {
                assert(all[all.len() - 1] == v[j]);
            }
        }
        if all.contains(x) {
            let k: int = all.index_of(x);
            if k < before.len() {
                assert(before[k] == x);
            }
        }
    }
}

/// The block that was used last comes last among the recent ones, and the others stay as long as
/// there are not too many.
pub proof fn the_block_used_last_comes_last(v: Seq<usize>, id: usize, j: int)
    requires
        0 <= j < v.len() < 96,
    ensures
        code::touched(v, id).len() > 0,
        code::touched(v, id).last() == id,
        code::touched(v, id).contains(v[j]),
{
    others_are_kept(v, id, v.len() as int);
    let kept: Seq<usize> = code::without(v, id, v.len() as int);
    let all: Seq<usize> = code::touched(v, id);
    if v[j] == id {
        assert(all[all.len() - 1] == id);
    } else {
        let k: int = kept.index_of(v[j]);
        assert(kept.contains(v[j]));
        assert(all[k] == v[j]);
    }
}

} // verus!
