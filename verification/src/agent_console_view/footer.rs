//! What a swarm is set up for, below the table of its agents.

use vstd::prelude::*;

use crate::agent_console_view::rows;
use crate::agent_console_view::rows::Row;
use crate::agent_console_view::rows::ThreadRow;
use crate::agent_console_view::rows::ThreadRowKind;
use crate::fit;
use crate::state::AgentMessage;
use crate::state::AppState;
use crate::text;
use crate::wrap;

verus! {

/// A setting as it is shown.
pub open spec fn setting(value: Seq<char>) -> Seq<char> {
    let t: Seq<char> = text::trimmed(value);
    if t.len() == 0 || text::same_letters(t, "(none)"@) {
        "—"@
    } else if text::same_letters(t, "none"@) || text::same_letters(t, "none (config)"@)
        || text::starts(t, "(none)"@) {
        "none"@
    } else {
        t
    }
}

pub fn normalize_swarm_meta_value(value: &str) -> (r: String)
    ensures
        r@ == setting(value@),
{
    let bare: String = text::trim(value);
    let t: &str = bare.as_str();
    if text::length(t) == 0 || text::eq_ignore_case(t, "(none)") {
        text::copy("—")
    } else if text::eq_ignore_case(t, "none") || text::eq_ignore_case(t, "none (config)")
        || text::starts_with(t, "(none)") {
        text::copy("none")
    } else {
        bare
    }
}

/// The name of a set of checks without what stands in brackets behind it.
pub open spec fn bundle(value: Seq<char>) -> Seq<char> {
    let t: Seq<char> = text::trimmed(value);
    match text::around(t, " ("@) {
        Some(parts) => text::trimmed(parts.0),
        None => t,
    }
}

pub fn short_gate_bundle_label(value: &str) -> (r: String)
    ensures
        r@ == bundle(value@),
{
    let t: String = text::trim(value);
    match text::split_once(t.as_str(), " (") {
        Some(parts) => text::trim(parts.0.as_str()),
        None => t,
    }
}

/// What follows a prefix, without white space around it; nothing where nothing follows.
pub open spec fn behind(s: Seq<char>, prefix: Seq<char>) -> Option<Seq<char>> {
    match text::after_prefix(text::trimmed(s), prefix) {
        Some(rest) => if text::trimmed(rest).len() > 0 {
            Some(text::trimmed(rest))
        } else {
            None
        },
        None => None,
    }
}

fn text_behind(s: &str, prefix: &str) -> (r: Option<String>)
    ensures
        text::opt_text(r) == behind(s@, prefix@),
{
    let bare: String = text::trim(s);
    match text::strip_prefix(bare.as_str(), prefix) {
        Some(rest) => {
            let value: String = text::trim(rest.as_str());
            if text::length(value.as_str()) > 0 {
                Some(value)
            } else {
                None
            }
        },
        None => None,
    }
}

pub fn parse_swarm_gates_line(s: &str) -> (r: Option<String>)
    ensures
        text::opt_text(r) == (match behind(s@, "Swarm gates:"@) {
            Some(rest) => Some(setting(bundle(rest))),
            None => None,
        }),
{
    match text_behind(s, "Swarm gates:") {
        Some(rest) => {
            let label: String = short_gate_bundle_label(rest.as_str());
            Some(normalize_swarm_meta_value(label.as_str()))
        },
        None => None,
    }
}

pub fn parse_verify_status_line(s: &str) -> (r: Option<String>)
    ensures
        text::opt_text(r) == behind(s@, "VERIFY result:"@),
{
    text_behind(s, "VERIFY result:")
}

/// The parts of a text between separators.
pub open spec fn parts_at(s: Seq<char>, sep: Seq<char>) -> Seq<Seq<char>>
    decreases s.len(),
{
    match text::around(s, sep) {
        Some(p) => if p.1.len() < s.len() {
            seq![p.0] + parts_at(p.1, sep)
        } else {
            seq![s]
        },
        None => seq![s],
    }
}

fn split_parts(s: &str, sep: &str) -> (r: Vec<String>)
    ensures
        text::texts(r@) == parts_at(s@, sep@),
    decreases s@.len(),
{
    match text::split_once(s, sep) {
        Some(p) => if text::length(p.1.as_str()) < text::length(s) {
            let first: String = p.0;
            let mut rest: Vec<String> = split_parts(p.1.as_str(), sep);
            let ghost behind: Seq<Seq<char>> = text::texts(rest@);
            let ghost head: Seq<char> = first@;
            let mut out: Vec<String> = vec![first];
            out.append(&mut rest);
            assert(text::texts(out@) =~= seq![head] + behind);
            out
        } else {
            let out: Vec<String> = vec![text::copy(s)];
            assert(text::texts(out@) =~= seq![s@]);
            out
        },
        None => {
            let out: Vec<String> = vec![text::copy(s)];
            assert(text::texts(out@) =~= seq![s@]);
            out
        },
    }
}

/// The value of the last part among the first `n`, but the very first one, that starts with `key`.
pub open spec fn last_value(
    parts: Seq<Seq<char>>,
    key: Seq<char>,
    n: int,
) -> Option<Seq<char>>
    decreases n,
{
    if n <= 1 {
        None
    } else {
        match text::after_prefix(text::trimmed(parts[n - 1]), key) {
            Some(v) => Some(v),
            None => last_value(parts, key, n - 1),
        }
    }
}

fn find_last_value(parts: &Vec<String>, key: &str) -> (r: Option<String>)
    ensures
        text::opt_text(r) == last_value(text::texts(parts@), key@, parts@.len() as int),
{
    let ghost all: Seq<Seq<char>> = text::texts(parts@);
    let mut n: usize = parts.len();
    while n > 1
        invariant
            n <= parts@.len(),
            all == text::texts(parts@),
            last_value(all, key@, parts@.len() as int) == last_value(all, key@, n as int),
        decreases n,
    {
        assert(all[n - 1] == parts@[n - 1]@);
        let bare: String = text::trim(parts[n - 1].as_str());
        if let Some(v) = text::strip_prefix(bare.as_str(), key) {
            return Some(v);
        }
        n -= 1;
    }
    None
}

/// A setting that was found, as it is shown.
pub open spec fn opt_setting(value: Option<Seq<char>>) -> Option<Seq<char>> {
    match value {
        Some(v) => Some(setting(v)),
        None => None,
    }
}

fn opt_setting_of(value: Option<String>) -> (r: Option<String>)
    ensures
        text::opt_text(r) == opt_setting(text::opt_text(value)),
{
    match value {
        Some(v) => Some(normalize_swarm_meta_value(v.as_str())),
        None => None,
    }
}

/// What is set for a swarm.
pub struct SwarmFooterMeta {
    pub template: Option<String>,
    pub mission: Option<String>,
    pub integrator: Option<String>,
    pub verifier: Option<String>,
    pub gates: Option<String>,
    pub status: Option<String>,
    pub notes: Vec<String>,
}

/// What is set for a swarm, as values.
pub struct Footer {
    pub template: Option<Seq<char>>,
    pub mission: Option<Seq<char>>,
    pub integrator: Option<Seq<char>>,
    pub verifier: Option<Seq<char>>,
    pub gates: Option<Seq<char>>,
    pub status: Option<Seq<char>>,
    pub notes: Seq<Seq<char>>,
}

impl View for SwarmFooterMeta {
    type V = Footer;

    open spec fn view(&self) -> Footer {
        Footer {
            template: text::opt_text(self.template),
            mission: text::opt_text(self.mission),
            integrator: text::opt_text(self.integrator),
            verifier: text::opt_text(self.verifier),
            gates: text::opt_text(self.gates),
            status: text::opt_text(self.status),
            notes: text::texts(self.notes@),
        }
    }
}

pub open spec fn no_footer() -> Footer {
    Footer {
        template: None,
        mission: None,
        integrator: None,
        verifier: None,
        gates: None,
        status: None,
        notes: Seq::empty(),
    }
}

/// What the line on the template of a swarm sets.
pub open spec fn template_line(s: Seq<char>) -> Option<Footer> {
    match text::after_prefix(text::trimmed(s), "Swarm template:"@) {
        Some(rest) => {
            let parts: Seq<Seq<char>> = parts_at(text::trimmed(rest), " | "@);
            let n: int = parts.len() as int;
            if text::trimmed(parts[0]).len() == 0 {
                None
            } else {
                Some(
                    Footer {
                        template: Some(setting(text::trimmed(parts[0]))),
                        mission: opt_setting(last_value(parts, "mission:"@, n)),
                        integrator: opt_setting(last_value(parts, "integrator:"@, n)),
                        verifier: opt_setting(last_value(parts, "verifier:"@, n)),
                        gates: (match last_value(parts, "gates:"@, n) {
                            Some(v) => Some(setting(bundle(v))),
                            None => None,
                        }),
                        status: None,
                        notes: Seq::empty(),
                    },
                )
            }
        },
        None => None,
    }
}

proof fn some_part(s: Seq<char>, sep: Seq<char>)
    ensures
        parts_at(s, sep).len() > 0,
{
}

pub fn parse_swarm_template_meta(s: &str) -> (r: Option<SwarmFooterMeta>)
    ensures
        match r {
            Some(m) => template_line(s@) == Some(m@),
            None => template_line(s@) is None,
        },
{
    broadcast use text::group_texts;

    let bare: String = text::trim(s);
    let rest: String = match text::strip_prefix(bare.as_str(), "Swarm template:") {
        Some(rest) => text::trim(rest.as_str()),
        None => {
            return None;
        },
    };
    let parts: Vec<String> = split_parts(rest.as_str(), " | ");
    proof {
        some_part(rest@, " | "@);
    }
    assert(text::texts(parts@)[0] == parts@[0]@);
    let first: String = text::trim(parts[0].as_str());
    if text::length(first.as_str()) == 0 {
        return None;
    }
    let gates: Option<String> = match find_last_value(&parts, "gates:") {
        Some(v) => {
            let label: String = short_gate_bundle_label(v.as_str());
            Some(normalize_swarm_meta_value(label.as_str()))
        },
        None => None,
    };
    let r: SwarmFooterMeta = SwarmFooterMeta {
        template: Some(normalize_swarm_meta_value(first.as_str())),
        mission: opt_setting_of(find_last_value(&parts, "mission:")),
        integrator: opt_setting_of(find_last_value(&parts, "integrator:")),
        verifier: opt_setting_of(find_last_value(&parts, "verifier:")),
        gates,
        status: None,
        notes: Vec::new(),
    };
    assert(r@.notes =~= Seq::<Seq<char>>::empty());
    Some(r)
}

/// What was known before, or else what is found now.
pub open spec fn or_else(old: Option<Seq<char>>, new: Option<Seq<char>>) -> Option<Seq<char>> {
    match old {
        Some(v) => Some(v),
        None => new,
    }
}

fn take_or(old: Option<String>, new: Option<String>) -> (r: Option<String>)
    ensures
        text::opt_text(r) == or_else(text::opt_text(old), text::opt_text(new)),
{
    match old {
        Some(v) => Some(v),
        None => new,
    }
}

/// What is known of a swarm once one more of its messages, an older one, is read.
pub open spec fn with_message(m: Footer, s: Seq<char>) -> Footer {
    let t: Seq<char> = text::trimmed(s);
    let gates: Option<Seq<char>> = match behind(t, "Swarm gates:"@) {
        Some(rest) => Some(setting(bundle(rest))),
        None => None,
    };
    let status: Option<Seq<char>> = behind(t, "VERIFY result:"@);
    match template_line(t) {
        Some(l) => Footer {
            template: or_else(m.template, l.template),
            mission: or_else(m.mission, l.mission),
            integrator: or_else(m.integrator, l.integrator),
            verifier: or_else(m.verifier, l.verifier),
            gates: or_else(m.gates, l.gates),
            ..m
        },
        None => if m.gates is None && gates is Some {
            Footer { gates, ..m }
        } else if m.status is None && status is Some {
            Footer { status, ..m }
        } else if text::starts(t, "Swarm "@) || text::starts(t, "VERIFY"@) {
            Footer { notes: m.notes.push(t), ..m }
        } else {
            m
        },
    }
}

fn add_message(m: SwarmFooterMeta, s: &str) -> (r: SwarmFooterMeta)
    ensures
        r@ == with_message(m@, s@),
{
    broadcast use text::group_texts;

    let bare: String = text::trim(s);
    let t: &str = bare.as_str();
    let mut out: SwarmFooterMeta = m;
    if let Some(l) = parse_swarm_template_meta(t) {
        let r: SwarmFooterMeta = SwarmFooterMeta {
            template: take_or(out.template, l.template),
            mission: take_or(out.mission, l.mission),
            integrator: take_or(out.integrator, l.integrator),
            verifier: take_or(out.verifier, l.verifier),
            gates: take_or(out.gates, l.gates),
            status: out.status,
            notes: out.notes,
        };
        return r;
    }
    if out.gates.is_none() {
        if let Some(g) = parse_swarm_gates_line(t) {
            out.gates = Some(g);
            return out;
        }
    }
    if out.status.is_none() {
        if let Some(v) = parse_verify_status_line(t) {
            out.status = Some(v);
            return out;
        }
    }
    if text::starts_with(t, "Swarm ") || text::starts_with(t, "VERIFY") {
        out.notes.push(text::copy(t));
    }
    out
}

/// Whether a message is the swarm's on a mission.
pub open spec fn on_swarm(msg: AgentMessage, mission: Seq<char>) -> bool {
    text::opt_text(msg.mission_id) == Some(mission) && text::opt_text(msg.agent_id) == Some(
        "swarm"@,
    )
}

/// What the messages from `n` on say of a swarm: the last word counts.
pub open spec fn collected(messages: Seq<AgentMessage>, mission: Seq<char>, n: int) -> Footer
    decreases messages.len() - n,
{
    if n < 0 || n >= messages.len() {
        no_footer()
    } else {
        let later: Footer = collected(messages, mission, n + 1);
        if on_swarm(messages[n], mission) {
            with_message(later, messages[n].text@)
        } else {
            later
        }
    }
}

/// What is known of a swarm, with three notes at most; nothing where nothing is.
pub open spec fn footer(st: AppState, mission: Seq<char>) -> Option<Footer> {
    let all: Footer = collected(st.agents.messages@, mission, 0);
    let few: Footer = Footer {
        notes: if all.notes.len() > 3 {
            all.notes.take(3)
        } else {
            all.notes
        },
        ..all
    };
    if few.template is None && few.mission is None && few.integrator is None && few.verifier is None
        && few.gates is None && few.status is None && few.notes.len() == 0 {
        None
    } else {
        Some(few)
    }
}

pub fn collect_swarm_footer_meta(st: &AppState, mission_id: &str) -> (r: Option<SwarmFooterMeta>)
    ensures
        match r {
            Some(m) => footer(*st, mission_id@) == Some(m@),
            None => footer(*st, mission_id@) is None,
        },
{
    let mut meta: SwarmFooterMeta = SwarmFooterMeta {
        template: None,
        mission: None,
        integrator: None,
        verifier: None,
        gates: None,
        status: None,
        notes: Vec::new(),
    };
    assert(meta@.notes =~= Seq::<Seq<char>>::empty());
    let msgs: &Vec<AgentMessage> = &st.agents.messages;
    let mut n: usize = msgs.len();
    while n > 0
        invariant
            n <= msgs@.len(),
            meta@ == collected(msgs@, mission_id@, n as int),
        decreases n,
    {
        n -= 1;
        if text::opt_str_eq(&msgs[n].mission_id, mission_id) && text::opt_str_eq(
            &msgs[n].agent_id,
            "swarm",
        ) {
            meta = add_message(meta, msgs[n].text.as_str());
        }
    }
    let ghost all: Footer = meta@;
    if meta.notes.len() > 3 {
        meta.notes.truncate(3);
        assert(text::texts(meta.notes@) =~= all.notes.take(3));
    }
    if meta.template.is_none() && meta.mission.is_none() && meta.integrator.is_none()
        && meta.verifier.is_none() && meta.gates.is_none() && meta.status.is_none()
        && meta.notes.len() == 0 {
        assert(meta@.notes.len() == 0);
        None
    } else {
        assert(meta@.notes.len() == meta.notes@.len());
        Some(meta)
    }
}

/// One entry of the footer, wrapped below its label.
pub open spec fn entry(label: Seq<char>, value: Seq<char>, width: int) -> Seq<Row> {
    let prefix: Seq<char> = "• "@ + label + ": "@;
    let lines: Seq<Seq<char>> = wrap::visual_lines(
        value,
        text::max_int(text::monus(text::max_int(width, 1), prefix.len() as int), 1),
    );
    Seq::new(
        lines.len(),
        |i: int|
            rows::row(
                fit::padded(
                    if i == 0 {
                        prefix + lines[i]
                    } else {
                        text::fill(' ', prefix.len()) + lines[i]
                    },
                    width,
                ),
                ThreadRowKind::StatusSubRow,
            ),
    )
}

pub fn append_swarm_footer_entry(out: &mut Vec<ThreadRow>, width: usize, label: &str, value: &str)
    ensures
        rows::rows(final(out)@) == rows::rows(old(out)@) + entry(label@, value@, width as int),
{
    broadcast use rows::group_rows;

    let ghost before: Seq<Row> = rows::rows(out@);
    let prefix: String = text::cat3("• ", label, ": ");
    let n: usize = text::length(prefix.as_str());
    let room: usize = text::max_of(text::minus(text::max_of(width, 1), n), 1);
    let lines: Vec<String> = wrap::wrap_visual_line(value, room);
    let space: String = text::filled(' ', n);
    let ghost all: Seq<Row> = entry(label@, value@, width as int);
    let mut i: usize = 0;
    assert(all.len() == lines@.len());
    assert(before + all.take(0) =~= before);
    while i < lines.len()
        invariant
            i <= lines@.len(),
            prefix@ == "• "@ + label@ + ": "@,
            n == prefix@.len(),
            room == text::max_int(text::monus(text::max_int(width as int, 1), n as int), 1),
            space@ == text::fill(' ', n as nat),
            text::texts(lines@) == wrap::visual_lines(value@, room as int),
            all == entry(label@, value@, width as int),
            rows::rows(out@) == before + all.take(i as int),
        decreases lines@.len() - i,
    {
        assert(text::texts(lines@)[i as int] == lines@[i as int]@);
        let line: String = if i == 0 {
            text::cat2(prefix.as_str(), lines[i].as_str())
        } else {
            text::cat2(space.as_str(), lines[i].as_str())
        };
        rows::push_row(
            out,
            fit::pad_to_width(line.as_str(), width),
            ThreadRowKind::StatusSubRow,
        );
        i += 1;
        assert(before + all.take(i as int) =~= before + all.take(i - 1) + seq![all[i - 1]]);
    }
    assert(all.take(i as int) =~= all);
}

/// An entry where its value is known and it is to be shown.
pub open spec fn opt_entry(show: bool, label: Seq<char>, value: Option<Seq<char>>, width: int) -> Seq<
    Row,
> {
    match value {
        Some(v) if show => entry(label, v, width),
        _ => Seq::empty(),
    }
}

fn push_opt_entry(
    out: &mut Vec<ThreadRow>,
    show: bool,
    label: &str,
    value: &Option<String>,
    width: usize,
)
    ensures
        rows::rows(final(out)@) == rows::rows(old(out)@) + opt_entry(
            show,
            label@,
            text::opt_text(*value),
            width as int,
        ),
{
    broadcast use rows::group_rows;

    if show {
        if let Some(v) = value {
            append_swarm_footer_entry(out, width, label, v.as_str());
        }
    }
}

/// Whether an entry of the footer is to be shown: the essential ones alone while agents work.
pub open spec fn any_entry(m: Footer, working: bool) -> bool {
    m.mission is Some || m.gates is Some || m.notes.len() > 0 || (!working && (m.template is Some
        || m.integrator is Some || m.verifier is Some || m.status is Some))
}

/// The entries of the footer.
#[verifier::opaque]
pub open spec fn entries(m: Footer, working: bool, width: int) -> Seq<Row> {
    opt_entry(!working, "Template"@, m.template, width) + opt_entry(
        true,
        "Mission"@,
        m.mission,
        width,
    ) + opt_entry(!working, "Integrator"@, m.integrator, width) + opt_entry(
        !working,
        "Verifier"@,
        m.verifier,
        width,
    ) + opt_entry(true, "Gates"@, m.gates, width) + opt_entry(
        !working,
        "Status"@,
        m.status,
        width,
    ) + opt_entry(
        m.notes.len() > 0,
        "Notes"@,
        Some(text::joined(m.notes, " | "@)),
        width,
    )
}

fn push_entries(out: &mut Vec<ThreadRow>, m: &SwarmFooterMeta, working: bool, width: usize)
    ensures
        rows::rows(final(out)@) == rows::rows(old(out)@) + entries(m@, working, width as int),
{
    reveal(entries);
    broadcast use rows::group_rows;

    let noted: bool = m.notes.len() > 0;
    assert(noted == (m@.notes.len() > 0));
    push_opt_entry(out, !working, "Template", &m.template, width);
    push_opt_entry(out, true, "Mission", &m.mission, width);
    push_opt_entry(out, !working, "Integrator", &m.integrator, width);
    push_opt_entry(out, !working, "Verifier", &m.verifier, width);
    push_opt_entry(out, true, "Gates", &m.gates, width);
    push_opt_entry(out, !working, "Status", &m.status, width);
    let notes: Option<String> = Some(text::join(&m.notes, " | "));
    push_opt_entry(out, noted, "Notes", &notes, width);
}

/// A rule across the footer.
pub open spec fn footer_rule(width: int) -> Row {
    rows::row(
        fit::padded(text::fill('─', text::max_int(width, 1) as nat), width),
        ThreadRowKind::StatusHeader,
    )
}

/// An empty row.
pub open spec fn empty_row(width: int) -> Row {
    rows::row(fit::padded(""@, width), ThreadRowKind::StatusRow)
}

/// The footer on a swarm.
pub open spec fn footer_rows(
    st: AppState,
    mission: Seq<char>,
    working: bool,
    width: int,
) -> Seq<Row> {
    match footer(st, mission) {
        Some(m) if any_entry(m, working) => seq![
            empty_row(width),
            footer_rule(width),
            rows::row(fit::padded("Swarm"@, width), ThreadRowKind::StatusHeader),
        ] + entries(m, working, width) + seq![footer_rule(width), empty_row(width)],
        _ => Seq::empty(),
    }
}

fn push_rule(out: &mut Vec<ThreadRow>, width: usize)
    ensures
        rows::rows(final(out)@) == rows::rows(old(out)@) + seq![footer_rule(width as int)],
{
    let line: String = text::filled('─', text::max_of(width, 1));
    rows::push_row(out, fit::pad_to_width(line.as_str(), width), ThreadRowKind::StatusHeader);
}

pub fn append_swarm_meta_footer_rows(
    out: &mut Vec<ThreadRow>,
    st: &AppState,
    mission_id: &str,
    width: usize,
    working: bool,
)
    ensures
        rows::rows(final(out)@) == rows::rows(old(out)@) + footer_rows(
            *st,
            mission_id@,
            working,
            width as int,
        ),
{
    broadcast use rows::group_rows;

    let meta: SwarmFooterMeta = match collect_swarm_footer_meta(st, mission_id) {
        Some(m) => m,
        None => {
            return;
        },
    };
    let noted: bool = meta.notes.len() > 0;
    assert(noted == (meta@.notes.len() > 0));
    let any: bool = meta.mission.is_some() || meta.gates.is_some() || noted || (!working && (
    meta.template.is_some() || meta.integrator.is_some() || meta.verifier.is_some()
        || meta.status.is_some()));
    if !any {
        return;
    }
    let ghost before: Seq<Row> = rows::rows(out@);
    rows::push_row(out, fit::pad_to_width("", width), ThreadRowKind::StatusRow);
    push_rule(out, width);
    rows::push_row(out, fit::pad_to_width("Swarm", width), ThreadRowKind::StatusHeader);
    let ghost head: Seq<Row> = seq![
        empty_row(width as int),
        footer_rule(width as int),
        rows::row(fit::padded("Swarm"@, width as int), ThreadRowKind::StatusHeader),
    ];
    assert(rows::rows(out@) =~= before + head);
    push_entries(out, &meta, working, width);
    let ghost full: Seq<Row> = rows::rows(out@);
    push_rule(out, width);
    rows::push_row(out, fit::pad_to_width("", width), ThreadRowKind::StatusRow);
    assert(rows::rows(out@) =~= full + seq![footer_rule(width as int), empty_row(width as int)]);
}

} // verus!
