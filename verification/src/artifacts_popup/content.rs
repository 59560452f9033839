//! What the popup shows.

use vstd::prelude::*;

use crate::agent_ops_view::archive::GlobalArchiveEntry;
use crate::agent_ops_view::cards::ArtifactsPopupRef;
use crate::agent_ops_view::cards::Reference;
use crate::agent_ops_view::popup;
use crate::agent_ops_view::swarm_details;
use crate::artifacts_popup::code::SyntaxTables;
use crate::artifacts_popup::lines;
use crate::artifacts_popup::markdown;
use crate::artifacts_popup::views;
use crate::state;
use crate::state::AgentMessage;
use crate::state::AppState;
use crate::state::EvidenceItem;
use crate::state::Patch;
use crate::state::PersistedPatchRecord;
use crate::state::SwarmRuntime;
use crate::style;
use crate::style::Line;
use crate::style::Piece;
use crate::style::Span;
use crate::style::Style;
use crate::style::Theme;
use crate::text;

verus! {

/// A change of an archived run and the file that holds its text.
pub struct ArchivedPatch {
    pub patch: PersistedPatchRecord,
    pub path: Option<String>,
}

/// An archived run: its items in order, nothing where one could not be read.
pub struct ArchivedItems {
    pub messages: Vec<Option<AgentMessage>>,
    pub patches: Vec<Option<ArchivedPatch>>,
    pub evidence: Vec<Option<EvidenceItem>>,
}

/// The entry of the archive that was opened, and its run where that could be read.
pub struct OpenedEntry {
    pub entry: GlobalArchiveEntry,
    pub run: Option<ArchivedItems>,
}

/// What kind of message it is.
pub open spec fn message_kind(m: AgentMessage) -> Seq<char> {
    if m.agent_id is None {
        "PROMPT"@
    } else if text::opt_text(m.kind) == Some("synth"@) {
        "SYNTH"@
    } else if text::opt_text(m.kind) == Some("plan"@) {
        "PLAN"@
    } else {
        "REPLY"@
    }
}

/// A message.
#[verifier::opaque]
pub open spec fn message_rows(m: AgentMessage, syn: SyntaxTables, theme: Theme, width: int) -> Seq<
    Seq<Piece>,
> {
    let owner: Seq<char> = swarm_details::text_or(m.agent_id, "You"@);
    let at: Seq<char> = if text::trimmed(m.at@).len() == 0 {
        "--"@
    } else {
        m.at@
    };
    seq![
        seq![
            style::piece(
                " "@ + message_kind(m) + "  "@ + owner + "  "@ + at,
                lines::title_style(theme),
            ),
        ],
    ] + seq![lines::rule(width, theme)] + seq![lines::key_value("at:"@, m.at@, theme)] + seq![
        lines::key_value("mission:"@, swarm_details::text_or(m.mission_id, "ad-hoc"@), theme),
    ] + seq![lines::key_value("agent:"@, owner, theme)] + seq![lines::rule(width, theme)] + (
    if text::trimmed(m.text@).len() == 0 {
        seq![seq![style::piece(" (no content)"@, lines::label_style(theme))]]
    } else {
        markdown::document(text::trimmed(m.text@), syn, theme, width)
    })
}

pub fn build_message_lines(m: &AgentMessage, syn: &SyntaxTables, theme: &Theme, width: usize) -> (r:
    Vec<Line>)
    ensures
        style::rows(r@) == message_rows(*m, *syn, *theme, width as int),
{
    reveal(message_rows);
    broadcast use {style::group_lines, style::group_line_lists};

    let kind: &str = if m.agent_id.is_none() {
        "PROMPT"
    } else if text::opt_str_eq(&m.kind, "synth") {
        "SYNTH"
    } else if text::opt_str_eq(&m.kind, "plan") {
        "PLAN"
    } else {
        "REPLY"
    };
    let owner: String = swarm_details::string_or(&m.agent_id, "You");
    let at: &str = if text::is_blank(m.at.as_str()) {
        "--"
    } else {
        m.at.as_str()
    };
    let title: String = text::cat6(" ", kind, "  ", owner.as_str(), "  ", at);
    let mut out: Vec<Line> = Vec::new();
    style::push_line(&mut out, style::single(title, lines::title_style(*theme)));
    style::push_line(&mut out, lines::popup_rule_line(width, theme));
    style::push_line(&mut out, lines::kv_line("at:", m.at.as_str(), theme));
    let mission: String = swarm_details::string_or(&m.mission_id, "ad-hoc");
    style::push_line(&mut out, lines::kv_line("mission:", mission.as_str(), theme));
    style::push_line(&mut out, lines::kv_line("agent:", owner.as_str(), theme));
    style::push_line(&mut out, lines::popup_rule_line(width, theme));
    let body: String = text::trim(m.text.as_str());
    if text::length(body.as_str()) == 0 {
        style::push_line(
            &mut out,
            style::single(text::copy(" (no content)"), lines::label_style(*theme)),
        );
    } else {
        let more: Vec<Line> = markdown::render_markdown_document(
            body.as_str(),
            syn,
            theme,
            width,
        );
        style::append_lines(&mut out, more);
    }
    out
}

/// The style of a line of a change.
pub open spec fn change_style(s: Seq<char>, theme: Theme) -> Style {
    Style::plain().fg(
        if text::starts(s, "+"@) && !text::starts(s, "+++"@) {
            theme.success
        } else if text::starts(s, "-"@) && !text::starts(s, "---"@) {
            theme.error
        } else if text::starts(s, "@@"@) {
            theme.title_focused
        } else {
            theme.foreground
        },
    )
}

pub fn diff_line_style(s: &str, theme: &Theme) -> (r: Style)
    ensures
        r == change_style(s@, *theme),
{
    Style::plain().fg(
        if text::starts_with(s, "+") && !text::starts_with(s, "+++") {
            theme.success
        } else if text::starts_with(s, "-") && !text::starts_with(s, "---") {
            theme.error
        } else if text::starts_with(s, "@@") {
            theme.title_focused
        } else {
            theme.foreground
        },
    )
}

/// Lines behind a space, each in the style of a change or all in one.
pub open spec fn spaced(all: Seq<Seq<char>>, change: bool, theme: Theme) -> Seq<Seq<Piece>> {
    Seq::new(
        all.len(),
        |i: int|
            seq![
                style::piece(
                    " "@ + all[i],
                    if change {
                        change_style(all[i], theme)
                    } else {
                        Style::plain().fg(theme.foreground)
                    },
                ),
            ],
    )
}

fn push_spaced(out: &mut Vec<Line>, s: &str, change: bool, theme: &Theme)
    ensures
        style::rows(final(out)@) == style::rows(old(out)@) + spaced(
            text::lines_of(s@),
            change,
            *theme,
        ),
{
    let all: Vec<String> = text::lines(s);
    let ghost before: Seq<Seq<Piece>> = style::rows(out@);
    let ghost want: Seq<Seq<Piece>> = spaced(text::texts(all@), change, *theme);
    let mut i: usize = 0;
    assert(before + want.take(0) =~= before);
    while i < all.len()
        invariant
            i <= all@.len(),
            want == spaced(text::texts(all@), change, *theme),
            style::rows(out@) == before + want.take(i as int),
        decreases all@.len() - i,
    {
        assert(text::texts(all@)[i as int] == all@[i as int]@);
        let look: Style = if change {
            diff_line_style(all[i].as_str(), theme)
        } else {
            Style::plain().fg(theme.foreground)
        };
        style::push_line(out, style::single(text::cat2(" ", all[i].as_str()), look));
        i += 1;
        assert(before + want.take(i as int) =~= before + want.take(i - 1) + seq![want[i - 1]]);
    }
    assert(want.take(i as int) =~= want);
}

/// A line with a label, where there is a value.
pub open spec fn key_value_if_any(label: Seq<char>, value: Seq<char>, theme: Theme) -> Seq<Seq<Piece>> {
    if value.len() > 0 {
        seq![lines::key_value(label, value, theme)]
    } else {
        Seq::empty()
    }
}

fn push_kv_if_any(out: &mut Vec<Line>, label: &str, value: &str, theme: &Theme)
    ensures
        style::rows(final(out)@) == style::rows(old(out)@) + key_value_if_any(
            label@,
            value@,
            *theme,
        ),
{
    broadcast use style::group_line_lists;

    if text::length(value) > 0 {
        style::push_line(out, lines::kv_line(label, value, theme));
    }
}

/// A change, with the text that was found for it.
#[verifier::opaque]
pub open spec fn patch_rows(p: PersistedPatchRecord, diff: Seq<char>, theme: Theme, width: int) -> Seq<
    Seq<Piece>,
> {
    seq![lines::title(" PATCH  "@ + p.agent_id@ + "  "@ + p.status@, theme)] + seq![
        lines::rule(width, theme),
    ] + seq![lines::key_value("id:"@, p.id@, theme)] + seq![
        lines::key_value("title:"@, p.title@, theme),
    ] + key_value_if_any("summary:"@, p.summary@, theme) + seq![
        lines::key_value("mission:"@, swarm_details::text_or(p.mission_id, "ad-hoc"@), theme),
    ] + seq![lines::rule(width, theme)] + (if text::trimmed(diff).len() == 0 {
        seq![seq![style::piece(" (no diff content)"@, lines::label_style(theme))]]
    } else {
        spaced(text::lines_of(diff), true, theme)
    })
}

fn patch_lines_with(p: &PersistedPatchRecord, diff: &str, theme: &Theme, width: usize) -> (r: Vec<
    Line,
>)
    ensures
        style::rows(r@) == patch_rows(*p, diff@, *theme, width as int),
{
    reveal(patch_rows);
    broadcast use {style::group_lines, style::group_line_lists};

    let title: String = text::cat4(" PATCH  ", p.agent_id.as_str(), "  ", p.status.as_str());
    let mut out: Vec<Line> = Vec::new();
    style::push_line(&mut out, lines::popup_title_line(title.as_str(), theme));
    style::push_line(&mut out, lines::popup_rule_line(width, theme));
    style::push_line(&mut out, lines::kv_line("id:", p.id.as_str(), theme));
    style::push_line(&mut out, lines::kv_line("title:", p.title.as_str(), theme));
    push_kv_if_any(&mut out, "summary:", p.summary.as_str(), theme);
    let mission: String = swarm_details::string_or(&p.mission_id, "ad-hoc");
    style::push_line(&mut out, lines::kv_line("mission:", mission.as_str(), theme));
    style::push_line(&mut out, lines::popup_rule_line(width, theme));
    if text::is_blank(diff) {
        style::push_line(
            &mut out,
            style::single(text::copy(" (no diff content)"), lines::label_style(*theme)),
        );
    } else {
        push_spaced(&mut out, diff, true, theme);
    }
    out
}

/// A change whose text is its own, or that of its file where it has none.
pub fn build_persisted_patch_lines(
    st: &AppState,
    p: &PersistedPatchRecord,
    path: &Option<String>,
    theme: &Theme,
    width: usize,
) -> (r: Vec<Line>)
    ensures
        style::rows(r@) == patch_rows(
            *p,
            popup::saved_diff(*st, *p, text::opt_text(*path)),
            *theme,
            width as int,
        ),
{
    let diff: String = popup::persisted_patch_diff_excerpt(st, p, path);
    patch_lines_with(p, diff.as_str(), theme, width)
}

/// A finding.
#[verifier::opaque]
pub open spec fn evidence_rows(e: EvidenceItem, theme: Theme, width: int) -> Seq<Seq<Piece>> {
    let body: Seq<char> = text::trimmed(e.detail@);
    seq![
        lines::title(" EVIDENCE  "@ + swarm_details::text_or(e.agent_id, "system"@), theme),
    ] + seq![lines::rule(width, theme)] + seq![lines::key_value("title:"@, e.title@, theme)]
        + seq![
        lines::key_value("mission:"@, swarm_details::text_or(e.mission_id, "ad-hoc"@), theme),
    ] + key_value_if_any("link:"@, swarm_details::text_or(e.link, ""@), theme) + seq![
        lines::rule(width, theme),
    ] + (if body.len() == 0 {
        seq![seq![style::piece(" (no content)"@, lines::label_style(theme))]]
    } else {
        spaced(text::lines_of(body), false, theme)
    })
}

pub fn build_persisted_evidence_lines(e: &EvidenceItem, theme: &Theme, width: usize) -> (r: Vec<
    Line,
>)
    ensures
        style::rows(r@) == evidence_rows(*e, *theme, width as int),
{
    reveal(evidence_rows);
    broadcast use {style::group_lines, style::group_line_lists};

    let owner: String = swarm_details::string_or(&e.agent_id, "system");
    let title: String = text::cat2(" EVIDENCE  ", owner.as_str());
    let mut out: Vec<Line> = Vec::new();
    style::push_line(&mut out, lines::popup_title_line(title.as_str(), theme));
    style::push_line(&mut out, lines::popup_rule_line(width, theme));
    style::push_line(&mut out, lines::kv_line("title:", e.title.as_str(), theme));
    let mission: String = swarm_details::string_or(&e.mission_id, "ad-hoc");
    style::push_line(&mut out, lines::kv_line("mission:", mission.as_str(), theme));
    let link: String = swarm_details::string_or(&e.link, "");
    push_kv_if_any(&mut out, "link:", link.as_str(), theme);
    style::push_line(&mut out, lines::popup_rule_line(width, theme));
    let body: String = text::trim(e.detail.as_str());
    if text::length(body.as_str()) == 0 {
        style::push_line(
            &mut out,
            style::single(text::copy(" (no content)"), lines::label_style(*theme)),
        );
    } else {
        push_spaced(&mut out, body.as_str(), false, theme);
    }
    out
}

/// A label that ends in a colon and the value behind it.
pub open spec fn labelled(s: Seq<char>) -> Option<(Seq<char>, Seq<char>)> {
    match text::around(text::without_leading(s, ' '), " "@) {
        Some(p) => if text::ends(p.0, ":"@) {
            Some(p)
        } else {
            None
        },
        None => None,
    }
}

/// A plain line in its style.
pub open spec fn styled_line(idx: int, s: Seq<char>, theme: Theme) -> Seq<Piece> {
    if s.len() == 0 {
        Seq::empty()
    } else if idx == 0 {
        seq![style::piece(s, lines::title_style(theme))]
    } else if text::only(s, '─') {
        seq![style::piece(s, lines::label_style(theme))]
    } else if s == " Content"@ || s == " Diff (excerpt)"@ || text::starts(s, " Output"@) {
        seq![style::piece(s, lines::title_style(theme))]
    } else {
        match labelled(s) {
            Some(p) => seq![
                style::piece(" "@ + p.0 + " "@, lines::label_style(theme)),
                style::piece(
                    p.1,
                    if text::starts(text::trimmed_start(p.1), "http://"@) || text::starts(
                        text::trimmed_start(p.1),
                        "https://"@,
                    ) {
                        Style::plain().fg(theme.hl.link).underlined()
                    } else {
                        Style::plain().fg(theme.foreground)
                    },
                ),
            ],
            None => seq![style::piece(s, Style::plain().fg(theme.foreground))],
        }
    }
}

pub fn style_line(idx: usize, s: &str, theme: &Theme) -> (r: Line)
    ensures
        r@ == styled_line(idx as int, s@, *theme),
{
    if text::length(s) == 0 {
        return style::blank();
    }
    if idx == 0 {
        return style::single(text::copy(s), lines::title_style(*theme));
    }
    if text::is_only(s, '─') {
        return style::single(text::copy(s), lines::label_style(*theme));
    }
    if text::str_eq(s, " Content") || text::str_eq(s, " Diff (excerpt)") || text::starts_with(
        s,
        " Output",
    ) {
        return style::single(text::copy(s), lines::title_style(*theme));
    }
    let bare: String = text::trim_leading(s, ' ');
    if let Some(p) = text::split_once(bare.as_str(), " ") {
        if text::ends_with(p.0.as_str(), ":") {
            let value: String = text::trim_start(p.1.as_str());
            let look: Style = if text::starts_with(value.as_str(), "http://") || text::starts_with(
                value.as_str(),
                "https://",
            ) {
                Style::plain().fg(theme.hl.link).underlined()
            } else {
                Style::plain().fg(theme.foreground)
            };
            let spans: Vec<Span> = vec![
                style::styled(
                    text::cat3(" ", p.0.as_str(), " "),
                    lines::label_style(*theme),
                ),
                style::span(p.1.as_str(), look),
            ];
            let r: Line = Line { spans };
            assert(r@ =~= styled_line(idx as int, s@, *theme));
            return r;
        }
    }
    style::single(text::copy(s), Style::plain().fg(theme.foreground))
}

/// Plain lines, each in its style.
pub open spec fn styled_lines(all: Seq<Seq<char>>, theme: Theme) -> Seq<Seq<Piece>> {
    Seq::new(all.len(), |i: int| styled_line(i, all[i], theme))
}

fn style_lines(all: &Vec<String>, theme: &Theme) -> (r: Vec<Line>)
    ensures
        style::rows(r@) == styled_lines(text::texts(all@), *theme),
{
    let ghost want: Seq<Seq<Piece>> = styled_lines(text::texts(all@), *theme);
    let mut out: Vec<Line> = Vec::new();
    let mut i: usize = 0;
    assert(style::rows(out@) =~= want.take(0));
    while i < all.len()
        invariant
            i <= all@.len(),
            want == styled_lines(text::texts(all@), *theme),
            style::rows(out@) == want.take(i as int),
        decreases all@.len() - i,
    {
        assert(text::texts(all@)[i as int] == all@[i as int]@);
        style::push_line(&mut out, style_line(i, all[i].as_str(), theme));
        i += 1;
        assert(want.take(i as int) =~= want.take(i - 1) + seq![want[i - 1]]);
    }
    assert(want.take(i as int) =~= want);
    out
}

/// The item of an archived run that was opened.
pub open spec fn archived_rows(
    st: AppState,
    entry: OpenedEntry,
    syn: SyntaxTables,
    theme: Theme,
    width: int,
) -> Option<Seq<Seq<Piece>>> {
    let k: Seq<char> = entry.entry.kind@;
    let i: int = entry.entry.artifact_index as int;
    match entry.run {
        None => None,
        Some(run) => if k == "PROMPT"@ || k == "REPLY"@ || k == "PLAN"@ || k == "SYNTH"@ {
            if i < run.messages@.len() {
                match run.messages@[i] {
                    Some(m) => Some(message_rows(m, syn, theme, width)),
                    None => None,
                }
            } else {
                None
            }
        } else if k == "PATCH"@ {
            if i < run.patches@.len() {
                match run.patches@[i] {
                    Some(p) => Some(
                        patch_rows(
                            p.patch,
                            popup::saved_diff(st, p.patch, text::opt_text(p.path)),
                            theme,
                            width,
                        ),
                    ),
                    None => None,
                }
            } else {
                None
            }
        } else if k == "EVIDENCE"@ {
            if i < run.evidence@.len() {
                match run.evidence@[i] {
                    Some(e) => Some(evidence_rows(e, theme, width)),
                    None => None,
                }
            } else {
                None
            }
        } else {
            None
        },
    }
}

/// Optional lines as a value.
pub open spec fn opt_rows(v: Option<Vec<Line>>) -> Option<Seq<Seq<Piece>>> {
    match v {
        Some(l) => Some(style::rows(l@)),
        None => None,
    }
}

pub fn build_lines_from_archive_entry(
    st: &AppState,
    entry: &OpenedEntry,
    syn: &SyntaxTables,
    theme: &Theme,
    width: usize,
) -> (r: Option<Vec<Line>>)
    ensures
        opt_rows(r) == archived_rows(*st, *entry, *syn, *theme, width as int),
{
    let k: &str = entry.entry.kind;
    let i: usize = entry.entry.artifact_index;
    let run: &ArchivedItems = match &entry.run {
        Some(run) => run,
        None => {
            return None;
        },
    };
    if text::str_eq(k, "PROMPT") || text::str_eq(k, "REPLY") || text::str_eq(k, "PLAN")
        || text::str_eq(k, "SYNTH") {
        if i >= run.messages.len() {
            return None;
        }
        return match &run.messages[i] {
            Some(m) => Some(build_message_lines(m, syn, theme, width)),
            None => None,
        };
    }
    if text::str_eq(k, "PATCH") {
        if i >= run.patches.len() {
            return None;
        }
        return match &run.patches[i] {
            Some(p) => Some(build_persisted_patch_lines(st, &p.patch, &p.path, theme, width)),
            None => None,
        };
    }
    if text::str_eq(k, "EVIDENCE") {
        if i >= run.evidence.len() {
            return None;
        }
        return match &run.evidence[i] {
            Some(e) => Some(build_persisted_evidence_lines(e, theme, width)),
            None => None,
        };
    }
    None
}

/// A change in memory as it is saved.
pub open spec fn saved_patch(p: Patch) -> PersistedPatchRecord {
    PersistedPatchRecord {
        id: p.id,
        mission_id: p.mission_id,
        agent_id: p.agent_id,
        title: p.title,
        summary: p.summary,
        diff: p.diff,
        status: p.status_label,
    }
}

fn save_patch(p: &Patch) -> (r: PersistedPatchRecord)
    ensures
        r == saved_patch(*p),
{
    PersistedPatchRecord {
        id: p.id.clone(),
        mission_id: state::clone_opt(&p.mission_id),
        agent_id: p.agent_id.clone(),
        title: p.title.clone(),
        summary: p.summary.clone(),
        diff: p.diff.clone(),
        status: p.status_label.clone(),
    }
}

/// What a card stands for, if it is there.
pub open spec fn reference_rows(
    st: AppState,
    swarm: SwarmRuntime,
    r: Reference,
    syn: SyntaxTables,
    theme: Theme,
    width: int,
) -> Option<Seq<Seq<Piece>>> {
    match r {
        Reference::Message { idx } => if idx < st.agents.messages@.len() {
            Some(message_rows(st.agents.messages@[idx as int], syn, theme, width))
        } else {
            None
        },
        Reference::PersistedMessage { message } => Some(message_rows(message, syn, theme, width)),
        Reference::Patch { idx } => if idx < st.agents.patches@.len() {
            let p: PersistedPatchRecord = saved_patch(st.agents.patches@[idx as int]);
            Some(patch_rows(p, popup::saved_diff(st, p, None), theme, width))
        } else {
            None
        },
        Reference::PersistedPatch { patch, path } => Some(
            patch_rows(patch, popup::saved_diff(st, patch, path), theme, width),
        ),
        Reference::Evidence { idx } => if idx < st.agents.evidence@.len() {
            Some(evidence_rows(st.agents.evidence@[idx as int], theme, width))
        } else {
            None
        },
        Reference::PersistedEvidence { item } => Some(evidence_rows(item, theme, width)),
        Reference::SwarmTask { mission_id, task_id } => match state::value_of(
            swarm.persistence@,
            mission_id,
        ) {
            Some(view) => match popup::task_from(view.tasks@, task_id, 0) {
                Some(k) => Some(views::task_rows(view, view.tasks@[k], syn, theme, width)),
                None => None,
            },
            None => None,
        },
        Reference::SwarmReport { mission_id } => match state::value_of(
            swarm.persistence@,
            mission_id,
        ) {
            Some(view) => Some(views::report_rows(view, syn, theme, width)),
            None => None,
        },
        Reference::SwarmVerify { mission_id } => match state::value_of(
            swarm.persistence@,
            mission_id,
        ) {
            Some(view) => Some(views::verify_rows(view, syn, theme, width)),
            None => None,
        },
    }
}

fn reference_lines(
    st: &AppState,
    swarm: &SwarmRuntime,
    r: &ArtifactsPopupRef,
    syn: &SyntaxTables,
    theme: &Theme,
    width: usize,
) -> (out: Option<Vec<Line>>)
    ensures
        opt_rows(out) == reference_rows(*st, *swarm, r@, *syn, *theme, width as int),
{
    match r {
        ArtifactsPopupRef::Message { idx } => {
            if *idx >= st.agents.messages.len() {
                return None;
            }
            Some(build_message_lines(&st.agents.messages[*idx], syn, theme, width))
        },
        ArtifactsPopupRef::PersistedMessage { message } => Some(
            build_message_lines(message, syn, theme, width),
        ),
        ArtifactsPopupRef::Patch { idx } => {
            if *idx >= st.agents.patches.len() {
                return None;
            }
            let p: PersistedPatchRecord = save_patch(&st.agents.patches[*idx]);
            Some(build_persisted_patch_lines(st, &p, &None, theme, width))
        },
        ArtifactsPopupRef::PersistedPatch { patch, path } => Some(
            build_persisted_patch_lines(st, patch, path, theme, width),
        ),
        ArtifactsPopupRef::Evidence { idx } => {
            if *idx >= st.agents.evidence.len() {
                return None;
            }
            Some(build_persisted_evidence_lines(&st.agents.evidence[*idx], theme, width))
        },
        ArtifactsPopupRef::PersistedEvidence { item } => Some(
            build_persisted_evidence_lines(item, theme, width),
        ),
        ArtifactsPopupRef::SwarmTask { mission_id, task_id } => {
            match state::lookup(&swarm.persistence, mission_id.as_str()) {
                Some(view) => match popup::find_task(&view.tasks, task_id.as_str()) {
                    Some(k) => Some(
                        views::build_swarm_task_lines(view, &view.tasks[k], syn, theme, width),
                    ),
                    None => None,
                },
                None => None,
            }
        },
        ArtifactsPopupRef::SwarmReport { mission_id } => {
            match state::lookup(&swarm.persistence, mission_id.as_str()) {
                Some(view) => Some(views::build_swarm_report_lines(view, syn, theme, width)),
                None => None,
            }
        },
        ArtifactsPopupRef::SwarmVerify { mission_id } => {
            match state::lookup(&swarm.persistence, mission_id.as_str()) {
                Some(view) => Some(views::build_swarm_verify_lines(view, syn, theme, width)),
                None => None,
            }
        },
    }
}

/// What the popup shows: the entry that was opened from the archive, or what the selected card
/// stands for, or else its plain lines.
#[verifier::opaque]
pub open spec fn popup_rows(
    st: AppState,
    swarm: SwarmRuntime,
    opened: Option<OpenedEntry>,
    syn: SyntaxTables,
    theme: Theme,
    given: int,
) -> Seq<Seq<Piece>> {
    let width: int = text::max_int(given, 1);
    let archived: Option<Seq<Seq<Piece>>> = match opened {
        Some(entry) => archived_rows(st, entry, syn, theme, width),
        None => None,
    };
    match archived {
        Some(rows) => rows,
        None => {
            let shown: Option<Seq<Seq<Piece>>> = match popup::selected(st, Some(&swarm), width) {
                Some(card) => reference_rows(st, swarm, card.reference, syn, theme, width),
                None => None,
            };
            match shown {
                Some(rows) => rows,
                None => styled_lines(popup::strings(st, swarm, width), theme),
            }
        },
    }
}

pub fn build_lines(
    st: &AppState,
    swarm: &SwarmRuntime,
    opened: &Option<OpenedEntry>,
    syn: &SyntaxTables,
    theme: &Theme,
    given: u16,
) -> (r: Vec<Line>)
    ensures
        style::rows(r@) == popup_rows(*st, *swarm, *opened, *syn, *theme, given as int),
{
    reveal(popup_rows);
    let width: usize = text::max_of(given as usize, 1);
    if let Some(entry) = opened {
        if let Some(all) = build_lines_from_archive_entry(st, entry, syn, theme, width) {
            return all;
        }
    }
    if let Some(reference) = popup::artifacts_popup_ref(st, swarm, width) {
        if let Some(all) = reference_lines(st, swarm, &reference, syn, theme, width) {
            return all;
        }
    }
    let plain: Vec<String> = popup::artifacts_popup_strings(st, swarm, width);
    style_lines(&plain, theme)
}

} // verus!
