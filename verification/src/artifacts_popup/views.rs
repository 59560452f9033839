//! What a swarm produced, in full: its report, its checks, its tasks.

use vstd::prelude::*;

use crate::agent_ops_view::swarm_details;
use crate::artifacts_popup::code::SyntaxTables;
use crate::artifacts_popup::lines;
use crate::artifacts_popup::markdown;
use crate::state::GateReportGate;
use crate::state::SwarmPersistenceView;
use crate::state::SwarmTaskArtifacts;
use crate::state::SwarmTaskPersistenceView;
use crate::style;
use crate::style::Color;
use crate::style::Line;
use crate::style::Piece;
use crate::style::Theme;
use crate::text;

verus! {

/// A blank line and a title.
pub open spec fn section(s: Seq<char>, theme: Theme) -> Seq<Seq<Piece>> {
    seq![Seq::<Piece>::empty()] + seq![lines::section(s, theme)]
}

fn push_section(out: &mut Vec<Line>, s: &str, theme: &Theme)
    ensures
        style::rows(final(out)@) == style::rows(old(out)@) + section(s@, *theme),
{
    broadcast use style::group_line_lists;

    style::push_line(out, style::blank());
    style::push_line(out, lines::popup_section_line(s, theme));
}

/// A document behind a blank line, or a note where there is none.
#[verifier::opaque]
pub open spec fn document_or(
    s: Option<String>,
    note: Seq<char>,
    color: Color,
    syn: SyntaxTables,
    theme: Theme,
    width: int,
) -> Seq<Seq<Piece>> {
    match s {
        Some(t) => seq![Seq::<Piece>::empty()] + markdown::document(t@, syn, theme, width),
        None => seq![lines::note(note, color, theme)],
    }
}

fn push_document_or(
    out: &mut Vec<Line>,
    s: &Option<String>,
    note: &str,
    color: Color,
    syn: &SyntaxTables,
    theme: &Theme,
    width: usize,
)
    ensures
        style::rows(final(out)@) == style::rows(old(out)@) + document_or(
            *s,
            note@,
            color,
            *syn,
            *theme,
            width as int,
        ),
{
    reveal(document_or);
    broadcast use style::group_line_lists;

    match s {
        Some(t) => {
            style::push_line(out, style::blank());
            let more: Vec<Line> = markdown::render_markdown_document(t.as_str(), syn, theme, width);
            style::append_lines(out, more);
        },
        None => {
            style::push_line(out, lines::popup_note_line(note, color, theme));
        },
    }
}

/// The report of a swarm.
#[verifier::opaque]
pub open spec fn report_rows(
    view: SwarmPersistenceView,
    syn: SyntaxTables,
    theme: Theme,
    width: int,
) -> Seq<Seq<Piece>> {
    seq![
        lines::title(
            " REPORT  "@ + swarm_details::text_or(view.report_agent_id, "planner"@) + "  "@
                + swarm_details::text_or(view.report_status, "FINAL"@),
            theme,
        ),
    ] + seq![lines::rule(width, theme)] + lines::detail(
        "mission"@,
        view.mission_id@,
        theme,
        width,
    ) + lines::detail(
        "artifact"@,
        ".nit/swarm/"@ + view.mission_id@ + "/report/final.md"@,
        theme,
        width,
    ) + section(" Document"@, theme) + document_or(
        view.report_output,
        " no final synthesis output captured"@,
        theme.border,
        syn,
        theme,
        width,
    )
}

pub fn build_swarm_report_lines(
    view: &SwarmPersistenceView,
    syn: &SyntaxTables,
    theme: &Theme,
    width: usize,
) -> (r: Vec<Line>)
    ensures
        style::rows(r@) == report_rows(*view, *syn, *theme, width as int),
{
    reveal(report_rows);
    broadcast use {style::group_lines, style::group_line_lists};

    let agent: String = swarm_details::string_or(&view.report_agent_id, "planner");
    let status: String = swarm_details::string_or(&view.report_status, "FINAL");
    let title: String = text::cat4(" REPORT  ", agent.as_str(), "  ", status.as_str());
    let mut out: Vec<Line> = Vec::new();
    style::push_line(&mut out, lines::popup_title_line(title.as_str(), theme));
    style::push_line(&mut out, lines::popup_rule_line(width, theme));
    let id: &str = view.mission_id.as_str();
    lines::push_wrapped_detail_lines(&mut out, "mission", id, theme, width);
    let path: String = text::cat3(".nit/swarm/", id, "/report/final.md");
    lines::push_wrapped_detail_lines(&mut out, "artifact", path.as_str(), theme, width);
    push_section(&mut out, " Document", theme);
    push_document_or(
        &mut out,
        &view.report_output,
        " no final synthesis output captured",
        theme.border,
        syn,
        theme,
        width,
    );
    out
}

/// The first `n` checks.
pub open spec fn gate_rows(gates: Seq<GateReportGate>, theme: Theme, width: int, n: int) -> Seq<
    Seq<Piece>,
>
    decreases n,
{
    if n <= 0 {
        Seq::empty()
    } else {
        let gate: GateReportGate = gates[n - 1];
        gate_rows(gates, theme, width, n - 1) + lines::item(
            " • "@,
            gate.name@ + " ["@ + (if gate.ok {
                "PASS"@
            } else {
                "FAIL"@
            }) + "] "@ + gate.command@,
            theme,
            width,
        ) + lines::detail_if_any("notes"@, gate.notes, theme, width)
    }
}

fn push_gates(out: &mut Vec<Line>, gates: &Vec<GateReportGate>, theme: &Theme, width: usize)
    ensures
        style::rows(final(out)@) == style::rows(old(out)@) + gate_rows(
            gates@,
            *theme,
            width as int,
            gates@.len() as int,
        ),
{
    broadcast use style::group_line_lists;

    let ghost before: Seq<Seq<Piece>> = style::rows(out@);
    let mut i: usize = 0;
    while i < gates.len()
        invariant
            i <= gates@.len(),
            style::rows(out@) == before + gate_rows(gates@, *theme, width as int, i as int),
        decreases gates@.len() - i,
    {
        broadcast use style::group_line_lists;

        let label: &str = if gates[i].ok {
            "PASS"
        } else {
            "FAIL"
        };
        let line: String = text::cat5(
            gates[i].name.as_str(),
            " [",
            label,
            "] ",
            gates[i].command.as_str(),
        );
        lines::push_wrapped_bullet(out, line.as_str(), theme, width);
        lines::push_detail_if_any(out, "notes", &gates[i].notes, theme, width);
        i += 1;
    }
}

/// A detail that names a file of the checks, where there is one.
pub open spec fn checks_file(
    there: bool,
    label: Seq<char>,
    view: SwarmPersistenceView,
    file: Seq<char>,
    theme: Theme,
    width: int,
) -> Seq<Seq<Piece>> {
    if there {
        lines::detail(label, ".nit/swarm/"@ + view.mission_id@ + file, theme, width)
    } else {
        Seq::empty()
    }
}

fn push_checks_file(
    out: &mut Vec<Line>,
    there: bool,
    label: &str,
    view: &SwarmPersistenceView,
    file: &str,
    theme: &Theme,
    width: usize,
)
    ensures
        style::rows(final(out)@) == style::rows(old(out)@) + checks_file(
            there,
            label@,
            *view,
            file@,
            *theme,
            width as int,
        ),
{
    broadcast use style::group_line_lists;

    if there {
        let path: String = text::cat3(".nit/swarm/", view.mission_id.as_str(), file);
        lines::push_wrapped_detail_lines(out, label, path.as_str(), theme, width);
    }
}

/// What is known of the checks of a swarm.
#[verifier::opaque]
pub open spec fn checks_head(view: SwarmPersistenceView, theme: Theme, width: int) -> Seq<Seq<Piece>> {
    seq![
        lines::title(
            " VERIFY  "@ + swarm_details::text_or(view.gate_bundle, "none"@) + "  "@
                + swarm_details::verify_status(view),
            theme,
        ),
    ] + seq![lines::rule(width, theme)] + lines::detail(
        "mission"@,
        view.mission_id@,
        theme,
        width,
    ) + lines::detail("template"@, view.template@, theme, width) + checks_file(
        true,
        "artifact"@,
        view,
        "/gates/verify.md"@,
        theme,
        width,
    ) + checks_file(
        view.gate_report is Some,
        "report"@,
        view,
        "/gates/report.json"@,
        theme,
        width,
    ) + checks_file(
        view.gate_output is Some,
        "output"@,
        view,
        "/gates/output.txt"@,
        theme,
        width,
    )
}

fn push_checks_head(out: &mut Vec<Line>, view: &SwarmPersistenceView, theme: &Theme, width: usize)
    ensures
        style::rows(final(out)@) == style::rows(old(out)@) + checks_head(
            *view,
            *theme,
            width as int,
        ),
{
    reveal(checks_head);
    broadcast use style::group_line_lists;

    let status: &str = swarm_details::swarm_verify_status(view);
    let bundle: String = swarm_details::string_or(&view.gate_bundle, "none");
    let title: String = text::cat4(" VERIFY  ", bundle.as_str(), "  ", status);
    style::push_line(out, lines::popup_title_line(title.as_str(), theme));
    style::push_line(out, lines::popup_rule_line(width, theme));
    lines::push_wrapped_detail_lines(out, "mission", view.mission_id.as_str(), theme, width);
    lines::push_wrapped_detail_lines(out, "template", view.template.as_str(), theme, width);
    push_checks_file(out, true, "artifact", view, "/gates/verify.md", theme, width);
    push_checks_file(
        out,
        view.gate_report.is_some(),
        "report",
        view,
        "/gates/report.json",
        theme,
        width,
    );
    push_checks_file(
        out,
        view.gate_output.is_some(),
        "output",
        view,
        "/gates/output.txt",
        theme,
        width,
    );
}

/// The checks of a swarm.
#[verifier::opaque]
pub open spec fn verify_rows(
    view: SwarmPersistenceView,
    syn: SyntaxTables,
    theme: Theme,
    width: int,
) -> Seq<Seq<Piece>> {
    checks_head(view, theme, width) + (match view.gate_report {
        Some(report) => section(" Gates"@, theme) + gate_rows(
            report.gates@,
            theme,
            width,
            report.gates@.len() as int,
        ),
        None => Seq::empty(),
    }) + section(" Document"@, theme) + document_or(
        view.gate_output,
        if view.gate_bundle is Some {
            " verification has not completed yet"@
        } else {
            " no verification output captured"@
        },
        if view.gate_bundle is Some {
            theme.warning
        } else {
            theme.border
        },
        syn,
        theme,
        width,
    )
}

pub fn build_swarm_verify_lines(
    view: &SwarmPersistenceView,
    syn: &SyntaxTables,
    theme: &Theme,
    width: usize,
) -> (r: Vec<Line>)
    ensures
        style::rows(r@) == verify_rows(*view, *syn, *theme, width as int),
{
    reveal(verify_rows);
    broadcast use {style::group_lines, style::group_line_lists};

    let mut out: Vec<Line> = Vec::new();
    push_checks_head(&mut out, view, theme, width);
    if let Some(report) = &view.gate_report {
        push_section(&mut out, " Gates", theme);
        push_gates(&mut out, &report.gates, theme, width);
    }
    push_section(&mut out, " Document", theme);
    let bundled: bool = view.gate_bundle.is_some();
    push_document_or(
        &mut out,
        &view.gate_output,
        if bundled {
            " verification has not completed yet"
        } else {
            " no verification output captured"
        },
        if bundled {
            theme.warning
        } else {
            theme.border
        },
        syn,
        theme,
        width,
    );
    out
}

/// What a task says that it produced.
#[verifier::opaque]
pub open spec fn produced_rows(a: SwarmTaskArtifacts, theme: Theme, width: int) -> Seq<Seq<Piece>> {
    if a.summary is None && a.files@.len() == 0 && a.diffs@.len() == 0 && a.commands@.len() == 0
        && a.risks@.len() == 0 && a.notes@.len() == 0 {
        Seq::empty()
    } else {
        section(" Artifacts"@, theme) + lines::detail_if_any("summary"@, a.summary, theme, width)
            + lines::bullets(swarm_details::file_texts(a), theme, width, a.files@.len() as int)
            + lines::bullets(swarm_details::diff_texts(a), theme, width, a.diffs@.len() as int)
            + lines::bullets(
            swarm_details::command_texts(a),
            theme,
            width,
            a.commands@.len() as int,
        ) + lines::bullets(swarm_details::risk_texts(a), theme, width, a.risks@.len() as int)
            + lines::bullets(text::texts(a.notes@), theme, width, a.notes@.len() as int)
    }
}

pub fn push_task_artifact_sections(
    out: &mut Vec<Line>,
    a: &SwarmTaskArtifacts,
    theme: &Theme,
    width: usize,
)
    ensures
        style::rows(final(out)@) == style::rows(old(out)@) + produced_rows(
            *a,
            *theme,
            width as int,
        ),
{
    reveal(produced_rows);
    broadcast use style::group_line_lists;

    if a.summary.is_none() && a.files.len() == 0 && a.diffs.len() == 0 && a.commands.len() == 0
        && a.risks.len() == 0 && a.notes.len() == 0 {
        return;
    }
    push_section(out, " Artifacts", theme);
    lines::push_detail_if_any(out, "summary", &a.summary, theme, width);
    let files: Vec<String> = swarm_details::files_of(a);
    assert(text::texts(files@).len() == files@.len());
    lines::push_bullets(out, &files, theme, width);
    let diffs: Vec<String> = swarm_details::diffs_of(a);
    assert(text::texts(diffs@).len() == diffs@.len());
    lines::push_bullets(out, &diffs, theme, width);
    let commands: Vec<String> = swarm_details::commands_of(a);
    assert(text::texts(commands@).len() == commands@.len());
    lines::push_bullets(out, &commands, theme, width);
    let risks: Vec<String> = swarm_details::risks_of(a);
    assert(text::texts(risks@).len() == risks@.len());
    lines::push_bullets(out, &risks, theme, width);
    lines::push_bullets(out, &a.notes, theme, width);
}

/// The path of a file of a task.
pub open spec fn task_path(
    view: SwarmPersistenceView,
    task: SwarmTaskPersistenceView,
    file: Seq<char>,
) -> Seq<char> {
    ".nit/swarm/"@ + view.mission_id@ + "/tasks/"@ + task.id@ + file
}

/// What is known of a task.
#[verifier::opaque]
pub open spec fn task_head(
    view: SwarmPersistenceView,
    task: SwarmTaskPersistenceView,
    theme: Theme,
    width: int,
) -> Seq<Seq<Piece>> {
    seq![lines::title(" TASK  "@ + task.agent_id@ + "  "@ + task.state@, theme)] + seq![
        lines::rule(width, theme),
    ] + lines::detail("task"@, task.id@ + "  "@ + task.title@, theme, width) + lines::detail(
        "mission"@,
        view.mission_id@,
        theme,
        width,
    ) + lines::detail_if_any("role"@, task.role, theme, width) + lines::detail(
        "writes"@,
        if task.writes {
            "yes"@
        } else {
            "no"@
        },
        theme,
        width,
    ) + lines::detail_if_any("done_when"@, task.done_when, theme, width) + lines::list_if_any(
        "deps"@,
        text::texts(task.deps@),
        theme,
        width,
    ) + lines::list_if_any("blocked_on"@, text::texts(task.blocked_on@), theme, width)
        + lines::list_if_any("expected"@, text::texts(task.expected_artifacts@), theme, width)
}

fn push_task_head(
    out: &mut Vec<Line>,
    view: &SwarmPersistenceView,
    task: &SwarmTaskPersistenceView,
    theme: &Theme,
    width: usize,
)
    ensures
        style::rows(final(out)@) == style::rows(old(out)@) + task_head(
            *view,
            *task,
            *theme,
            width as int,
        ),
{
    reveal(task_head);
    broadcast use style::group_line_lists;

    let title: String = text::cat4(" TASK  ", task.agent_id.as_str(), "  ", task.state.as_str());
    style::push_line(out, lines::popup_title_line(title.as_str(), theme));
    style::push_line(out, lines::popup_rule_line(width, theme));
    let name: String = text::cat3(task.id.as_str(), "  ", task.title.as_str());
    lines::push_wrapped_detail_lines(out, "task", name.as_str(), theme, width);
    lines::push_wrapped_detail_lines(out, "mission", view.mission_id.as_str(), theme, width);
    lines::push_detail_if_any(out, "role", &task.role, theme, width);
    lines::push_wrapped_detail_lines(
        out,
        "writes",
        if task.writes {
            "yes"
        } else {
            "no"
        },
        theme,
        width,
    );
    lines::push_detail_if_any(out, "done_when", &task.done_when, theme, width);
    lines::push_list_if_any(out, "deps", &task.deps, theme, width);
    lines::push_list_if_any(out, "blocked_on", &task.blocked_on, theme, width);
    lines::push_list_if_any(out, "expected", &task.expected_artifacts, theme, width);
}

/// A task of a swarm.
#[verifier::opaque]
pub open spec fn task_rows(
    view: SwarmPersistenceView,
    task: SwarmTaskPersistenceView,
    syn: SyntaxTables,
    theme: Theme,
    width: int,
) -> Seq<Seq<Piece>> {
    task_head(view, task, theme, width) + (if task.expected_artifacts_missing {
        seq![
            lines::note(
                " expected artifacts but no parseable swarm_artifacts JSON block was captured"@,
                theme.warning,
                theme,
            ),
        ]
    } else {
        Seq::empty()
    }) + lines::detail("artifact"@, task_path(view, task, "/artifacts.json"@), theme, width) + (
    match task.artifacts {
        Some(a) => produced_rows(a, theme, width),
        None => Seq::empty(),
    }) + section(" Document"@, theme) + lines::detail(
        "output"@,
        task_path(view, task, "/output.md"@),
        theme,
        width,
    ) + document_or(
        task.output,
        " no captured task output"@,
        theme.border,
        syn,
        theme,
        width,
    )
}

pub fn build_swarm_task_lines(
    view: &SwarmPersistenceView,
    task: &SwarmTaskPersistenceView,
    syn: &SyntaxTables,
    theme: &Theme,
    width: usize,
) -> (r: Vec<Line>)
    ensures
        style::rows(r@) == task_rows(*view, *task, *syn, *theme, width as int),
{
    reveal(task_rows);
    broadcast use {style::group_lines, style::group_line_lists};

    let mut out: Vec<Line> = Vec::new();
    push_task_head(&mut out, view, task, theme, width);
    if task.expected_artifacts_missing {
        style::push_line(
            &mut out,
            lines::popup_note_line(
                " expected artifacts but no parseable swarm_artifacts JSON block was captured",
                theme.warning,
                theme,
            ),
        );
    }
    let id: &str = view.mission_id.as_str();
    let name: &str = task.id.as_str();
    let listed: String = text::cat5(".nit/swarm/", id, "/tasks/", name, "/artifacts.json");
    lines::push_wrapped_detail_lines(&mut out, "artifact", listed.as_str(), theme, width);
    if let Some(a) = &task.artifacts {
        push_task_artifact_sections(&mut out, a, theme, width);
    }
    push_section(&mut out, " Document", theme);
    let path: String = text::cat5(".nit/swarm/", id, "/tasks/", name, "/output.md");
    lines::push_wrapped_detail_lines(&mut out, "output", path.as_str(), theme, width);
    push_document_or(
        &mut out,
        &task.output,
        " no captured task output",
        theme.border,
        syn,
        theme,
        width,
    );
    out
}

} // verus!
