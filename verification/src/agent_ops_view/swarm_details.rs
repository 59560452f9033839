//! What the artifacts of a swarm say in full.

use vstd::prelude::*;

use crate::agent_ops_view::dag;
use crate::agent_ops_view::history;
use crate::clone_labels;
use crate::counting;
use crate::previews;
use crate::state;
use crate::state::ArtifactRisk;
use crate::state::Entry;
use crate::state::GateReport;
use crate::state::GateReportGate;
use crate::state::SwarmPersistenceView;
use crate::state::SwarmTaskArtifacts;
use crate::state::SwarmTaskPersistenceView;
use crate::table_cells;
use crate::text;
use crate::wrap;

verus! {

/// Whether a task says anything of what it produced.
pub open spec fn artifacts_present(a: SwarmTaskArtifacts) -> bool {
    ||| (a.summary matches Some(s) && text::trimmed(s@).len() > 0)
    ||| a.files@.len() > 0
    ||| a.diffs@.len() > 0
    ||| a.commands@.len() > 0
    ||| a.risks@.len() > 0
    ||| a.notes@.len() > 0
}

pub fn task_artifacts_present(a: &SwarmTaskArtifacts) -> (r: bool)
    ensures
        r == artifacts_present(*a),
{
    let told: bool = match &a.summary {
        Some(s) => !text::is_blank(s.as_str()),
        None => false,
    };
    told || a.files.len() > 0 || a.diffs.len() > 0 || a.commands.len() > 0 || a.risks.len() > 0
        || a.notes.len() > 0
}

/// The result of a gate: what it says itself, and otherwise whether it went well.
pub open spec fn gate_label(gate: GateReportGate) -> Seq<char> {
    let said: Seq<char> = match gate.status {
        Some(s) => s@,
        None => Seq::empty(),
    };
    if gate.status is Some && (text::same_letters(said, "pass"@) || text::same_letters(said, "ok"@)
        || text::same_letters(said, "success"@)) {
        "PASS"@
    } else if gate.status is Some && (text::same_letters(said, "skip"@) || text::same_letters(
        said,
        "skipped"@,
    )) {
        "SKIP"@
    } else if gate.status is Some && (text::same_letters(said, "fail"@) || text::same_letters(
        said,
        "failed"@,
    )) {
        "FAIL"@
    } else if gate.ok {
        "PASS"@
    } else {
        "FAIL"@
    }
}

pub fn gate_report_status_label(gate: &GateReportGate) -> (r: &'static str)
    ensures
        r@ == gate_label(*gate),
{
    if let Some(s) = &gate.status {
        let said: &str = s.as_str();
        if text::eq_ignore_case(said, "pass") || text::eq_ignore_case(said, "ok")
            || text::eq_ignore_case(said, "success") {
            return "PASS";
        }
        if text::eq_ignore_case(said, "skip") || text::eq_ignore_case(said, "skipped") {
            return "SKIP";
        }
        if text::eq_ignore_case(said, "fail") || text::eq_ignore_case(said, "failed") {
            return "FAIL";
        }
    }
    if gate.ok {
        "PASS"
    } else {
        "FAIL"
    }
}

/// A value behind its label, over as many lines as it takes; nothing where it is blank.
pub open spec fn detail(label: Seq<char>, value: Seq<char>, width: int) -> Seq<Seq<char>> {
    let bare: Seq<char> = text::trimmed(value);
    let prefix: Seq<char> = " "@ + text::trimmed(label) + ": "@;
    let chunks: Seq<Seq<char>> = wrap::cell_lines(
        bare,
        text::max_int(text::monus(width, prefix.len() as int), 8),
    );
    if bare.len() == 0 {
        Seq::empty()
    } else {
        Seq::new(chunks.len(), |i: int| prefix + chunks[i])
    }
}

pub fn push_wrapped_detail(out: &mut Vec<String>, label: &str, value: &str, width: usize)
    ensures
        text::texts(final(out)@) == text::texts(old(out)@) + detail(label@, value@, width as int),
{
    broadcast use text::group_texts;

    let bare: String = text::trim(value);
    let ghost before: Seq<Seq<char>> = text::texts(out@);
    let ghost all: Seq<Seq<char>> = detail(label@, value@, width as int);
    if text::length(bare.as_str()) == 0 {
        assert(before + all =~= before);
        return;
    }
    let name: String = text::trim(label);
    let prefix: String = text::cat3(" ", name.as_str(), ": ");
    let room: usize = text::max_of(text::minus(width, text::length(prefix.as_str())), 8);
    let chunks: Vec<String> = wrap::wrap_cell_text(bare.as_str(), room);
    let mut i: usize = 0;
    assert(before + all.take(0) =~= before);
    while i < chunks.len()
        invariant
            i <= chunks@.len(),
            chunks@.len() == all.len(),
            text::texts(chunks@) == wrap::cell_lines(bare@, room as int),
            all == Seq::new(
                wrap::cell_lines(bare@, room as int).len(),
                |i: int| prefix@ + wrap::cell_lines(bare@, room as int)[i],
            ),
            text::texts(out@) == before + all.take(i as int),
        decreases chunks@.len() - i,
    {
        let line: String = text::cat2(prefix.as_str(), chunks[i].as_str());
        assert(text::texts(chunks@)[i as int] == chunks@[i as int]@);
        out.push(line);
        i += 1;
        assert(before + all.take(i as int) =~= (before + all.take(i - 1)).push(line@));
    }
    assert(all.take(i as int) =~= all);
}

/// The lines of a text, each behind a space.
pub open spec fn indented(s: Seq<char>, width: int) -> Seq<Seq<char>> {
    let chunks: Seq<Seq<char>> = wrap::cell_lines(s, text::monus(width, 1));
    Seq::new(chunks.len(), |i: int| " "@ + chunks[i])
}

pub fn push_indented(out: &mut Vec<String>, s: &str, width: usize)
    ensures
        text::texts(final(out)@) == text::texts(old(out)@) + indented(s@, width as int),
{
    broadcast use text::group_texts;

    let chunks: Vec<String> = wrap::wrap_cell_text(s, text::minus(width, 1));
    let ghost before: Seq<Seq<char>> = text::texts(out@);
    let ghost all: Seq<Seq<char>> = indented(s@, width as int);
    let mut i: usize = 0;
    assert(before + all.take(0) =~= before);
    while i < chunks.len()
        invariant
            i <= chunks@.len(),
            chunks@.len() == all.len(),
            text::texts(chunks@) == wrap::cell_lines(s@, text::monus(width as int, 1)),
            all == indented(s@, width as int),
            text::texts(out@) == before + all.take(i as int),
        decreases chunks@.len() - i,
    {
        let line: String = text::cat2(" ", chunks[i].as_str());
        assert(text::texts(chunks@)[i as int] == chunks@[i as int]@);
        out.push(line);
        i += 1;
        assert(before + all.take(i as int) =~= (before + all.take(i - 1)).push(line@));
    }
    assert(all.take(i as int) =~= all);
}

/// The first `max` lines of a text.
pub open spec fn first_lines(s: Seq<char>, max: int) -> Seq<char> {
    let lines: Seq<Seq<char>> = text::lines_of(s);
    text::joined(
        if lines.len() <= max {
            lines
        } else {
            lines.take(max)
        },
        "\n"@,
    )
}

/// The first `max` lines of a text, with a note where there are more.
pub open spec fn excerpt(s: Seq<char>, max: int, what: Seq<char>, width: int) -> Seq<Seq<char>> {
    let shown: Seq<Seq<char>> = indented(first_lines(s, max), width);
    if text::lines_of(s).len() > max {
        shown.push(
            " ("@ + what + " truncated; showing first "@ + text::decimal(max as nat) + " lines)"@,
        )
    } else {
        shown
    }
}

pub fn push_excerpt(out: &mut Vec<String>, s: &str, max: usize, what: &str, width: usize)
    ensures
        text::texts(final(out)@) == text::texts(old(out)@) + excerpt(
            s@,
            max as int,
            what@,
            width as int,
        ),
{
    broadcast use text::group_texts;

    let ghost before: Seq<Seq<char>> = text::texts(out@);
    let mut lines: Vec<String> = text::lines(s);
    let ghost all: Seq<Seq<char>> = text::lines_of(s@);
    let longer: bool = lines.len() > max;
    assert(lines@.len() == all.len());
    if longer {
        lines.truncate(max);
        assert(text::texts(lines@) =~= all.take(max as int));
    }
    let shown: String = text::join(&lines, "\n");
    push_indented(out, shown.as_str(), width);
    if longer {
        let number: String = text::decimal_usize(max);
        out.push(
            text::cat5(" (", what, " truncated; showing first ", number.as_str(), " lines)"),
        );
    }
    assert(text::texts(out@) =~= before + excerpt(s@, max as int, what@, width as int));
}

/// Whether the checks of a swarm went well.
pub open spec fn verify_status(view: SwarmPersistenceView) -> Seq<char> {
    match view.gate_report {
        Some(report) => if report.overall_ok {
            "PASS"@
        } else {
            "FAIL"@
        },
        None => if view.gate_bundle is Some {
            "PENDING"@
        } else {
            "--"@
        },
    }
}

pub fn swarm_verify_status(view: &SwarmPersistenceView) -> (r: &'static str)
    ensures
        r@ == verify_status(*view),
{
    match &view.gate_report {
        Some(report) => if report.overall_ok {
            "PASS"
        } else {
            "FAIL"
        },
        None => if view.gate_bundle.is_some() {
            "PENDING"
        } else {
            "--"
        },
    }
}

/// The tasks that say what they produced.
pub open spec fn parsed(view: SwarmPersistenceView) -> spec_fn(int) -> bool {
    |k: int|
        match view.tasks@[k].artifacts {
            Some(a) => artifacts_present(a),
            None => false,
        }
}

pub open spec fn missing(view: SwarmPersistenceView) -> spec_fn(int) -> bool {
    |k: int| view.tasks@[k].expected_artifacts_missing
}

pub open spec fn with_output(view: SwarmPersistenceView) -> spec_fn(int) -> bool {
    |k: int| view.tasks@[k].output_present
}

/// How many files the first `n` tasks name.
pub open spec fn files_upto(tasks: Seq<SwarmTaskPersistenceView>, n: int) -> nat
    decreases n,
{
    if n <= 0 {
        0
    } else {
        files_upto(tasks, n - 1) + (match tasks[n - 1].artifacts {
            Some(a) => a.files@.len(),
            None => 0,
        })
    }
}

/// How many commands the first `n` tasks name.
pub open spec fn commands_upto(tasks: Seq<SwarmTaskPersistenceView>, n: int) -> nat
    decreases n,
{
    if n <= 0 {
        0
    } else {
        commands_upto(tasks, n - 1) + (match tasks[n - 1].artifacts {
            Some(a) => a.commands@.len(),
            None => 0,
        })
    }
}

/// The counts of a swarm's tasks.
struct TaskCounts {
    parsed: usize,
    missing: usize,
    outputs: usize,
    files: u128,
    commands: u128,
}

fn count_tasks(view: &SwarmPersistenceView) -> (r: TaskCounts)
    ensures
        ({
            let n: int = view.tasks@.len() as int;
            &&& r.parsed == counting::counted(n, parsed(*view))
            &&& r.missing == counting::counted(n, missing(*view))
            &&& r.outputs == counting::counted(n, with_output(*view))
            &&& r.files == files_upto(view.tasks@, n)
            &&& r.commands == commands_upto(view.tasks@, n)
        }),
{
    let mut c: TaskCounts = TaskCounts { parsed: 0, missing: 0, outputs: 0, files: 0, commands: 0 };
    let mut i: usize = 0;
    while i < view.tasks.len()
        invariant
            i <= view.tasks@.len(),
            c.parsed == counting::counted(i as int, parsed(*view)),
            c.missing == counting::counted(i as int, missing(*view)),
            c.outputs == counting::counted(i as int, with_output(*view)),
            c.parsed <= i,
            c.missing <= i,
            c.outputs <= i,
            c.files == files_upto(view.tasks@, i as int),
            c.commands == commands_upto(view.tasks@, i as int),
            c.files <= i * 0xffff_ffff_ffff_ffff,
            c.commands <= i * 0xffff_ffff_ffff_ffff,
        decreases view.tasks@.len() - i,
    {
        let task: &SwarmTaskPersistenceView = &view.tasks[i];
        let mut files: usize = 0;
        let mut commands: usize = 0;
        if let Some(a) = &task.artifacts {
            if task_artifacts_present(a) {
                c.parsed = c.parsed + 1;
            }
            files = a.files.len();
            commands = a.commands.len();
        }
        if task.expected_artifacts_missing {
            c.missing = c.missing + 1;
        }
        if task.output_present {
            c.outputs = c.outputs + 1;
        }
        assert((i + 1) * 0xffff_ffff_ffff_ffff == i * 0xffff_ffff_ffff_ffff
            + 0xffff_ffff_ffff_ffff);
        c.files = c.files + files as u128;
        c.commands = c.commands + commands as u128;
        i += 1;
    }
    c
}

/// The lines on a swarm as a whole.
pub open spec fn summary(view: SwarmPersistenceView, width: int) -> Seq<Seq<char>> {
    let n: int = view.tasks@.len() as int;
    dag::block(
        seq!["Mission"@, "Template"@, "Phase"@],
        seq![view.mission_id@, view.template@, view.phase@],
        width,
    ) + dag::block(
        seq!["Tasks"@, "Parsed"@, "Missing"@, "Outputs"@, "Files"@, "Cmds"@, "Verify"@],
        seq![
            text::decimal(n as nat),
            text::decimal(counting::counted(n, parsed(view))),
            text::decimal(counting::counted(n, missing(view))),
            text::decimal(counting::counted(n, with_output(view))),
            text::decimal(files_upto(view.tasks@, n)),
            text::decimal(commands_upto(view.tasks@, n)),
            verify_status(view),
        ],
        width,
    ) + dag::block(seq!["Root"@], seq![".nit/swarm/"@ + view.mission_id@ + "/"@], width)
}

pub fn append_swarm_summary_lines(out: &mut Vec<String>, view: &SwarmPersistenceView, width: usize)
    ensures
        text::texts(final(out)@) == text::texts(old(out)@) + summary(*view, width as int),
{
    let ghost before: Seq<Seq<char>> = text::texts(out@);
    let c: TaskCounts = count_tasks(view);
    let labels1: Vec<&str> = vec!["Mission", "Template", "Phase"];
    let values1: Vec<String> = vec![
        view.mission_id.clone(),
        view.template.clone(),
        view.phase.clone(),
    ];
    assert(table_cells::strs(labels1@) =~= seq!["Mission"@, "Template"@, "Phase"@]);
    assert(text::texts(values1@) =~= seq![view.mission_id@, view.template@, view.phase@]);
    dag::push_block(out, &labels1, &values1, width);
    let labels2: Vec<&str> = vec![
        "Tasks",
        "Parsed",
        "Missing",
        "Outputs",
        "Files",
        "Cmds",
        "Verify",
    ];
    let values2: Vec<String> = vec![
        text::decimal_usize(view.tasks.len()),
        text::decimal_usize(c.parsed),
        text::decimal_usize(c.missing),
        text::decimal_usize(c.outputs),
        text::decimal_u128(c.files),
        text::decimal_u128(c.commands),
        text::copy(swarm_verify_status(view)),
    ];
    assert(table_cells::strs(labels2@) =~= seq![
        "Tasks"@,
        "Parsed"@,
        "Missing"@,
        "Outputs"@,
        "Files"@,
        "Cmds"@,
        "Verify"@,
    ]);
    assert(text::texts(values2@) =~= seq![
        text::decimal(view.tasks@.len()),
        text::decimal(c.parsed as nat),
        text::decimal(c.missing as nat),
        text::decimal(c.outputs as nat),
        text::decimal(c.files as nat),
        text::decimal(c.commands as nat),
        verify_status(*view),
    ]);
    dag::push_block(out, &labels2, &values2, width);
    let labels3: Vec<&str> = vec!["Root"];
    let values3: Vec<String> = vec![text::cat3(".nit/swarm/", view.mission_id.as_str(), "/")];
    assert(table_cells::strs(labels3@) =~= seq!["Root"@]);
    assert(text::texts(values3@) =~= seq![".nit/swarm/"@ + view.mission_id@ + "/"@]);
    dag::push_block(out, &labels3, &values3, width);
    assert(text::texts(out@) =~= before + summary(*view, width as int));
}

/// A text, or another where there is none.
pub open spec fn text_or(s: Option<String>, other: Seq<char>) -> Seq<char> {
    match s {
        Some(t) => t@,
        None => other,
    }
}

pub fn string_or(s: &Option<String>, other: &str) -> (r: String)
    ensures
        r@ == text_or(*s, other@),
{
    match s {
        Some(t) => t.clone(),
        None => text::copy(other),
    }
}

/// Adds a blank line and a title.
fn push_titled(out: &mut Vec<String>, title: &str)
    ensures
        text::texts(final(out)@) == text::texts(old(out)@) + seq![Seq::empty(), title@],
{
    broadcast use text::group_texts;

    let ghost before: Seq<Seq<char>> = text::texts(out@);
    let blank: String = String::new();
    assert(blank@ =~= Seq::<char>::empty());
    out.push(blank);
    out.push(text::copy(title));
    assert(text::texts(out@) =~= before + seq![Seq::empty(), title@]);
}

/// The report of a swarm.
#[verifier::opaque]
pub open spec fn report_details(view: SwarmPersistenceView, width: int) -> Seq<Seq<char>> {
    let head: Seq<Seq<char>> = dag::block(
        seq!["Agent"@, "Status"@, "Artifact"@],
        seq![
            text_or(view.report_agent_id, "planner"@),
            text_or(view.report_status, "FINAL"@),
            ".nit/swarm/"@ + view.mission_id@ + "/report/final.md"@,
        ],
        width,
    );
    match view.report_output {
        Some(s) => head + seq![Seq::empty(), " Document (excerpt)"@] + excerpt(
            s@,
            120,
            "report"@,
            width,
        ),
        None => head,
    }
}

pub fn append_swarm_report_detail_lines(
    out: &mut Vec<String>,
    view: &SwarmPersistenceView,
    width: usize,
)
    ensures
        text::texts(final(out)@) == text::texts(old(out)@) + report_details(*view, width as int),
{
    reveal(report_details);
    broadcast use text::group_line_lists;

    let labels: Vec<&str> = vec!["Agent", "Status", "Artifact"];
    let values: Vec<String> = vec![
        string_or(&view.report_agent_id, "planner"),
        string_or(&view.report_status, "FINAL"),
        text::cat3(".nit/swarm/", view.mission_id.as_str(), "/report/final.md"),
    ];
    assert(table_cells::strs(labels@) =~= seq!["Agent"@, "Status"@, "Artifact"@]);
    assert(text::texts(values@) =~= seq![
        text_or(view.report_agent_id, "planner"@),
        text_or(view.report_status, "FINAL"@),
        ".nit/swarm/"@ + view.mission_id@ + "/report/final.md"@,
    ]);
    dag::push_block(out, &labels, &values, width);
    if let Some(s) = &view.report_output {
        push_titled(out, " Document (excerpt)");
        push_excerpt(out, s.as_str(), 120, "report", width);
    }
}

/// A text with a note behind it in brackets.
pub open spec fn noted(s: Seq<char>, note: Option<String>) -> Seq<char> {
    match note {
        Some(n) => if text::trimmed(n@).len() > 0 {
            s + " ("@ + text::trimmed(n@) + ")"@
        } else {
            s
        },
        None => s,
    }
}

fn with_note(s: &str, note: &Option<String>) -> (r: String)
    ensures
        r@ == noted(s@, *note),
{
    match note {
        Some(n) => {
            let bare: String = text::trim(n.as_str());
            if text::length(bare.as_str()) > 0 {
                text::cat4(s, " (", bare.as_str(), ")")
            } else {
                text::copy(s)
            }
        },
        None => text::copy(s),
    }
}

/// A risk with its level and what is done against it.
pub open spec fn risk_text(risk: ArtifactRisk) -> Seq<char> {
    let level: Seq<char> = match risk.level {
        Some(l) => if text::trimmed(l@).len() > 0 {
            "["@ + text::trimmed(l@) + "] "@
        } else {
            Seq::empty()
        },
        None => Seq::empty(),
    };
    match risk.mitigation {
        Some(m) => if text::trimmed(m@).len() > 0 {
            level + risk.item@ + " -> "@ + text::trimmed(m@)
        } else {
            level + risk.item@
        },
        None => level + risk.item@,
    }
}

fn risk_text_of(risk: &ArtifactRisk) -> (r: String)
    ensures
        r@ == risk_text(*risk),
{
    let mut level: String = String::new();
    assert(level@ =~= Seq::<char>::empty());
    if let Some(l) = &risk.level {
        let bare: String = text::trim(l.as_str());
        if text::length(bare.as_str()) > 0 {
            level = text::cat3("[", bare.as_str(), "] ");
        }
    }
    if let Some(m) = &risk.mitigation {
        let bare: String = text::trim(m.as_str());
        if text::length(bare.as_str()) > 0 {
            return text::cat4(level.as_str(), risk.item.as_str(), " -> ", bare.as_str());
        }
    }
    text::cat2(level.as_str(), risk.item.as_str())
}

pub open spec fn file_texts(a: SwarmTaskArtifacts) -> Seq<Seq<char>> {
    Seq::new(a.files@.len(), |i: int| noted(a.files@[i].path@, a.files@[i].notes))
}

pub open spec fn diff_texts(a: SwarmTaskArtifacts) -> Seq<Seq<char>> {
    Seq::new(a.diffs@.len(), |i: int| noted(a.diffs@[i].summary@, a.diffs@[i].path))
}

pub open spec fn command_texts(a: SwarmTaskArtifacts) -> Seq<Seq<char>> {
    Seq::new(a.commands@.len(), |i: int| noted(a.commands@[i].cmd@, a.commands@[i].purpose))
}

pub open spec fn risk_texts(a: SwarmTaskArtifacts) -> Seq<Seq<char>> {
    Seq::new(a.risks@.len(), |i: int| risk_text(a.risks@[i]))
}

pub fn files_of(a: &SwarmTaskArtifacts) -> (r: Vec<String>)
    ensures
        text::texts(r@) == file_texts(*a),
{
    broadcast use text::group_texts;

    let mut out: Vec<String> = Vec::new();
    let mut i: usize = 0;
    assert(text::texts(out@) =~= file_texts(*a).take(0));
    while i < a.files.len()
        invariant
            i <= a.files@.len(),
            text::texts(out@) == file_texts(*a).take(i as int),
        decreases a.files@.len() - i,
    {
        let s: String = with_note(a.files[i].path.as_str(), &a.files[i].notes);
        out.push(s);
        i += 1;
        assert(file_texts(*a).take(i as int) =~= file_texts(*a).take(i - 1).push(s@));
    }
    assert(file_texts(*a).take(i as int) =~= file_texts(*a));
    out
}

pub fn diffs_of(a: &SwarmTaskArtifacts) -> (r: Vec<String>)
    ensures
        text::texts(r@) == diff_texts(*a),
{
    broadcast use text::group_texts;

    let mut out: Vec<String> = Vec::new();
    let mut i: usize = 0;
    assert(text::texts(out@) =~= diff_texts(*a).take(0));
    while i < a.diffs.len()
        invariant
            i <= a.diffs@.len(),
            text::texts(out@) == diff_texts(*a).take(i as int),
        decreases a.diffs@.len() - i,
    {
        let s: String = with_note(a.diffs[i].summary.as_str(), &a.diffs[i].path);
        out.push(s);
        i += 1;
        assert(diff_texts(*a).take(i as int) =~= diff_texts(*a).take(i - 1).push(s@));
    }
    assert(diff_texts(*a).take(i as int) =~= diff_texts(*a));
    out
}

pub fn commands_of(a: &SwarmTaskArtifacts) -> (r: Vec<String>)
    ensures
        text::texts(r@) == command_texts(*a),
{
    broadcast use text::group_texts;

    let mut out: Vec<String> = Vec::new();
    let mut i: usize = 0;
    assert(text::texts(out@) =~= command_texts(*a).take(0));
    while i < a.commands.len()
        invariant
            i <= a.commands@.len(),
            text::texts(out@) == command_texts(*a).take(i as int),
        decreases a.commands@.len() - i,
    {
        let s: String = with_note(a.commands[i].cmd.as_str(), &a.commands[i].purpose);
        out.push(s);
        i += 1;
        assert(command_texts(*a).take(i as int) =~= command_texts(*a).take(i - 1).push(s@));
    }
    assert(command_texts(*a).take(i as int) =~= command_texts(*a));
    out
}

pub fn risks_of(a: &SwarmTaskArtifacts) -> (r: Vec<String>)
    ensures
        text::texts(r@) == risk_texts(*a),
{
    broadcast use text::group_texts;

    let mut out: Vec<String> = Vec::new();
    let mut i: usize = 0;
    assert(text::texts(out@) =~= risk_texts(*a).take(0));
    while i < a.risks.len()
        invariant
            i <= a.risks@.len(),
            text::texts(out@) == risk_texts(*a).take(i as int),
        decreases a.risks@.len() - i,
    {
        let s: String = risk_text_of(&a.risks[i]);
        out.push(s);
        i += 1;
        assert(risk_texts(*a).take(i as int) =~= risk_texts(*a).take(i - 1).push(s@));
    }
    assert(risk_texts(*a).take(i as int) =~= risk_texts(*a));
    out
}

/// A file in the directory of a task.
pub open spec fn task_file(view: SwarmPersistenceView, id: Seq<char>, name: Seq<char>) -> Seq<char> {
    ".nit/swarm/"@ + view.mission_id@ + "/tasks/"@ + history::sanitized(id) + name
}

fn task_file_of(view: &SwarmPersistenceView, id: &str, name: &str) -> (r: String)
    ensures
        r@ == task_file(*view, id@, name@),
{
    let safe: String = history::sanitize_artifact_path_segment(id);
    text::cat5(".nit/swarm/", view.mission_id.as_str(), "/tasks/", safe.as_str(), name)
}

/// A list on one line behind its label; nothing where it is empty.
pub open spec fn list_detail(
    label: Seq<char>,
    items: Seq<Seq<char>>,
    limit: int,
    width: int,
) -> Seq<Seq<char>> {
    if items.len() == 0 {
        Seq::empty()
    } else {
        detail(label, previews::items_summary(items, limit), width)
    }
}

fn push_list(out: &mut Vec<String>, label: &str, items: &Vec<String>, limit: usize, width: usize)
    ensures
        text::texts(final(out)@) == text::texts(old(out)@) + list_detail(
            label@,
            text::texts(items@),
            limit as int,
            width as int,
        ),
{
    if items.len() > 0 {
        let line: String = previews::summarize_items(items, limit);
        push_wrapped_detail(out, label, line.as_str(), width);
    } else {
        assert(text::texts(out@) =~= text::texts(out@) + Seq::<Seq<char>>::empty());
    }
}

/// What a task says it produced.
pub open spec fn artifacts_details(
    view: SwarmPersistenceView,
    task: SwarmTaskPersistenceView,
    a: SwarmTaskArtifacts,
    width: int,
) -> Seq<Seq<char>> {
    (match a.summary {
        Some(s) => detail("summary"@, s@, width),
        None => Seq::empty(),
    }) + list_detail("files"@, file_texts(a), 12, width) + list_detail(
        "diffs"@,
        diff_texts(a),
        12,
        width,
    ) + list_detail("commands"@, command_texts(a), 10, width) + list_detail(
        "risks"@,
        risk_texts(a),
        10,
        width,
    ) + list_detail("notes"@, text::texts(a.notes@), 10, width) + detail(
        "artifact"@,
        task_file(view, task.id@, "/artifacts.json"@),
        width,
    )
}

pub fn append_swarm_task_artifacts_detail_lines(
    out: &mut Vec<String>,
    view: &SwarmPersistenceView,
    task: &SwarmTaskPersistenceView,
    a: &SwarmTaskArtifacts,
    width: usize,
)
    ensures
        text::texts(final(out)@) == text::texts(old(out)@) + artifacts_details(
            *view,
            *task,
            *a,
            width as int,
        ),
{
    broadcast use text::group_line_lists;

    if let Some(s) = &a.summary {
        push_wrapped_detail(out, "summary", s.as_str(), width);
    }
    push_list(out, "files", &files_of(a), 12, width);
    push_list(out, "diffs", &diffs_of(a), 12, width);
    push_list(out, "commands", &commands_of(a), 10, width);
    push_list(out, "risks", &risks_of(a), 10, width);
    push_list(out, "notes", &a.notes, 10, width);
    let path: String = task_file_of(view, task.id.as_str(), "/artifacts.json");
    push_wrapped_detail(out, "artifact", path.as_str(), width);
}

/// Names on one line behind a label; nothing where there are none.
pub open spec fn names_detail(label: Seq<char>, v: Seq<String>, width: int) -> Seq<Seq<char>> {
    if v.len() == 0 {
        Seq::empty()
    } else {
        detail(label, text::joined(text::texts(v), ", "@), width)
    }
}

pub fn push_names(out: &mut Vec<String>, label: &str, v: &Vec<String>, width: usize)
    ensures
        text::texts(final(out)@) == text::texts(old(out)@) + names_detail(
            label@,
            v@,
            width as int,
        ),
{
    if v.len() > 0 {
        let line: String = text::join(v, ", ");
        push_wrapped_detail(out, label, line.as_str(), width);
    } else {
        assert(text::texts(out@) =~= text::texts(out@) + Seq::<Seq<char>>::empty());
    }
}

/// The first lines on a task: what it is and what it waits for.
pub open spec fn task_head(
    names: Seq<Entry<String>>,
    task: SwarmTaskPersistenceView,
    width: int,
) -> Seq<Seq<char>> {
    detail("task"@, task.id@ + " ["@ + task.state@ + "] "@ + task.title@, width) + detail(
        "meta"@,
        "agent="@ + task.agent_id@ + " role="@ + (match task.role {
            Some(r) => clone_labels::role_label(names, r@),
            None => "-"@,
        }) + " writes="@ + dag::yes_no(task.writes) + " output="@ + dag::yes_no(
            task.output_present,
        ),
        width,
    ) + names_detail("deps"@, task.deps@, width) + names_detail(
        "blocked_on"@,
        task.blocked_on@,
        width,
    ) + names_detail("expected"@, task.expected_artifacts@, width) + (
    if task.expected_artifacts_missing {
        detail(
            "status"@,
            "expected artifacts but no parseable swarm_artifacts JSON block was captured"@,
            width,
        )
    } else {
        Seq::empty()
    }) + (match task.done_when {
        Some(d) => detail("done_when"@, d@, width),
        None => Seq::empty(),
    })
}

fn push_task_head(
    out: &mut Vec<String>,
    names: &Vec<Entry<String>>,
    task: &SwarmTaskPersistenceView,
    width: usize,
)
    ensures
        text::texts(final(out)@) == text::texts(old(out)@) + task_head(
            names@,
            *task,
            width as int,
        ),
{
    broadcast use text::group_line_lists;

    let line: String = text::cat5(
        task.id.as_str(),
        " [",
        task.state.as_str(),
        "] ",
        task.title.as_str(),
    );
    push_wrapped_detail(out, "task", line.as_str(), width);
    let role: String = match &task.role {
        Some(r) => clone_labels::table_role_label(names, r.as_str()),
        None => text::copy("-"),
    };
    let mut meta: String = text::cat4("agent=", task.agent_id.as_str(), " role=", role.as_str());
    meta.push_str(" writes=");
    meta.push_str(dag::yes_or_no(task.writes));
    meta.push_str(" output=");
    meta.push_str(dag::yes_or_no(task.output_present));
    push_wrapped_detail(out, "meta", meta.as_str(), width);
    push_names(out, "deps", &task.deps, width);
    push_names(out, "blocked_on", &task.blocked_on, width);
    push_names(out, "expected", &task.expected_artifacts, width);
    if task.expected_artifacts_missing {
        push_wrapped_detail(
            out,
            "status",
            "expected artifacts but no parseable swarm_artifacts JSON block was captured",
            width,
        );
    }
    if let Some(d) = &task.done_when {
        push_wrapped_detail(out, "done_when", d.as_str(), width);
    }
}

/// What a task wrote.
pub open spec fn task_output(
    view: SwarmPersistenceView,
    task: SwarmTaskPersistenceView,
    width: int,
) -> Seq<Seq<char>> {
    if !task.output_present {
        Seq::empty()
    } else {
        let head: Seq<Seq<char>> = detail(
            "output"@,
            task_file(view, task.id@, "/output.md"@),
            width,
        );
        match task.output {
            Some(s) => head + seq![Seq::empty(), " Output (excerpt)"@] + excerpt(
                s@,
                120,
                "output"@,
                width,
            ),
            None => head,
        }
    }
}

/// A task in full.
#[verifier::opaque]
pub open spec fn task_details(
    names: Seq<Entry<String>>,
    view: SwarmPersistenceView,
    task: SwarmTaskPersistenceView,
    width: int,
) -> Seq<Seq<char>> {
    task_head(names, task, width) + (match task.artifacts {
        Some(a) => artifacts_details(view, task, a, width),
        None => Seq::empty(),
    }) + task_output(view, task, width)
}

pub fn append_swarm_task_detail_lines(
    out: &mut Vec<String>,
    names: &Vec<Entry<String>>,
    view: &SwarmPersistenceView,
    task: &SwarmTaskPersistenceView,
    width: usize,
)
    ensures
        text::texts(final(out)@) == text::texts(old(out)@) + task_details(
            names@,
            *view,
            *task,
            width as int,
        ),
{
    reveal(task_details);
    broadcast use text::group_line_lists;

    push_task_head(out, names, task, width);
    if let Some(a) = &task.artifacts {
        append_swarm_task_artifacts_detail_lines(out, view, task, a, width);
    }
    push_output(out, view, task, width);
}

fn push_output(
    out: &mut Vec<String>,
    view: &SwarmPersistenceView,
    task: &SwarmTaskPersistenceView,
    width: usize,
)
    ensures
        text::texts(final(out)@) == text::texts(old(out)@) + task_output(
            *view,
            *task,
            width as int,
        ),
{
    broadcast use text::group_line_lists;

    if task.output_present {
        let path: String = task_file_of(view, task.id.as_str(), "/output.md");
        push_wrapped_detail(out, "output", path.as_str(), width);
        if let Some(s) = &task.output {
            push_titled(out, " Output (excerpt)");
            push_excerpt(out, s.as_str(), 120, "output", width);
        }
    }
}

/// A gate of a report.
pub open spec fn gate_details(gate: GateReportGate, width: int) -> Seq<Seq<char>> {
    detail(
        "gate"@,
        gate.name@ + " ["@ + gate_label(gate) + "] "@ + gate.command@,
        width,
    ) + (match gate.notes {
        Some(n) => detail("notes"@, n@, width),
        None => Seq::empty(),
    })
}

pub open spec fn gates_details(gates: Seq<GateReportGate>, width: int, n: int) -> Seq<Seq<char>>
    decreases n,
{
    if n <= 0 {
        Seq::empty()
    } else {
        gates_details(gates, width, n - 1) + gate_details(gates[n - 1], width)
    }
}

/// The checks of a swarm in full.
#[verifier::opaque]
pub open spec fn verify_details(view: SwarmPersistenceView, width: int) -> Seq<Seq<char>> {
    dag::block(
        seq!["Bundle"@, "Status"@, "Artifact"@],
        seq![
            text_or(view.gate_bundle, "none"@),
            verify_status(view),
            ".nit/swarm/"@ + view.mission_id@ + "/gates/verify.md"@,
        ],
        width,
    ) + (match view.gate_report {
        Some(report) => gates_details(report.gates@, width, report.gates@.len() as int) + detail(
            "report"@,
            ".nit/swarm/"@ + view.mission_id@ + "/gates/report.json"@,
            width,
        ),
        None => Seq::empty(),
    }) + (match view.gate_output {
        Some(s) => detail(
            "output_path"@,
            ".nit/swarm/"@ + view.mission_id@ + "/gates/output.txt"@,
            width,
        ) + seq![Seq::empty(), " Output (excerpt)"@] + excerpt(s@, 120, "output"@, width),
        None => Seq::empty(),
    })
}

fn push_gates(out: &mut Vec<String>, report: &GateReport, width: usize)
    ensures
        text::texts(final(out)@) == text::texts(old(out)@) + gates_details(
            report.gates@,
            width as int,
            report.gates@.len() as int,
        ),
{
    let ghost before: Seq<Seq<char>> = text::texts(out@);
    let mut i: usize = 0;
    assert(before + gates_details(report.gates@, width as int, 0) =~= before);
    while i < report.gates.len()
        invariant
            i <= report.gates@.len(),
            text::texts(out@) == before + gates_details(report.gates@, width as int, i as int),
        decreases report.gates@.len() - i,
    {
        let gate: &GateReportGate = &report.gates[i];
        let ghost now: Seq<Seq<char>> = text::texts(out@);
        let line: String = text::cat5(
            gate.name.as_str(),
            " [",
            gate_report_status_label(gate),
            "] ",
            gate.command.as_str(),
        );
        push_wrapped_detail(out, "gate", line.as_str(), width);
        if let Some(n) = &gate.notes {
            push_wrapped_detail(out, "notes", n.as_str(), width);
        }
        proof {
            let done: Seq<Seq<char>> = gates_details(report.gates@, width as int, i as int);
            let next: Seq<Seq<char>> = gate_details(*gate, width as int);
            assert(text::texts(out@) =~= now + next);
            assert(before + done + next =~= before + (done + next));
        }
        i += 1;
    }
}

pub fn append_swarm_verify_detail_lines(
    out: &mut Vec<String>,
    view: &SwarmPersistenceView,
    width: usize,
)
    ensures
        text::texts(final(out)@) == text::texts(old(out)@) + verify_details(*view, width as int),
{
    reveal(verify_details);
    broadcast use text::group_line_lists;

    let id: &str = view.mission_id.as_str();
    let labels: Vec<&str> = vec!["Bundle", "Status", "Artifact"];
    let values: Vec<String> = vec![
        string_or(&view.gate_bundle, "none"),
        text::copy(swarm_verify_status(view)),
        text::cat3(".nit/swarm/", id, "/gates/verify.md"),
    ];
    assert(table_cells::strs(labels@) =~= seq!["Bundle"@, "Status"@, "Artifact"@]);
    assert(text::texts(values@) =~= seq![
        text_or(view.gate_bundle, "none"@),
        verify_status(*view),
        ".nit/swarm/"@ + view.mission_id@ + "/gates/verify.md"@,
    ]);
    dag::push_block(out, &labels, &values, width);
    if let Some(report) = &view.gate_report {
        push_gates(out, report, width);
        let path: String = text::cat3(".nit/swarm/", id, "/gates/report.json");
        push_wrapped_detail(out, "report", path.as_str(), width);
    }
    if let Some(s) = &view.gate_output {
        let path: String = text::cat3(".nit/swarm/", id, "/gates/output.txt");
        push_wrapped_detail(out, "output_path", path.as_str(), width);
        push_titled(out, " Output (excerpt)");
        push_excerpt(out, s.as_str(), 120, "output", width);
    }
}

/// The first `n` tasks in full, an empty line before each.
pub open spec fn tasks_in_full(
    names: Seq<Entry<String>>,
    view: SwarmPersistenceView,
    width: int,
    n: int,
) -> Seq<Seq<char>>
    decreases n,
{
    if n <= 0 {
        Seq::empty()
    } else {
        tasks_in_full(names, view, width, n - 1) + seq![Seq::<char>::empty()] + task_details(
            names,
            view,
            view.tasks@[n - 1],
            width,
        )
    }
}

/// All that a swarm has made.
pub open spec fn swarm_in_full(
    names: Seq<Entry<String>>,
    view: SwarmPersistenceView,
    width: int,
) -> Seq<Seq<char>> {
    summary(view, width) + (if view.report_output is Some {
        seq![Seq::<char>::empty()] + report_details(view, width)
    } else {
        Seq::empty()
    }) + seq![Seq::<char>::empty()] + verify_details(view, width) + tasks_in_full(
        names,
        view,
        width,
        view.tasks@.len() as int,
    )
}

fn push_empty(out: &mut Vec<String>)
    ensures
        text::texts(final(out)@) == text::texts(old(out)@) + seq![Seq::<char>::empty()],
{
    broadcast use text::group_texts;

    let ghost before: Seq<Seq<char>> = text::texts(out@);
    let none: String = String::new();
    assert(none@ =~= Seq::<char>::empty());
    out.push(none);
    assert(text::texts(out@) =~= before + seq![Seq::<char>::empty()]);
}

pub fn append_swarm_artifact_lines(
    out: &mut Vec<String>,
    names: &Vec<Entry<String>>,
    view: &SwarmPersistenceView,
    width: usize,
)
    ensures
        text::texts(final(out)@) == text::texts(old(out)@) + swarm_in_full(
            names@,
            *view,
            width as int,
        ),
{
    broadcast use text::group_line_lists;

    append_swarm_summary_lines(out, view, width);
    if view.report_output.is_some() {
        push_empty(out);
        append_swarm_report_detail_lines(out, view, width);
    }
    push_empty(out);
    append_swarm_verify_detail_lines(out, view, width);
    let ghost before: Seq<Seq<char>> = text::texts(out@);
    let mut i: usize = 0;
    while i < view.tasks.len()
        invariant
            i <= view.tasks@.len(),
            text::texts(out@) == before + tasks_in_full(names@, *view, width as int, i as int),
        decreases view.tasks@.len() - i,
    {
        broadcast use text::group_line_lists;

        push_empty(out);
        append_swarm_task_detail_lines(out, names, view, &view.tasks[i], width);
        i += 1;
    }
}

} // verus!
