//! The tab of diagnostics, and the scratchpad.

use vstd::prelude::*;

use crate::agent_ops_view::roster_lines;
use crate::agent_ops_view::styles;
use crate::fit;
use crate::state::AgentAlertSeverity;
use crate::state::AgentDiagnosticEvent;
use crate::state::AppKind;
use crate::state::AppState;
use crate::state::GamesStatus;
use crate::state::RuntimeAcceleratorBackend;
use crate::style;
use crate::style::Color;
use crate::style::Line;
use crate::style::Piece;
use crate::style::Span;
use crate::style::Style;
use crate::style::Theme;
use crate::text;
use crate::wrap;

verus! {

/// The lines of `value`, the first behind one prefix and the others behind another.
pub open spec fn prefixed_lines(
    first: Seq<char>,
    other: Seq<char>,
    value: Seq<char>,
    width: int,
) -> Seq<Seq<char>> {
    let room: int = text::max_int(text::monus(width, first.len() as int), 1);
    let chunks: Seq<Seq<char>> = wrap::cell_lines(value, room);
    Seq::new(
        chunks.len(),
        |i: int|
            (if i == 0 {
                first
            } else {
                other
            }) + chunks[i],
    )
}

pub fn push_wrapped_prefixed_line(
    out: &mut Vec<String>,
    first: &str,
    other: &str,
    value: &str,
    width: usize,
)
    ensures
        text::texts(final(out)@) == text::texts(old(out)@) + prefixed_lines(
            first@,
            other@,
            value@,
            width as int,
        ),
{
    broadcast use text::group_texts;

    let room: usize = text::max_of(text::minus(width, text::length(first)), 1);
    let chunks: Vec<String> = wrap::wrap_cell_text(value, room);
    let ghost before: Seq<Seq<char>> = text::texts(out@);
    let ghost lines: Seq<Seq<char>> = prefixed_lines(first@, other@, value@, width as int);
    let mut i: usize = 0;
    assert(before + lines.take(0) =~= before);
    while i < chunks.len()
        invariant
            i <= chunks@.len(),
            chunks@.len() == lines.len(),
            room == text::max_int(text::monus(width as int, first@.len() as int), 1),
            text::texts(chunks@) == wrap::cell_lines(value@, room as int),
            lines == prefixed_lines(first@, other@, value@, width as int),
            text::texts(out@) == before + lines.take(i as int),
        decreases chunks@.len() - i,
    {
        let line: String = text::cat2(
            if i == 0 {
                first
            } else {
                other
            },
            chunks[i].as_str(),
        );
        assert(text::texts(chunks@)[i as int] == chunks@[i as int]@);
        assert(line@ == lines[i as int]);
        out.push(line);
        i += 1;
        assert(before + lines.take(i as int) =~= (before + lines.take(i - 1)).push(line@));
    }
    assert(lines.take(i as int) =~= lines);
}

/// As many spaces as `s` has bytes.
pub open spec fn blanks(s: Seq<char>) -> Seq<char> {
    text::fill(' ', text::counted_bytes(s) as nat)
}

fn blanks_for(s: &str) -> (r: String)
    ensures
        r@ == blanks(s@),
{
    text::filled(' ', text::length_in_bytes(s))
}

/// The lines of a label and its value.
pub open spec fn kv_lines(label: Seq<char>, value: Seq<char>, width: int) -> Seq<Seq<char>> {
    let prefix: Seq<char> = " "@ + roster_lines::padded_name(label + ":"@, 11) + " "@;
    prefixed_lines(prefix, blanks(prefix), value, width)
}

pub fn push_wrapped_kv_line(out: &mut Vec<String>, label: &str, value: &str, width: usize)
    ensures
        text::texts(final(out)@) == text::texts(old(out)@) + kv_lines(
            label@,
            value@,
            width as int,
        ),
{
    let named: String = text::cat2(label, ":");
    let padded: String = roster_lines::pad_name(named.as_str(), 11);
    let prefix: String = text::cat3(" ", padded.as_str(), " ");
    let blank: String = blanks_for(prefix.as_str());
    push_wrapped_prefixed_line(out, prefix.as_str(), blank.as_str(), value, width);
}

/// The lines of an event.
pub open spec fn event_lines(event: AgentDiagnosticEvent, width: int) -> Seq<Seq<char>> {
    let prefix: Seq<char> = " "@ + roster_lines::padded_name(event.severity_label@, 5) + " "@
        + roster_lines::padded_name(event.at@, 7) + " "@ + roster_lines::padded_name(
        event.source@,
        10,
    ) + " "@;
    prefixed_lines(prefix, blanks(prefix), event.message@, width)
}

pub fn push_wrapped_diagnostic_event(
    out: &mut Vec<String>,
    event: &AgentDiagnosticEvent,
    width: usize,
)
    ensures
        text::texts(final(out)@) == text::texts(old(out)@) + event_lines(*event, width as int),
{
    let severity: String = roster_lines::pad_name(event.severity_label.as_str(), 5);
    let at: String = roster_lines::pad_name(event.at.as_str(), 7);
    let source: String = roster_lines::pad_name(event.source.as_str(), 10);
    let prefix: String = text::cat7(
        " ",
        severity.as_str(),
        " ",
        at.as_str(),
        " ",
        source.as_str(),
        " ",
    );
    let blank: String = blanks_for(prefix.as_str());
    push_wrapped_prefixed_line(
        out,
        prefix.as_str(),
        blank.as_str(),
        event.message.as_str(),
        width,
    );
}

/// How many of the first `n` events have this severity.
pub open spec fn count_upto(
    events: Seq<AgentDiagnosticEvent>,
    severity: AgentAlertSeverity,
    n: int,
) -> nat
    decreases n,
{
    if n <= 0 {
        0
    } else {
        count_upto(events, severity, n - 1) + (if events[n - 1].severity == severity {
            1nat
        } else {
            0nat
        })
    }
}

pub open spec fn count(events: Seq<AgentDiagnosticEvent>, severity: AgentAlertSeverity) -> nat {
    count_upto(events, severity, events.len() as int)
}

proof fn counts_are_small(
    events: Seq<AgentDiagnosticEvent>,
    severity: AgentAlertSeverity,
    n: int,
)
    requires
        0 <= n,
    ensures
        count_upto(events, severity, n) <= n,
    decreases n,
{
    if n > 0 {
        counts_are_small(events, severity, n - 1);
    }
}

fn count_of(events: &Vec<AgentDiagnosticEvent>, severity: AgentAlertSeverity) -> (r: usize)
    ensures
        r == count(events@, severity),
{
    let mut found: usize = 0;
    let mut i: usize = 0;
    while i < events.len()
        invariant
            i <= events@.len(),
            found == count_upto(events@, severity, i as int),
        decreases events@.len() - i,
    {
        proof {
            counts_are_small(events@, severity, i as int);
        }
        if events[i].severity == severity {
            found += 1;
        }
        i += 1;
    }
    found
}

pub open spec fn is_issue(event: AgentDiagnosticEvent) -> bool {
    event.severity != AgentAlertSeverity::Info
}

/// Those of the first `n` events that are errors or warnings, by their place.
pub open spec fn issues_upto(events: Seq<AgentDiagnosticEvent>, n: int) -> Seq<usize>
    decreases n,
{
    if n <= 0 {
        Seq::empty()
    } else if is_issue(events[n - 1]) {
        issues_upto(events, n - 1).push((n - 1) as usize)
    } else {
        issues_upto(events, n - 1)
    }
}

pub open spec fn issues(events: Seq<AgentDiagnosticEvent>) -> Seq<usize> {
    issues_upto(events, events.len() as int)
}

fn issues_of(events: &Vec<AgentDiagnosticEvent>) -> (r: Vec<usize>)
    ensures
        r@ == issues(events@),
        forall|k: int| 0 <= k < r@.len() ==> (#[trigger] r@[k]) < events@.len(),
{
    let mut out: Vec<usize> = Vec::new();
    let mut i: usize = 0;
    while i < events.len()
        invariant
            i <= events@.len(),
            out@ == issues_upto(events@, i as int),
            forall|k: int| 0 <= k < out@.len() ==> (#[trigger] out@[k]) < i,
        decreases events@.len() - i,
    {
        if events[i].severity != AgentAlertSeverity::Info {
            out.push(i);
        }
        i += 1;
    }
    out
}

pub open spec fn app_label(kind: AppKind) -> Seq<char> {
    match kind {
        AppKind::Gol => "gol"@,
        AppKind::Games => "games"@,
    }
}

pub fn diagnostics_app_label(st: &AppState) -> (r: &'static str)
    ensures
        r@ == app_label(st.job.app_kind),
{
    match st.job.app_kind {
        AppKind::Gol => "gol",
        AppKind::Games => "games",
    }
}

pub open spec fn job_status(st: AppState) -> Seq<char> {
    match st.job.app_kind {
        AppKind::Games => match st.job.games_status {
            GamesStatus::Idle => "games/idle"@,
            GamesStatus::Running => "games/running"@,
            GamesStatus::Paused => "games/paused"@,
            GamesStatus::Done => "games/done"@,
            GamesStatus::Error => "games/error"@,
        },
        AppKind::Gol => if st.job.visualizer_running && st.job.visualizer_paused {
            "gol/paused"@
        } else if st.job.visualizer_running {
            "gol/running"@
        } else {
            "gol/idle"@
        },
    }
}

pub fn diagnostics_job_status(st: &AppState) -> (r: &'static str)
    ensures
        r@ == job_status(*st),
{
    match st.job.app_kind {
        AppKind::Games => match st.job.games_status {
            GamesStatus::Idle => "games/idle",
            GamesStatus::Running => "games/running",
            GamesStatus::Paused => "games/paused",
            GamesStatus::Done => "games/done",
            GamesStatus::Error => "games/error",
        },
        AppKind::Gol => if st.job.visualizer_running && st.job.visualizer_paused {
            "gol/paused"
        } else if st.job.visualizer_running {
            "gol/running"
        } else {
            "gol/idle"
        },
    }
}

/// Where the games are computed, where that is worth a line.
pub open spec fn accelerator(st: AppState) -> Option<Seq<char>> {
    match (st.job.app_kind, st.job.backend) {
        (AppKind::Games, RuntimeAcceleratorBackend::Metal) => Some(
            "metal active (gpu "@ + text::decimal(st.job.metal_matches as nat) + " / cpu "@
                + text::decimal(st.job.cpu_matches as nat) + ")"@,
        ),
        (AppKind::Games, RuntimeAcceleratorBackend::Cpu) => if st.job.games_running {
            Some("cpu (matches "@ + text::decimal(st.job.cpu_matches as nat) + ")"@)
        } else {
            None
        },
        _ => None,
    }
}

pub fn diagnostics_accelerator_status(st: &AppState) -> (r: Option<String>)
    ensures
        text::opt_text(r) == accelerator(*st),
{
    match (st.job.app_kind, st.job.backend) {
        (AppKind::Games, RuntimeAcceleratorBackend::Metal) => {
            let gpu: String = text::decimal_u64(st.job.metal_matches);
            let cpu: String = text::decimal_u64(st.job.cpu_matches);
            Some(text::cat5("metal active (gpu ", gpu.as_str(), " / cpu ", cpu.as_str(), ")"))
        },
        (AppKind::Games, RuntimeAcceleratorBackend::Cpu) => if st.job.games_running {
            let cpu: String = text::decimal_u64(st.job.cpu_matches);
            Some(text::cat3("cpu (matches ", cpu.as_str(), ")"))
        } else {
            None
        },
        _ => None,
    }
}

/// An event on one line.
pub open spec fn event_text(event: AgentDiagnosticEvent) -> Seq<char> {
    event.at@ + " "@ + event.severity_label@ + " "@ + event.source@ + " "@ + event.message@
}

pub fn format_diagnostic_event(event: &AgentDiagnosticEvent) -> (r: String)
    ensures
        r@ == event_text(*event),
{
    text::cat7(
        event.at.as_str(),
        " ",
        event.severity_label.as_str(),
        " ",
        event.source.as_str(),
        " ",
        event.message.as_str(),
    )
}

/// A line of the log with its time cut to hours, minutes and seconds; a line of fewer than four
/// words is left as it is.
pub open spec fn compact_log(line: Seq<char>) -> Seq<char> {
    let parts: Seq<Seq<char>> = text::split_few(line, ' ', 4);
    if parts.len() < 4 {
        line
    } else {
        text::before_first(text::without_trailing(text::after_last(parts[0], 'T'), 'Z'), '.')
            + " "@ + parts[1] + " "@ + text::without_trailing(parts[2], ':') + " "@ + parts[3]
    }
}

pub fn compact_runtime_log_line(line: &str) -> (r: String)
    ensures
        r@ == compact_log(line@),
{
    let parts: Vec<String> = text::splitn(line, ' ', 4);
    assert(text::texts(parts@).len() == parts@.len());
    if parts.len() < 4 {
        return text::copy(line);
    }
    assert(forall|k: int| 0 <= k < 4 ==> text::texts(parts@)[k] == (#[trigger] parts@[k])@);
    let stamp: String = text::text_after_last(parts[0].as_str(), 'T');
    let bare: String = text::trim_trailing(stamp.as_str(), 'Z');
    let time: String = text::text_before_first(bare.as_str(), '.');
    let target: String = text::trim_trailing(parts[2].as_str(), ':');
    text::cat7(
        time.as_str(),
        " ",
        parts[1].as_str(),
        " ",
        target.as_str(),
        " ",
        parts[3].as_str(),
    )
}

/// The path of the log file: the last one that the first `n` lines name.
pub open spec fn log_path_upto(logs: Seq<String>, n: int) -> Option<Seq<char>>
    decreases n,
{
    if n <= 0 {
        None
    } else {
        match text::around(logs[n - 1]@, "Log file:"@) {
            Some(parts) => if text::trimmed(parts.1).len() > 0 {
                Some(text::trimmed(parts.1))
            } else {
                log_path_upto(logs, n - 1)
            },
            None => log_path_upto(logs, n - 1),
        }
    }
}

pub open spec fn log_path(st: AppState) -> Option<Seq<char>> {
    log_path_upto(st.logs@, st.logs@.len() as int)
}

pub fn diagnostics_log_file_path(st: &AppState) -> (r: Option<String>)
    ensures
        text::opt_text(r) == log_path(*st),
{
    let mut found: Option<String> = None;
    let mut i: usize = 0;
    while i < st.logs.len()
        invariant
            i <= st.logs@.len(),
            text::opt_text(found) == log_path_upto(st.logs@, i as int),
        decreases st.logs@.len() - i,
    {
        if let Some(parts) = text::split_once(st.logs[i].as_str(), "Log file:") {
            let path: String = text::trim(parts.1.as_str());
            if text::length(path.as_str()) > 0 {
                found = Some(path);
            }
        }
        i += 1;
    }
    found
}

/// The lines of the issues from place `from` on, up to place `n`.
pub open spec fn issue_lines(
    events: Seq<AgentDiagnosticEvent>,
    from: int,
    n: int,
    width: int,
) -> Seq<Seq<char>>
    decreases n,
{
    if n <= from || n <= 0 {
        Seq::empty()
    } else {
        issue_lines(events, from, n - 1, width) + event_lines(
            events[issues(events)[n - 1] as int],
            width,
        )
    }
}

/// The lines of the log from place `from` on, up to place `n`.
pub open spec fn log_lines(logs: Seq<String>, from: int, n: int, width: int) -> Seq<Seq<char>>
    decreases n,
{
    if n <= from || n <= 0 {
        Seq::empty()
    } else {
        log_lines(logs, from, n - 1, width) + prefixed_lines(
            " · "@,
            "   "@,
            compact_log(logs[n - 1]@),
            width,
        )
    }
}

/// The lines on how things stand.
pub open spec fn summary_lines(st: AppState, width: int) -> Seq<Seq<char>> {
    let events: Seq<AgentDiagnosticEvent> = st.agents.diag_events@;
    let bad: Seq<usize> = issues(events);
    let start: Seq<Seq<char>> = seq![" DIAG"@, roster_lines::rule(width), " Summary"@] + kv_lines(
        "app"@,
        app_label(st.job.app_kind),
        width,
    ) + kv_lines("job"@, job_status(st), width);
    let faster: Seq<Seq<char>> = match accelerator(st) {
        Some(a) => start + kv_lines("accel"@, a, width),
        None => start,
    };
    let logged: Seq<Seq<char>> = match log_path(st) {
        Some(p) => faster + kv_lines("log"@, p, width),
        None => faster,
    };
    logged + kv_lines(
        "diagnostics"@,
        text::decimal(count(events, AgentAlertSeverity::Error)) + " error  "@ + text::decimal(
            count(events, AgentAlertSeverity::Warn),
        ) + " warn  "@ + text::decimal(count(events, AgentAlertSeverity::Info)) + " info"@,
        width,
    ) + kv_lines(
        "latest_issue"@,
        if bad.len() > 0 {
            event_text(events[bad.last() as int])
        } else {
            "none"@
        },
        width,
    )
}

/// All lines of the tab: a summary, the last twelve issues and the last twelve lines of the log.
pub open spec fn all_lines(st: AppState, given: int) -> Seq<Seq<char>> {
    let width: int = text::max_int(given, 32);
    let bad: Seq<usize> = issues(st.agents.diag_events@);
    let recent: Seq<Seq<char>> = summary_lines(st, width).push(Seq::empty()).push(
        " Recent issues"@,
    ) + (if bad.len() == 0 {
        prefixed_lines(" · "@, "   "@, "none"@, width)
    } else {
        issue_lines(
            st.agents.diag_events@,
            text::monus(bad.len() as int, 12),
            bad.len() as int,
            width,
        )
    });
    if st.logs@.len() == 0 {
        recent
    } else {
        recent.push(Seq::empty()).push(" Runtime log tail"@) + log_lines(
            st.logs@,
            text::monus(st.logs@.len() as int, 12),
            st.logs@.len() as int,
            width,
        )
    }
}

fn summary(st: &AppState, bad: &Vec<usize>, width: usize) -> (out: Vec<String>)
    requires
        bad@ == issues(st.agents.diag_events@),
        forall|k: int| 0 <= k < bad@.len() ==> (#[trigger] bad@[k]) < st.agents.diag_events@.len(),
    ensures
        text::texts(out@) == summary_lines(*st, width as int),
{
    broadcast use text::group_texts;

    let events: &Vec<AgentDiagnosticEvent> = &st.agents.diag_events;
    let mut out: Vec<String> = vec![
        text::copy(" DIAG"),
        roster_lines::rule_line(width),
        text::copy(" Summary"),
    ];
    assert(text::texts(out@) =~= seq![" DIAG"@, roster_lines::rule(width as int), " Summary"@]);
    push_wrapped_kv_line(&mut out, "app", diagnostics_app_label(st), width);
    push_wrapped_kv_line(&mut out, "job", diagnostics_job_status(st), width);
    if let Some(a) = diagnostics_accelerator_status(st) {
        push_wrapped_kv_line(&mut out, "accel", a.as_str(), width);
    }
    if let Some(p) = diagnostics_log_file_path(st) {
        push_wrapped_kv_line(&mut out, "log", p.as_str(), width);
    }
    let errors: String = text::decimal_usize(count_of(events, AgentAlertSeverity::Error));
    let warns: String = text::decimal_usize(count_of(events, AgentAlertSeverity::Warn));
    let infos: String = text::decimal_usize(count_of(events, AgentAlertSeverity::Info));
    let counts: String = text::cat6(
        errors.as_str(),
        " error  ",
        warns.as_str(),
        " warn  ",
        infos.as_str(),
        " info",
    );
    push_wrapped_kv_line(&mut out, "diagnostics", counts.as_str(), width);
    if bad.len() > 0 {
        let latest: String = format_diagnostic_event(&events[bad[bad.len() - 1]]);
        push_wrapped_kv_line(&mut out, "latest_issue", latest.as_str(), width);
    } else {
        push_wrapped_kv_line(&mut out, "latest_issue", "none", width);
    }
    out
}

pub fn diagnostics_lines(st: &AppState, width: usize) -> (r: Vec<String>)
    ensures
        text::texts(r@) == all_lines(*st, width as int),
{
    broadcast use text::group_texts;

    let usable: usize = text::max_of(width, 32);
    let events: &Vec<AgentDiagnosticEvent> = &st.agents.diag_events;
    let bad: Vec<usize> = issues_of(events);
    let mut out: Vec<String> = summary(st, &bad, usable);
    let ghost before: Seq<Seq<char>> = text::texts(out@);
    out.push(String::new());
    out.push(text::copy(" Recent issues"));
    let ghost start: Seq<Seq<char>> = before.push(Seq::empty()).push(" Recent issues"@);
    assert(text::texts(out@) =~= start);
    if bad.len() == 0 {
        push_wrapped_prefixed_line(&mut out, " · ", "   ", "none", usable);
    } else {
        let from: usize = text::minus(bad.len(), 12);
        let mut i: usize = from;
        assert(start + issue_lines(events@, from as int, from as int, usable as int) =~= start);
        while i < bad.len()
            invariant
                from <= i <= bad@.len(),
                bad@ == issues(events@),
                events@ == st.agents.diag_events@,
                forall|k: int| 0 <= k < bad@.len() ==> (#[trigger] bad@[k]) < events@.len(),
                text::texts(out@) == start + issue_lines(
                    events@,
                    from as int,
                    i as int,
                    usable as int,
                ),
            decreases bad@.len() - i,
        {
            push_wrapped_diagnostic_event(&mut out, &events[bad[i]], usable);
            let ghost done: Seq<Seq<char>> = issue_lines(
                events@,
                from as int,
                i as int,
                usable as int,
            );
            let ghost next: Seq<Seq<char>> = event_lines(
                events@[bad@[i as int] as int],
                usable as int,
            );
            assert(start + done + next =~= start + (done + next));
            i += 1;
        }
    }
    if st.logs.len() > 0 {
        let ghost recent: Seq<Seq<char>> = text::texts(out@);
        out.push(String::new());
        out.push(text::copy(" Runtime log tail"));
        let ghost head: Seq<Seq<char>> = recent.push(Seq::empty()).push(" Runtime log tail"@);
        assert(text::texts(out@) =~= head);
        let from: usize = text::minus(st.logs.len(), 12);
        let mut i: usize = from;
        assert(head + log_lines(st.logs@, from as int, from as int, usable as int) =~= head);
        while i < st.logs.len()
            invariant
                from <= i <= st.logs@.len(),
                text::texts(out@) == head + log_lines(
                    st.logs@,
                    from as int,
                    i as int,
                    usable as int,
                ),
            decreases st.logs@.len() - i,
        {
            let line: String = compact_runtime_log_line(st.logs[i].as_str());
            push_wrapped_prefixed_line(&mut out, " · ", "   ", line.as_str(), usable);
            let ghost done: Seq<Seq<char>> = log_lines(
                st.logs@,
                from as int,
                i as int,
                usable as int,
            );
            let ghost next: Seq<Seq<char>> = prefixed_lines(
                " · "@,
                "   "@,
                line@,
                usable as int,
            );
            assert(head + done + next =~= head + (done + next));
            i += 1;
        }
    }
    out
}

/// Every event counts once: as an error, a warning or an information.
pub proof fn every_event_counts_once(events: Seq<AgentDiagnosticEvent>, n: int)
    requires
        0 <= n <= events.len(),
    ensures
        count_upto(events, AgentAlertSeverity::Error, n) + count_upto(
            events,
            AgentAlertSeverity::Warn,
            n,
        ) + count_upto(events, AgentAlertSeverity::Info, n) == n,
        count_upto(events, AgentAlertSeverity::Error, n) + count_upto(
            events,
            AgentAlertSeverity::Warn,
            n,
        ) == issues_upto(events, n).len(),
    decreases n,
{
    if n > 0 {
        every_event_counts_once(events, n - 1);
    }
}

/// The colour of a level that is spelled out.
pub open spec fn level_color(level: Seq<char>, theme: Theme) -> Color {
    if text::same_letters(level, "ERROR"@) {
        theme.error
    } else if text::same_letters(level, "WARN"@) {
        theme.warning
    } else {
        theme.title
    }
}

fn color_of_level(level: &str, theme: &Theme) -> (r: Color)
    ensures
        r == level_color(level@, *theme),
{
    if text::eq_ignore_case(level, "ERROR") {
        theme.error
    } else if text::eq_ignore_case(level, "WARN") {
        theme.warning
    } else {
        theme.title
    }
}

/// Part `i` of a text, with the space behind it where another part follows.
pub open spec fn spaced_part(parts: Seq<Seq<char>>, i: int) -> Seq<char> {
    if i + 1 < parts.len() {
        text::part(parts, i) + " "@
    } else {
        text::part(parts, i)
    }
}

fn spaced_part_of(parts: &Vec<String>, i: usize) -> (r: String)
    requires
        i < 0x100,
    ensures
        r@ == spaced_part(text::texts(parts@), i as int),
{
    let part: String = text::part_of(parts, i);
    assert(text::texts(parts@).len() == parts@.len());
    if i + 1 < parts.len() {
        text::cat2(part.as_str(), " ")
    } else {
        part
    }
}

/// An issue with its severity in colour.
pub open spec fn severity_pieces(
    prefix: Seq<char>,
    rest: Seq<char>,
    color: Color,
    theme: Theme,
) -> Seq<Piece> {
    let parts: Seq<Seq<char>> = text::split_few(rest, ' ', 3);
    seq![
        style::piece(prefix, Style::plain().fg(color)),
        style::piece(spaced_part(parts, 0), styles::muted(theme)),
        style::piece(spaced_part(parts, 1), Style::plain().fg(theme.accent).bold()),
        style::piece(text::part(parts, 2), Style::plain().fg(color)),
    ]
}

pub fn diagnostics_severity_line(prefix: &str, rest: &str, color: Color, theme: &Theme) -> (r: Line)
    ensures
        r@ == severity_pieces(prefix@, rest@, color, *theme),
{
    let parts: Vec<String> = text::splitn(rest, ' ', 3);
    let spans: Vec<Span> = vec![
        style::span(prefix, Style::plain().fg(color)),
        style::styled(spaced_part_of(&parts, 0), styles::muted(*theme)),
        style::styled(spaced_part_of(&parts, 1), Style::plain().fg(theme.accent).bold()),
        style::styled(text::part_of(&parts, 2), Style::plain().fg(color)),
    ];
    let r: Line = Line { spans };
    assert(r@ =~= severity_pieces(prefix@, rest@, color, *theme));
    r
}

/// A line of the log with its level in colour.
pub open spec fn runtime_pieces(rest: Seq<char>, theme: Theme) -> Seq<Piece> {
    let parts: Seq<Seq<char>> = text::split_few(rest, ' ', 4);
    let level: Seq<char> = text::part(parts, 1);
    seq![
        style::piece(" · "@, styles::muted(theme)),
        style::piece(spaced_part(parts, 0), styles::muted(theme)),
        style::piece(spaced_part(parts, 1), Style::plain().fg(level_color(level, theme)).bold()),
        style::piece(spaced_part(parts, 2), Style::plain().fg(theme.accent)),
        style::piece(text::part(parts, 3), styles::plain_text(theme)),
    ]
}

pub fn diagnostics_runtime_line(rest: &str, theme: &Theme) -> (r: Line)
    ensures
        r@ == runtime_pieces(rest@, *theme),
{
    let parts: Vec<String> = text::splitn(rest, ' ', 4);
    let level: String = text::part_of(&parts, 1);
    let color: Color = color_of_level(level.as_str(), theme);
    let spans: Vec<Span> = vec![
        style::span(" · ", styles::muted(*theme)),
        style::styled(spaced_part_of(&parts, 0), styles::muted(*theme)),
        style::styled(spaced_part_of(&parts, 1), Style::plain().fg(color).bold()),
        style::styled(spaced_part_of(&parts, 2), Style::plain().fg(theme.accent)),
        style::styled(text::part_of(&parts, 3), styles::plain_text(*theme)),
    ];
    let r: Line = Line { spans };
    assert(r@ =~= runtime_pieces(rest@, *theme));
    r
}

/// A label that ends in a colon, and what follows it.
pub open spec fn labelled(line: Seq<char>) -> Option<(Seq<char>, Seq<char>)> {
    match text::around(text::without_leading(line, ' '), " "@) {
        Some(parts) => if text::ends(parts.0, ":"@) {
            Some(parts)
        } else {
            None
        },
        None => None,
    }
}

fn label_and_value(line: &str) -> (r: Option<(String, String)>)
    ensures
        match r {
            Some(lv) => labelled(line@) == Some((lv.0@, lv.1@)),
            None => labelled(line@) is None,
        },
{
    let bare: String = text::trim_leading(line, ' ');
    match text::split_once(bare.as_str(), " ") {
        Some(parts) => if text::ends_with(parts.0.as_str(), ":") {
            Some(parts)
        } else {
            None
        },
        None => None,
    }
}

/// The spaces that a line starts with.
pub open spec fn indent(line: Seq<char>) -> Seq<char> {
    text::fill(' ', (line.len() - text::without_leading(line, ' ').len()) as nat)
}

fn indent_of(line: &str) -> (r: String)
    ensures
        r@ == indent(line@),
{
    let bare: String = text::trim_leading(line, ' ');
    proof {
        indent_and_rest(line@);
    }
    text::filled(' ', text::length(line) - text::length(bare.as_str()))
}

proof fn indent_and_rest(line: Seq<char>)
    ensures
        text::without_leading(line, ' ').len() <= line.len(),
        indent(line) + text::without_leading(line, ' ') == line,
    decreases line.len(),
{
    if line.len() > 0 && line[0] == ' ' {
        let rest: Seq<char> = line.subrange(1, line.len() as int);
        indent_and_rest(rest);
        assert(indent(line) =~= seq![' '] + indent(rest));
        assert(seq![' '] + rest =~= line);
        assert(seq![' '] + indent(rest) + text::without_leading(rest, ' ') =~= seq![' '] + (indent(
            rest,
        ) + text::without_leading(rest, ' ')));
    } else {
        assert(indent(line) + text::without_leading(line, ' ') =~= line);
    }
}

/// A label and its value in colour, behind the spaces that the line starts with.
pub open spec fn labelled_pieces(
    spaces: Seq<char>,
    label: Seq<char>,
    value: Seq<char>,
    theme: Theme,
) -> Seq<Piece> {
    let name: Seq<char> = spaces + label + " "@;
    let front: Piece = style::piece(name, styles::muted(theme));
    let bare: Seq<char> = text::trimmed_start(value);
    let parts: Seq<Seq<char>> = text::split_few(bare, ' ', 4);
    if text::same_letters(label, "latest_issue:"@) {
        let far: Piece = style::piece(name + text::lead(value), styles::muted(theme));
        if text::same_letters(bare, "none"@) {
            seq![far, style::piece(bare, Style::plain().fg(theme.border))]
        } else {
            let color: Color = level_color(text::part(parts, 0), theme);
            seq![
                far,
                style::piece(spaced_part(parts, 0), Style::plain().fg(color).bold()),
                style::piece(spaced_part(parts, 1), styles::muted(theme)),
                style::piece(spaced_part(parts, 2), Style::plain().fg(theme.accent).bold()),
                style::piece(text::part(parts, 3), Style::plain().fg(color)),
            ]
        }
    } else if text::same_letters(label, "log:"@) {
        seq![front, style::piece(value, Style::plain().fg(theme.accent).bold())]
    } else {
        seq![front, style::piece(value, styles::plain_text(theme))]
    }
}

fn labelled_line(spaces: &str, label: &str, value: &str, theme: &Theme) -> (r: Line)
    ensures
        r@ == labelled_pieces(spaces@, label@, value@, *theme),
{
    let ghost want: Seq<Piece> = labelled_pieces(spaces@, label@, value@, *theme);
    let name: String = text::cat3(spaces, label, " ");
    if text::eq_ignore_case(label, "latest_issue:") {
        let bare: String = text::trim_start(value);
        let far: Span = style::styled(
            text::cat2(name.as_str(), text::lead_of(value).as_str()),
            styles::muted(*theme),
        );
        if text::eq_ignore_case(bare.as_str(), "none") {
            let r: Line = Line {
                spans: vec![far, style::styled(bare, Style::plain().fg(theme.border))],
            };
            assert(r@ =~= want);
            return r;
        }
        let parts: Vec<String> = text::splitn(bare.as_str(), ' ', 4);
        let severity: String = text::part_of(&parts, 0);
        let color: Color = color_of_level(severity.as_str(), theme);
        let spans: Vec<Span> = vec![
            far,
            style::styled(spaced_part_of(&parts, 0), Style::plain().fg(color).bold()),
            style::styled(spaced_part_of(&parts, 1), styles::muted(*theme)),
            style::styled(spaced_part_of(&parts, 2), Style::plain().fg(theme.accent).bold()),
            style::styled(text::part_of(&parts, 3), Style::plain().fg(color)),
        ];
        let r: Line = Line { spans };
        assert(r@ =~= want);
        return r;
    }
    let look: Style = if text::eq_ignore_case(label, "log:") {
        Style::plain().fg(theme.accent).bold()
    } else {
        styles::plain_text(*theme)
    };
    let r: Line = Line {
        spans: vec![style::styled(name, styles::muted(*theme)), style::span(value, look)],
    };
    assert(r@ =~= want);
    r
}

/// A line of the tab whose text is `line`.
pub open spec fn styled_line(line: Seq<char>, theme: Theme) -> Seq<Piece> {
    if line.len() == 0 {
        Seq::empty()
    } else if line == " Summary"@ || line == " Recent issues"@ || line == " Runtime log tail"@ {
        seq![style::piece(line, Style::plain().fg(theme.title_focused).bold())]
    } else {
        match labelled(line) {
            Some(lv) => labelled_pieces(indent(line), lv.0, lv.1, theme),
            None => match text::after_prefix(line, " ERROR "@) {
                Some(rest) => severity_pieces(" ERROR "@, rest, theme.error, theme),
                None => match text::after_prefix(line, " WARN  "@) {
                    Some(rest) => severity_pieces(" WARN  "@, rest, theme.warning, theme),
                    None => match text::after_prefix(line, " INFO  "@) {
                        Some(rest) => severity_pieces(" INFO  "@, rest, theme.title, theme),
                        None => match text::after_prefix(line, " · "@) {
                            Some(rest) => runtime_pieces(rest, theme),
                            None => seq![style::piece(line, styles::plain_text(theme))],
                        },
                    },
                },
            },
        }
    }
}

pub fn diagnostics_styled_line(line: &str, theme: &Theme) -> (r: Line)
    ensures
        r@ == styled_line(line@, *theme),
{
    if text::length(line) == 0 {
        return style::blank();
    }
    if text::str_eq(line, " Summary") || text::str_eq(line, " Recent issues") || text::str_eq(
        line,
        " Runtime log tail",
    ) {
        return style::single(text::copy(line), Style::plain().fg(theme.title_focused).bold());
    }
    if let Some(lv) = label_and_value(line) {
        return labelled_line(indent_of(line).as_str(), lv.0.as_str(), lv.1.as_str(), theme);
    }
    if let Some(rest) = text::strip_prefix(line, " ERROR ") {
        return diagnostics_severity_line(" ERROR ", rest.as_str(), theme.error, theme);
    }
    if let Some(rest) = text::strip_prefix(line, " WARN  ") {
        return diagnostics_severity_line(" WARN  ", rest.as_str(), theme.warning, theme);
    }
    if let Some(rest) = text::strip_prefix(line, " INFO  ") {
        return diagnostics_severity_line(" INFO  ", rest.as_str(), theme.title, theme);
    }
    if let Some(rest) = text::strip_prefix(line, " · ") {
        return diagnostics_runtime_line(rest.as_str(), theme);
    }
    style::single(text::copy(line), styles::plain_text(*theme))
}

proof fn two_pieces_text(a: Piece, b: Piece)
    ensures
        style::plain_text(seq![a, b]) == a.text + b.text,
{
    style::one_piece_text(a);
    style::plain_text_push(seq![a], b);
    assert(seq![a].push(b) =~= seq![a, b]);
}

proof fn five_pieces_text(a: Piece, b: Piece, c: Piece, d: Piece, e: Piece)
    ensures
        style::plain_text(seq![a, b, c, d]) == a.text + b.text + c.text + d.text,
        style::plain_text(seq![a, b, c, d, e]) == a.text + b.text + c.text + d.text + e.text,
{
    two_pieces_text(a, b);
    let two: Seq<Piece> = seq![a, b];
    style::plain_text_push(two, c);
    style::plain_text_push(two.push(c), d);
    style::plain_text_push(two.push(c).push(d), e);
    assert(two.push(c).push(d) =~= seq![a, b, c, d]);
    assert(two.push(c).push(d).push(e) =~= seq![a, b, c, d, e]);
}

proof fn three_parts_join(s: Seq<char>)
    ensures
        ({
            let parts: Seq<Seq<char>> = text::split_few(s, ' ', 3);
            spaced_part(parts, 0) + spaced_part(parts, 1) + text::part(parts, 2) == s
        }),
{
    reveal_strlit(" ");
    let parts: Seq<Seq<char>> = text::split_few(s, ' ', 3);
    text::few_parts_join(s, ' ', 3);
    reveal_with_fuel(text::joined, 4);
    assert(" "@ =~= seq![' ']);
    assert(spaced_part(parts, 0) + spaced_part(parts, 1) + text::part(parts, 2) =~= s);
}

proof fn four_parts_join(s: Seq<char>)
    ensures
        ({
            let parts: Seq<Seq<char>> = text::split_few(s, ' ', 4);
            spaced_part(parts, 0) + spaced_part(parts, 1) + spaced_part(parts, 2) + text::part(
                parts,
                3,
            ) == s
        }),
{
    reveal_strlit(" ");
    let parts: Seq<Seq<char>> = text::split_few(s, ' ', 4);
    text::few_parts_join(s, ' ', 4);
    reveal_with_fuel(text::joined, 5);
    assert(" "@ =~= seq![' ']);
    assert(spaced_part(parts, 0) + spaced_part(parts, 1) + spaced_part(parts, 2) + text::part(
        parts,
        3,
    ) =~= s);
}

proof fn severity_keeps_text(prefix: Seq<char>, rest: Seq<char>, color: Color, theme: Theme)
    ensures
        style::plain_text(severity_pieces(prefix, rest, color, theme)) == prefix + rest,
{
    let p: Seq<Piece> = severity_pieces(prefix, rest, color, theme);
    five_pieces_text(p[0], p[1], p[2], p[3], p[3]);
    assert(p =~= seq![p[0], p[1], p[2], p[3]]);
    three_parts_join(rest);
    assert(prefix + p[1].text + p[2].text + p[3].text =~= prefix + (p[1].text + p[2].text
        + p[3].text));
}

proof fn runtime_keeps_text(rest: Seq<char>, theme: Theme)
    ensures
        style::plain_text(runtime_pieces(rest, theme)) == " · "@ + rest,
{
    let p: Seq<Piece> = runtime_pieces(rest, theme);
    five_pieces_text(p[0], p[1], p[2], p[3], p[4]);
    assert(p =~= seq![p[0], p[1], p[2], p[3], p[4]]);
    four_parts_join(rest);
    assert(" · "@ + p[1].text + p[2].text + p[3].text + p[4].text =~= " · "@ + (p[1].text
        + p[2].text + p[3].text + p[4].text));
}

proof fn labels_keep_text(spaces: Seq<char>, label: Seq<char>, value: Seq<char>, theme: Theme)
    ensures
        style::plain_text(labelled_pieces(spaces, label, value, theme)) == spaces + label + " "@
            + value,
{
    let p: Seq<Piece> = labelled_pieces(spaces, label, value, theme);
    let name: Seq<char> = spaces + label + " "@;
    let bare: Seq<char> = text::trimmed_start(value);
    text::lead_and_rest(value);
    if text::same_letters(label, "latest_issue:"@) && !text::same_letters(bare, "none"@) {
        five_pieces_text(p[0], p[1], p[2], p[3], p[4]);
        assert(p =~= seq![p[0], p[1], p[2], p[3], p[4]]);
        four_parts_join(bare);
        assert(name + text::lead(value) + p[1].text + p[2].text + p[3].text + p[4].text =~= name + (
        text::lead(value) + (p[1].text + p[2].text + p[3].text + p[4].text)));
    } else {
        two_pieces_text(p[0], p[1]);
        assert(p =~= seq![p[0], p[1]]);
        assert(name + text::lead(value) + bare =~= name + (text::lead(value) + bare));
    }
}

/// Every line of the tab is drawn with its own text.
pub proof fn drawn_lines_keep_text(line: Seq<char>, theme: Theme)
    ensures
        style::plain_text(styled_line(line, theme)) == line,
{
    let all: Seq<Piece> = styled_line(line, theme);
    if line.len() == 0 {
        assert(style::plain_text(all) =~= line);
    } else if line == " Summary"@ || line == " Recent issues"@ || line == " Runtime log tail"@ {
        style::one_piece_text(all[0]);
        assert(all =~= seq![all[0]]);
    } else if let Some(lv) = labelled(line) {
        let bare: Seq<char> = text::without_leading(line, ' ');
        indent_and_rest(line);
        text::around_makes_whole(bare, " "@);
        labels_keep_text(indent(line), lv.0, lv.1, theme);
        assert(indent(line) + lv.0 + " "@ + lv.1 =~= indent(line) + (lv.0 + " "@ + lv.1));
    } else if let Some(rest) = text::after_prefix(line, " ERROR "@) {
        severity_keeps_text(" ERROR "@, rest, theme.error, theme);
        assert(" ERROR "@ + rest =~= line);
    } else if let Some(rest) = text::after_prefix(line, " WARN  "@) {
        severity_keeps_text(" WARN  "@, rest, theme.warning, theme);
        assert(" WARN  "@ + rest =~= line);
    } else if let Some(rest) = text::after_prefix(line, " INFO  "@) {
        severity_keeps_text(" INFO  "@, rest, theme.title, theme);
        assert(" INFO  "@ + rest =~= line);
    } else if let Some(rest) = text::after_prefix(line, " · "@) {
        runtime_keeps_text(rest, theme);
        assert(" · "@ + rest =~= line);
    } else {
        style::one_piece_text(all[0]);
        assert(all =~= seq![all[0]]);
    }
}

/// A line without the line end behind it.
pub open spec fn without_newline(s: Seq<char>) -> Seq<char> {
    if s.len() > 0 && s.last() == '\n' {
        s.drop_last()
    } else {
        s
    }
}

pub fn trim_newline(s: &str) -> (r: String)
    ensures
        r@ == without_newline(s@),
{
    let v: Vec<char> = text::chars_of(s);
    let n: usize = v.len();
    if n > 0 && v[n - 1] == '\n' {
        let r: String = text::head_of(s, n - 1);
        assert(r@ =~= s@.drop_last());
        r
    } else {
        text::copy(s)
    }
}

/// The lines of the scratchpad.
pub open spec fn scratchpad(st: AppState, width: int) -> Seq<Seq<char>> {
    seq![" SCRATCHPAD"@, roster_lines::rule(width), " (legacy NOTES content)"@] + (if st.notes@.len()
        == 0 {
        seq![" <empty>"@]
    } else {
        Seq::new(
            st.notes@.len(),
            |i: int| fit::left(without_newline(st.notes@[i]@), text::monus(width, 1)),
        )
    })
}

pub fn scratchpad_lines(st: &AppState, width: usize) -> (r: Vec<String>)
    ensures
        text::texts(r@) == scratchpad(*st, width as int),
{
    broadcast use text::group_texts;

    let mut out: Vec<String> = vec![
        text::copy(" SCRATCHPAD"),
        roster_lines::rule_line(width),
        text::copy(" (legacy NOTES content)"),
    ];
    let ghost head: Seq<Seq<char>> = seq![
        " SCRATCHPAD"@,
        roster_lines::rule(width as int),
        " (legacy NOTES content)"@,
    ];
    assert(text::texts(out@) =~= head);
    if st.notes.len() == 0 {
        out.push(text::copy(" <empty>"));
        assert(text::texts(out@) =~= scratchpad(*st, width as int));
        return out;
    }
    let ghost lines: Seq<Seq<char>> = Seq::new(
        st.notes@.len(),
        |i: int| fit::left(without_newline(st.notes@[i]@), text::monus(width as int, 1)),
    );
    let mut i: usize = 0;
    assert(head + lines.take(0) =~= head);
    while i < st.notes.len()
        invariant
            i <= st.notes@.len(),
            lines == Seq::new(
                st.notes@.len(),
                |i: int| fit::left(without_newline(st.notes@[i]@), text::monus(width as int, 1)),
            ),
            text::texts(out@) == head + lines.take(i as int),
        decreases st.notes@.len() - i,
    {
        let line: String = trim_newline(st.notes[i].as_str());
        let fitted: String = fit::fit_left(line.as_str(), text::minus(width, 1));
        out.push(fitted);
        i += 1;
        assert(head + lines.take(i as int) =~= (head + lines.take(i - 1)).push(fitted@));
    }
    assert(lines.take(i as int) =~= lines);
    out
}

} // verus!
