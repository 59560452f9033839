//! The history of saved runs.

use vstd::prelude::*;

use crate::counting;
use crate::order;
use crate::state;
use crate::state::AppState;
use crate::state::ArchivedRun;
use crate::state::PersistedArtifactsRun;
use crate::state::SavedRunHistoryFilter;
use crate::text;

verus! {

#[derive(Clone, Copy, Debug, PartialEq, Eq, Structural)]
pub enum SavedArtifactsRunKind {
    Current,
    Archived,
}

/// A line of the history.
#[derive(Debug)]
pub struct SavedArtifactsRunEntry {
    pub kind: SavedArtifactsRunKind,
    pub label: String,
    pub detail: String,
    pub run_path: Option<String>,
    pub archive_micros: Option<u128>,
}

/// What a line of the history says.
pub struct RunEntry {
    pub kind: SavedArtifactsRunKind,
    pub label: Seq<char>,
    pub detail: Seq<char>,
    pub run_path: Option<Seq<char>>,
    pub archive_micros: Option<u128>,
}

impl View for SavedArtifactsRunEntry {
    type V = RunEntry;

    open spec fn view(&self) -> RunEntry {
        RunEntry {
            kind: self.kind,
            label: self.label@,
            detail: self.detail@,
            run_path: text::opt_text(self.run_path),
            archive_micros: self.archive_micros,
        }
    }
}

impl SavedArtifactsRunEntry {
    pub fn copy(&self) -> (r: SavedArtifactsRunEntry)
        ensures
            r == *self,
    {
        SavedArtifactsRunEntry {
            kind: self.kind,
            label: self.label.clone(),
            detail: self.detail.clone(),
            run_path: state::clone_opt(&self.run_path),
            archive_micros: self.archive_micros,
        }
    }
}

/// What the lines of a history say.
pub open spec fn views(v: Seq<SavedArtifactsRunEntry>) -> Seq<RunEntry> {
    Seq::new(v.len(), |i: int| v[i]@)
}

/// A name in which everything but letters, digits, dashes and underscores is an underscore.
pub open spec fn sanitized(s: Seq<char>) -> Seq<char> {
    s.map_values(
        |c: char|
            if text::alnum(c) || c == '-' || c == '_' {
                c
            } else {
                '_'
            },
    )
}

pub fn sanitize_artifact_path_segment(s: &str) -> (r: String)
    ensures
        r@ == sanitized(s@),
{
    let v: Vec<char> = text::chars_of(s);
    let mut out: String = String::new();
    let mut i: usize = 0;
    assert(out@ =~= sanitized(s@).take(0));
    while i < v.len()
        invariant
            i <= v@.len(),
            v@ == s@,
            out@ == sanitized(s@).take(i as int),
        decreases v@.len() - i,
    {
        let c: char = v[i];
        let kept: char = if text::is_alnum(c) || c == '-' || c == '_' {
            c
        } else {
            '_'
        };
        out.push(kept);
        i += 1;
        assert(sanitized(s@).take(i as int) =~= sanitized(s@).take(i - 1).push(kept));
    }
    assert(sanitized(s@).take(i as int) =~= sanitized(s@));
    out
}

/// Sanitizing a name twice changes nothing more.
pub proof fn sanitized_again(s: Seq<char>)
    ensures
        sanitized(sanitized(s)) == sanitized(s),
{
    assert(sanitized(sanitized(s)) =~= sanitized(s));
}

pub open spec fn ad_hoc_root(id: Seq<char>) -> Seq<char> {
    ".nit/agents/ad-hoc/"@ + sanitized(id) + "/"@
}

pub fn persisted_ad_hoc_root(agent_id: &str) -> (r: String)
    ensures
        r@ == ad_hoc_root(agent_id@),
{
    let name: String = sanitize_artifact_path_segment(agent_id);
    text::cat3(".nit/agents/ad-hoc/", name.as_str(), "/")
}

/// When a run was last written, as it says itself.
pub open spec fn updated_label(updated: Option<Seq<char>>) -> Seq<char> {
    match updated {
        Some(s) => if text::trimmed(s).len() > 0 {
            text::trimmed(s)
        } else {
            "--"@
        },
        None => "--"@,
    }
}

pub fn persisted_run_updated_label(run: &PersistedArtifactsRun) -> (r: String)
    ensures
        r@ == updated_label(text::opt_text(run.updated_at)),
{
    match &run.updated_at {
        Some(s) => {
            let bare: String = text::trim(s.as_str());
            if text::length(bare.as_str()) > 0 {
                bare
            } else {
                text::copy("--")
            }
        },
        None => text::copy("--"),
    }
}

/// The time that the name of an archive starts with, in microseconds.
pub open spec fn archive_time(dir_name: Seq<char>) -> Option<nat> {
    let prefix: Seq<char> = text::before_first(dir_name, '-');
    if prefix.len() > 0 && text::all_digits(prefix) {
        text::number(prefix, u128::MAX as nat)
    } else {
        None
    }
}

pub fn persisted_history_archive_micros(dir_name: &str) -> (r: Option<u128>)
    ensures
        match r {
            Some(x) => archive_time(dir_name@) == Some(x as nat),
            None => archive_time(dir_name@) is None,
        },
{
    let prefix: String = text::text_before_first(dir_name, '-');
    if text::length(prefix.as_str()) > 0 && text::is_all_digits(prefix.as_str()) {
        text::parse_u128(prefix.as_str())
    } else {
        None
    }
}

/// How long ago a run was saved.
pub open spec fn relative_label(saved: Option<u128>, now: u128) -> Seq<char> {
    match saved {
        None => "saved run"@,
        Some(at) => {
            let secs: int = text::monus(now as int, at as int) / 1_000_000;
            if secs < 30 {
                "saved just now"@
            } else if secs < 3_600 {
                "saved "@ + text::decimal((secs / 60) as nat) + "m ago"@
            } else if secs < 86_400 {
                "saved "@ + text::decimal((secs / 3_600) as nat) + "h ago"@
            } else if secs < 2_592_000 {
                "saved "@ + text::decimal((secs / 86_400) as nat) + "d ago"@
            } else if secs < 31_536_000 {
                "saved "@ + text::decimal((secs / 2_592_000) as nat) + "mo ago"@
            } else {
                "saved "@ + text::decimal((secs / 31_536_000) as nat) + "y ago"@
            }
        },
    }
}

pub fn format_saved_run_relative_label_from_micros(saved: Option<u128>, now: u128) -> (r: String)
    ensures
        r@ == relative_label(saved, now),
{
    let at: u128 = match saved {
        Some(at) => at,
        None => {
            return text::copy("saved run");
        },
    };
    let secs: u128 = (if now > at {
        now - at
    } else {
        0
    }) / 1_000_000;
    if secs < 30 {
        return text::copy("saved just now");
    }
    let (count, unit): (u128, &str) = if secs < 3_600 {
        (secs / 60, "m ago")
    } else if secs < 86_400 {
        (secs / 3_600, "h ago")
    } else if secs < 2_592_000 {
        (secs / 86_400, "d ago")
    } else if secs < 31_536_000 {
        (secs / 2_592_000, "mo ago")
    } else {
        (secs / 31_536_000, "y ago")
    };
    let number: String = text::decimal_u128(count);
    text::cat3("saved ", number.as_str(), unit)
}

/// Year, month, day, hour and minute of a moment, in UTC.
pub uninterp spec fn utc_minute(nanos: int) -> Option<(i32, u8, u8, u8, u8)>;

/// The moment `nanos` nanoseconds after the start of 1970, by
/// `time::OffsetDateTime::from_unix_timestamp_nanos`: its year, month, day, hour and minute in
/// UTC. It exists at least up to the end of the year 9999, and its hour and minute are those of
/// the time since midnight. How the days make up a date is left to the name.
#[verifier::external_body]
fn minute_of(nanos: i128) -> (r: Option<(i32, u8, u8, u8, u8)>)
    ensures
        r == utc_minute(nanos as int),
        0 <= nanos < 253_402_300_800_000_000_000 ==> r is Some,
        r matches Some(m) ==> m.3 == (nanos as int / 3_600_000_000_000) % 24 && m.4 == (nanos as int
            / 60_000_000_000) % 60,
{
    let at: time::OffsetDateTime = time::OffsetDateTime::from_unix_timestamp_nanos(nanos).ok()?;
    Some((at.year(), at.month() as u8, at.day(), at.hour(), at.minute()))
}

/// A number with zeros before it to fill `width` characters, the sign among them.
pub open spec fn zero_padded(n: int, width: int) -> Seq<char> {
    if n < 0 {
        let digits: Seq<char> = text::decimal((-n) as nat);
        "-"@ + text::fill('0', text::monus(width - 1, digits.len() as int) as nat) + digits
    } else {
        let digits: Seq<char> = text::decimal(n as nat);
        text::fill('0', text::monus(width, digits.len() as int) as nat) + digits
    }
}

fn year_text(year: i32) -> (r: String)
    ensures
        r@ == zero_padded(year as int, 4),
{
    if year < 0 {
        let digits: String = text::decimal_u64((-(year as i64)) as u64);
        let zeros: String = text::filled('0', text::minus(3, text::length(digits.as_str())));
        text::cat3("-", zeros.as_str(), digits.as_str())
    } else {
        let digits: String = text::decimal_u64(year as u64);
        let zeros: String = text::filled('0', text::minus(4, text::length(digits.as_str())));
        text::cat2(zeros.as_str(), digits.as_str())
    }
}

/// A moment, spelled out to the minute.
pub open spec fn minute_label(m: (i32, u8, u8, u8, u8)) -> Seq<char> {
    zero_padded(m.0 as int, 4) + "-"@ + text::two_digits(m.1 as nat) + "-"@ + text::two_digits(
        m.2 as nat,
    ) + " "@ + text::two_digits(m.3 as nat) + ":"@ + text::two_digits(m.4 as nat) + " UTC"@
}

pub fn spell_minute(m: (i32, u8, u8, u8, u8)) -> (r: String)
    ensures
        r@ == minute_label(m),
{
    let mut out: String = year_text(m.0);
    out.push_str("-");
    out.push_str(text::two_digits_u64(m.1 as u64).as_str());
    out.push_str("-");
    out.push_str(text::two_digits_u64(m.2 as u64).as_str());
    out.push_str(" ");
    out.push_str(text::two_digits_u64(m.3 as u64).as_str());
    out.push_str(":");
    out.push_str(text::two_digits_u64(m.4 as u64).as_str());
    out.push_str(" UTC");
    out
}

/// When a run was saved, where that is a moment on the calendar.
pub open spec fn absolute_label(saved: Option<u128>) -> Option<Seq<char>> {
    match saved {
        Some(at) => if at * 1_000 <= i128::MAX {
            match utc_minute(at * 1_000) {
                Some(m) => Some(minute_label(m)),
                None => None,
            }
        } else {
            None
        },
        None => None,
    }
}

pub fn format_saved_run_absolute_label_from_micros(saved: Option<u128>) -> (r: Option<String>)
    ensures
        text::opt_text(r) == absolute_label(saved),
{
    let at: u128 = match saved {
        Some(at) => at,
        None => {
            return None;
        },
    };
    if at > 170_141_183_460_469_231_731_687_303_715_884_105 {
        return None;
    }
    match minute_of((at * 1_000) as i128) {
        Some(m) => Some(spell_minute(m)),
        None => None,
    }
}

/// The second line of a saved run, given when it was saved.
pub open spec fn detail_label(
    absolute: Option<Seq<char>>,
    updated: Seq<char>,
    counts: Seq<char>,
) -> Seq<char> {
    let run: Seq<char> = text::trimmed(updated);
    let known: bool = run.len() > 0 && run != "--"@;
    match absolute {
        Some(a) => if known {
            a + " · run "@ + run + " · "@ + counts
        } else {
            a + " · "@ + counts
        },
        None => if known {
            run + " · "@ + counts
        } else {
            counts
        },
    }
}

pub fn run_detail(absolute: Option<String>, updated: &str, counts: &str) -> (r: String)
    ensures
        r@ == detail_label(text::opt_text(absolute), updated@, counts@),
{
    let run: String = text::trim(updated);
    let known: bool = text::length(run.as_str()) > 0 && !text::str_eq(run.as_str(), "--");
    match absolute {
        Some(a) => if known {
            text::cat5(a.as_str(), " · run ", run.as_str(), " · ", counts)
        } else {
            text::cat3(a.as_str(), " · ", counts)
        },
        None => if known {
            text::cat3(run.as_str(), " · ", counts)
        } else {
            text::copy(counts)
        },
    }
}

pub fn saved_run_detail_label(saved: Option<u128>, updated: &str, counts: &str) -> (r: String)
    ensures
        r@ == detail_label(absolute_label(saved), updated@, counts@),
{
    run_detail(format_saved_run_absolute_label_from_micros(saved), updated, counts)
}

pub open spec fn filter_label(filter: SavedRunHistoryFilter) -> Seq<char> {
    match filter {
        SavedRunHistoryFilter::All => "all"@,
        SavedRunHistoryFilter::LastDay => "24h"@,
        SavedRunHistoryFilter::LastWeek => "7d"@,
        SavedRunHistoryFilter::LastMonth => "30d"@,
    }
}

pub fn saved_run_history_filter_label(filter: SavedRunHistoryFilter) -> (r: &'static str)
    ensures
        r@ == filter_label(filter),
{
    match filter {
        SavedRunHistoryFilter::All => "all",
        SavedRunHistoryFilter::LastDay => "24h",
        SavedRunHistoryFilter::LastWeek => "7d",
        SavedRunHistoryFilter::LastMonth => "30d",
    }
}

/// How far back a filter reaches, in microseconds.
#[verifier::allow_in_spec]
pub fn saved_run_history_filter_window_micros(filter: SavedRunHistoryFilter) -> Option<u128>
    returns
        (match filter {
            SavedRunHistoryFilter::All => None,
            SavedRunHistoryFilter::LastDay => Some(86_400_000_000u128),
            SavedRunHistoryFilter::LastWeek => Some(604_800_000_000u128),
            SavedRunHistoryFilter::LastMonth => Some(2_592_000_000_000u128),
        }),
{
    match filter {
        SavedRunHistoryFilter::All => None,
        SavedRunHistoryFilter::LastDay => Some(86_400_000_000u128),
        SavedRunHistoryFilter::LastWeek => Some(604_800_000_000u128),
        SavedRunHistoryFilter::LastMonth => Some(2_592_000_000_000u128),
    }
}

/// Whether a moment lies in the window of a filter; one that is not known does.
pub open spec fn in_window(at: Option<u128>, filter: SavedRunHistoryFilter, now: u128) -> bool {
    match (saved_run_history_filter_window_micros(filter), at) {
        (Some(window), Some(t)) => now - t <= window,
        _ => true,
    }
}

pub fn is_in_window(at: Option<u128>, filter: SavedRunHistoryFilter, now: u128) -> (r: bool)
    ensures
        r == in_window(at, filter, now),
{
    match (saved_run_history_filter_window_micros(filter), at) {
        (Some(window), Some(t)) => now <= t || now - t <= window,
        _ => true,
    }
}

/// Whether a filter lets a line of the history through: the current run always.
pub open spec fn matches_filter(entry: RunEntry, filter: SavedRunHistoryFilter, now: u128) -> bool {
    entry.kind == SavedArtifactsRunKind::Current || in_window(entry.archive_micros, filter, now)
}

pub fn saved_run_entry_matches_filter(
    entry: &SavedArtifactsRunEntry,
    filter: SavedRunHistoryFilter,
    now: u128,
) -> (r: bool)
    ensures
        r == matches_filter(entry@, filter, now),
{
    entry.kind == SavedArtifactsRunKind::Current || is_in_window(entry.archive_micros, filter, now)
}

/// The messages of a run that belong to a mission.
pub open spec fn mission_message(run: PersistedArtifactsRun, id: Seq<char>) -> spec_fn(int) -> bool {
    |k: int| text::opt_text(run.messages@[k].mission_id) == Some(id)
}

pub open spec fn mission_patch(run: PersistedArtifactsRun, id: Seq<char>) -> spec_fn(int) -> bool {
    |k: int| text::opt_text(run.patches@[k].mission_id) == Some(id)
}

pub open spec fn mission_evidence(run: PersistedArtifactsRun, id: Seq<char>) -> spec_fn(int) -> bool {
    |k: int| text::opt_text(run.evidence@[k].mission_id) == Some(id)
}

/// The messages of a run that belong to the chat with an agent: its own and those of the user.
pub open spec fn ad_hoc_message(run: PersistedArtifactsRun, id: Seq<char>) -> spec_fn(int) -> bool {
    |k: int|
        run.messages@[k].mission_id is None && (run.messages@[k].agent_id is None || text::opt_text(
            run.messages@[k].agent_id,
        ) == Some(id))
}

pub open spec fn ad_hoc_patch(run: PersistedArtifactsRun, id: Seq<char>) -> spec_fn(int) -> bool {
    |k: int| run.patches@[k].mission_id is None && run.patches@[k].agent_id@ == id
}

pub open spec fn ad_hoc_evidence(run: PersistedArtifactsRun, id: Seq<char>) -> spec_fn(int) -> bool {
    |k: int|
        run.evidence@[k].mission_id is None && text::opt_text(run.evidence@[k].agent_id) == Some(id)
}

/// The numbers of messages, changes and findings of a run that belong to a mission.
pub open spec fn mission_counts(run: PersistedArtifactsRun, id: Seq<char>) -> (nat, nat, nat) {
    (
        counting::counted(run.messages@.len() as int, mission_message(run, id)),
        counting::counted(run.patches@.len() as int, mission_patch(run, id)),
        counting::counted(run.evidence@.len() as int, mission_evidence(run, id)),
    )
}

/// The numbers of messages, changes and findings of a run that belong to the chat with an agent.
pub open spec fn ad_hoc_counts(run: PersistedArtifactsRun, id: Seq<char>) -> (nat, nat, nat) {
    (
        counting::counted(run.messages@.len() as int, ad_hoc_message(run, id)),
        counting::counted(run.patches@.len() as int, ad_hoc_patch(run, id)),
        counting::counted(run.evidence@.len() as int, ad_hoc_evidence(run, id)),
    )
}

pub fn mission_run_counts(run: &PersistedArtifactsRun, id: &str) -> (r: (usize, usize, usize))
    ensures
        (r.0 as nat, r.1 as nat, r.2 as nat) == mission_counts(*run, id@),
{
    let mut messages: usize = 0;
    let mut i: usize = 0;
    while i < run.messages.len()
        invariant
            i <= run.messages@.len(),
            messages <= i,
            messages == counting::counted(i as int, mission_message(*run, id@)),
        decreases run.messages@.len() - i,
    {
        if text::opt_str_eq(&run.messages[i].mission_id, id) {
            messages += 1;
        }
        i += 1;
    }
    let mut patches: usize = 0;
    i = 0;
    while i < run.patches.len()
        invariant
            i <= run.patches@.len(),
            patches <= i,
            patches == counting::counted(i as int, mission_patch(*run, id@)),
        decreases run.patches@.len() - i,
    {
        if text::opt_str_eq(&run.patches[i].mission_id, id) {
            patches += 1;
        }
        i += 1;
    }
    let mut evidence: usize = 0;
    i = 0;
    while i < run.evidence.len()
        invariant
            i <= run.evidence@.len(),
            evidence <= i,
            evidence == counting::counted(i as int, mission_evidence(*run, id@)),
        decreases run.evidence@.len() - i,
    {
        if text::opt_str_eq(&run.evidence[i].mission_id, id) {
            evidence += 1;
        }
        i += 1;
    }
    (messages, patches, evidence)
}

pub fn ad_hoc_run_counts(run: &PersistedArtifactsRun, id: &str) -> (r: (usize, usize, usize))
    ensures
        (r.0 as nat, r.1 as nat, r.2 as nat) == ad_hoc_counts(*run, id@),
{
    let mut messages: usize = 0;
    let mut i: usize = 0;
    while i < run.messages.len()
        invariant
            i <= run.messages@.len(),
            messages <= i,
            messages == counting::counted(i as int, ad_hoc_message(*run, id@)),
        decreases run.messages@.len() - i,
    {
        if run.messages[i].mission_id.is_none() && (run.messages[i].agent_id.is_none()
            || text::opt_str_eq(&run.messages[i].agent_id, id)) {
            messages += 1;
        }
        i += 1;
    }
    let mut patches: usize = 0;
    i = 0;
    while i < run.patches.len()
        invariant
            i <= run.patches@.len(),
            patches <= i,
            patches == counting::counted(i as int, ad_hoc_patch(*run, id@)),
        decreases run.patches@.len() - i,
    {
        if run.patches[i].mission_id.is_none() && text::str_eq(
            run.patches[i].agent_id.as_str(),
            id,
        ) {
            patches += 1;
        }
        i += 1;
    }
    let mut evidence: usize = 0;
    i = 0;
    while i < run.evidence.len()
        invariant
            i <= run.evidence@.len(),
            evidence <= i,
            evidence == counting::counted(i as int, ad_hoc_evidence(*run, id@)),
        decreases run.evidence@.len() - i,
    {
        if run.evidence[i].mission_id.is_none() && text::opt_str_eq(
            &run.evidence[i].agent_id,
            id,
        ) {
            evidence += 1;
        }
        i += 1;
    }
    (messages, patches, evidence)
}

/// What a saved run holds for the current context.
pub open spec fn run_counts(st: AppState, run: PersistedArtifactsRun) -> Seq<char> {
    let counts: (nat, nat, nat) = match (st.agents.context_mission, st.agents.context_agent) {
        (Some(m), _) => mission_counts(run, m@),
        (None, Some(a)) => ad_hoc_counts(run, a@),
        (None, None) => (0, 0, 0),
    };
    text::decimal(counts.0) + " msgs · "@ + text::decimal(counts.1) + " patches · "@
        + text::decimal(counts.2) + " evidence"@
}

fn counts_of(st: &AppState, run: &PersistedArtifactsRun) -> (r: String)
    ensures
        r@ == run_counts(*st, *run),
{
    let counts: (usize, usize, usize) = match (
        &st.agents.context_mission,
        &st.agents.context_agent,
    ) {
        (Some(m), _) => mission_run_counts(run, m.as_str()),
        (None, Some(a)) => ad_hoc_run_counts(run, a.as_str()),
        (None, None) => (0, 0, 0),
    };
    let messages: String = text::decimal_usize(counts.0);
    let patches: String = text::decimal_usize(counts.1);
    let evidence: String = text::decimal_usize(counts.2);
    text::cat6(
        messages.as_str(),
        " msgs · ",
        patches.as_str(),
        " patches · ",
        evidence.as_str(),
        " evidence",
    )
}

/// The line of a run that was saved at a given moment.
pub open spec fn saved_entry(
    st: AppState,
    run: PersistedArtifactsRun,
    path: Seq<char>,
    saved: Option<u128>,
) -> RunEntry {
    RunEntry {
        kind: SavedArtifactsRunKind::Archived,
        label: relative_label(saved, st.saved.now_micros),
        detail: detail_label(
            absolute_label(saved),
            updated_label(text::opt_text(run.updated_at)),
            run_counts(st, run),
        ),
        run_path: Some(path),
        archive_micros: saved,
    }
}

fn entry_of(st: &AppState, run: &PersistedArtifactsRun, path: &str, saved: Option<u128>) -> (r:
    SavedArtifactsRunEntry)
    ensures
        r@ == saved_entry(*st, *run, path@, saved),
{
    let updated: String = persisted_run_updated_label(run);
    let counts: String = counts_of(st, run);
    SavedArtifactsRunEntry {
        kind: SavedArtifactsRunKind::Archived,
        label: format_saved_run_relative_label_from_micros(saved, st.saved.now_micros),
        detail: saved_run_detail_label(saved, updated.as_str(), counts.as_str()),
        run_path: Some(text::copy(path)),
        archive_micros: saved,
    }
}

/// When an archive was made.
pub open spec fn archived_at(a: ArchivedRun) -> Option<u128> {
    match archive_time(a.dir_name@) {
        Some(t) => Some(t as u128),
        None => None,
    }
}

/// The names of the directories of the archives.
pub open spec fn archive_names(st: AppState) -> Seq<Seq<char>> {
    Seq::new(st.saved.archives@.len(), |i: int| st.saved.archives@[i].dir_name@)
}

/// The archive at place `i` of the history: the one whose directory has the last name comes first.
pub open spec fn archive_at(st: AppState, i: int) -> ArchivedRun {
    st.saved.archives@[order::last_name_first(archive_names(st))[i] as int]
}

pub open spec fn archive_entries(st: AppState) -> Seq<RunEntry> {
    Seq::new(
        st.saved.archives@.len(),
        |i: int|
            saved_entry(
                st,
                archive_at(st, i).run,
                archive_at(st, i).run_path@,
                archived_at(archive_at(st, i)),
            ),
    )
}

fn archive_places(st: &AppState) -> (r: Vec<usize>)
    ensures
        r@ == order::last_name_first(archive_names(*st)),
        r@.len() == st.saved.archives@.len(),
        forall|i: int| 0 <= i < r@.len() ==> (#[trigger] r@[i]) < st.saved.archives@.len(),
{
    broadcast use text::group_texts;

    let mut names: Vec<String> = Vec::new();
    let mut i: usize = 0;
    assert(text::texts(names@) =~= archive_names(*st).take(0));
    while i < st.saved.archives.len()
        invariant
            i <= st.saved.archives@.len(),
            names@.len() == i,
            text::texts(names@) == archive_names(*st).take(i as int),
        decreases st.saved.archives@.len() - i,
    {
        broadcast use text::group_texts;

        names.push(st.saved.archives[i].dir_name.clone());
        i += 1;
        assert(archive_names(*st).take(i as int) =~= archive_names(*st).take(i - 1).push(
            archive_names(*st)[i - 1],
        ));
    }
    assert(archive_names(*st).take(i as int) =~= archive_names(*st));
    order::name_places(&names)
}

/// The line of the current run.
pub open spec fn latest_entry() -> RunEntry {
    RunEntry {
        kind: SavedArtifactsRunKind::Current,
        label: "current / latest saved run"@,
        detail: "Use the live thread when available, otherwise the latest saved run."@,
        run_path: None,
        archive_micros: None,
    }
}

/// Whether something is selected whose runs are kept.
pub open spec fn in_context(st: AppState) -> bool {
    st.agents.context_mission is Some || st.agents.context_agent is Some
}

/// The history of the current context: the archives, or the run that is being written where there
/// is no archive yet.
pub open spec fn entries(st: AppState) -> Seq<RunEntry> {
    seq![latest_entry()] + (if !in_context(st) {
        Seq::empty()
    } else if st.saved.archives@.len() > 0 {
        archive_entries(st)
    } else {
        match st.saved.current {
            Some(c) => seq![saved_entry(st, c.run, c.run_path@, c.modified_micros)],
            None => Seq::empty(),
        }
    })
}

proof fn views_push(v: Seq<SavedArtifactsRunEntry>, e: SavedArtifactsRunEntry)
    ensures
        views(v.push(e)) == views(v).push(e@),
{
    assert(views(v.push(e)) =~= views(v).push(e@));
}

pub fn artifacts_history_entries(st: &AppState) -> (r: Vec<SavedArtifactsRunEntry>)
    ensures
        views(r@) == entries(*st),
{
    let mut out: Vec<SavedArtifactsRunEntry> = Vec::new();
    out.push(
        SavedArtifactsRunEntry {
            kind: SavedArtifactsRunKind::Current,
            label: text::copy("current / latest saved run"),
            detail: text::copy(
                "Use the live thread when available, otherwise the latest saved run.",
            ),
            run_path: None,
            archive_micros: None,
        },
    );
    let ghost head: Seq<RunEntry> = seq![latest_entry()];
    assert(views(out@) =~= head);
    if st.agents.context_mission.is_none() && st.agents.context_agent.is_none() {
        assert(views(out@) =~= entries(*st));
        return out;
    }
    let archives: &Vec<ArchivedRun> = &st.saved.archives;
    if archives.len() == 0 {
        if let Some(c) = &st.saved.current {
            let e: SavedArtifactsRunEntry = entry_of(
                st,
                &c.run,
                c.run_path.as_str(),
                c.modified_micros,
            );
            proof {
                views_push(out@, e);
            }
            out.push(e);
        }
        assert(views(out@) =~= entries(*st));
        return out;
    }
    let ghost all: Seq<RunEntry> = archive_entries(*st);
    let places: Vec<usize> = archive_places(st);
    let mut i: usize = 0;
    assert(head + all.take(0) =~= head);
    while i < archives.len()
        invariant
            i <= archives@.len(),
            archives@ == st.saved.archives@,
            places@ == order::last_name_first(archive_names(*st)),
            places@.len() == archives@.len(),
            forall|k: int| 0 <= k < places@.len() ==> (#[trigger] places@[k]) < archives@.len(),
            all == archive_entries(*st),
            views(out@) == head + all.take(i as int),
        decreases archives@.len() - i,
    {
        let archive: &ArchivedRun = &archives[places[i]];
        assert(*archive == archive_at(*st, i as int));
        let saved: Option<u128> = persisted_history_archive_micros(archive.dir_name.as_str());
        let e: SavedArtifactsRunEntry = entry_of(
            st,
            &archive.run,
            archive.run_path.as_str(),
            saved,
        );
        proof {
            views_push(out@, e);
            assert(saved == archived_at(*archive));
        }
        out.push(e);
        i += 1;
        assert(head + all.take(i as int) =~= (head + all.take(i - 1)).push(e@));
    }
    assert(all.take(i as int) =~= all);
    out
}

/// The lines that the popup shows: those that the filter lets through, and the selected one.
pub open spec fn is_visible(st: AppState) -> spec_fn(int) -> bool {
    |k: int|
        saved_run_history_filter_window_micros(st.agents.artifacts_history_filter) is None
            || entries(st)[k].run_path == text::opt_text(
            st.agents.artifacts_selected_saved_run_path,
        ) || matches_filter(
            entries(st)[k],
            st.agents.artifacts_history_filter,
            st.saved.now_micros,
        )
}

/// The lines that can be deleted: the archived ones that the filter lets through.
pub open spec fn is_prunable(st: AppState) -> spec_fn(int) -> bool {
    |k: int|
        entries(st)[k].kind == SavedArtifactsRunKind::Archived && matches_filter(
            entries(st)[k],
            st.agents.artifacts_history_filter,
            st.saved.now_micros,
        )
}

/// The lines of the history that meet a condition.
pub open spec fn entries_at(st: AppState, places: Seq<int>) -> Seq<RunEntry> {
    Seq::new(places.len(), |i: int| entries(st)[places[i]])
}

pub open spec fn visible_entries(st: AppState) -> Seq<RunEntry> {
    entries_at(st, counting::picked(entries(st).len() as int, is_visible(st)))
}

pub open spec fn prunable_entries(st: AppState) -> Seq<RunEntry> {
    entries_at(st, counting::picked(entries(st).len() as int, is_prunable(st)))
}

fn same_path(a: &Option<String>, b: &Option<String>) -> (r: bool)
    ensures
        r == (text::opt_text(*a) == text::opt_text(*b)),
{
    state::same_opt(a, b)
}

pub fn artifacts_history_visible_entries(st: &AppState) -> (r: Vec<SavedArtifactsRunEntry>)
    ensures
        views(r@) == visible_entries(*st),
{
    let all: Vec<SavedArtifactsRunEntry> = artifacts_history_entries(st);
    let filter: SavedRunHistoryFilter = st.agents.artifacts_history_filter;
    let unfiltered: bool = saved_run_history_filter_window_micros(filter).is_none();
    let mut out: Vec<SavedArtifactsRunEntry> = Vec::new();
    let mut i: usize = 0;
    assert(views(out@) =~= entries_at(*st, counting::picked(0, is_visible(*st))));
    while i < all.len()
        invariant
            i <= all@.len(),
            views(all@) == entries(*st),
            filter == st.agents.artifacts_history_filter,
            unfiltered == (saved_run_history_filter_window_micros(filter) is None),
            views(out@) == entries_at(*st, counting::picked(i as int, is_visible(*st))),
        decreases all@.len() - i,
    {
        let entry: &SavedArtifactsRunEntry = &all[i];
        assert(entry@ == entries(*st)[i as int]);
        let seen: bool = unfiltered || same_path(
            &entry.run_path,
            &st.agents.artifacts_selected_saved_run_path,
        ) || saved_run_entry_matches_filter(entry, filter, st.saved.now_micros);
        assert(seen == is_visible(*st)(i as int));
        if seen {
            let kept: SavedArtifactsRunEntry = entry.copy();
            proof {
                views_push(out@, kept);
                let before: Seq<int> = counting::picked(i as int, is_visible(*st));
                assert(entries_at(*st, before.push(i as int)) =~= entries_at(*st, before).push(
                    kept@,
                ));
            }
            out.push(kept);
        }
        i += 1;
    }
    out
}

pub fn artifacts_history_prunable_entries(st: &AppState) -> (r: Vec<SavedArtifactsRunEntry>)
    ensures
        views(r@) == prunable_entries(*st),
{
    let all: Vec<SavedArtifactsRunEntry> = artifacts_history_entries(st);
    let filter: SavedRunHistoryFilter = st.agents.artifacts_history_filter;
    let mut out: Vec<SavedArtifactsRunEntry> = Vec::new();
    let mut i: usize = 0;
    assert(views(out@) =~= entries_at(*st, counting::picked(0, is_prunable(*st))));
    while i < all.len()
        invariant
            i <= all@.len(),
            views(all@) == entries(*st),
            filter == st.agents.artifacts_history_filter,
            views(out@) == entries_at(*st, counting::picked(i as int, is_prunable(*st))),
        decreases all@.len() - i,
    {
        let entry: &SavedArtifactsRunEntry = &all[i];
        assert(entry@ == entries(*st)[i as int]);
        let prune: bool = entry.kind == SavedArtifactsRunKind::Archived
            && saved_run_entry_matches_filter(entry, filter, st.saved.now_micros);
        assert(prune == is_prunable(*st)(i as int));
        if prune {
            let kept: SavedArtifactsRunEntry = entry.copy();
            proof {
                views_push(out@, kept);
                let before: Seq<int> = counting::picked(i as int, is_prunable(*st));
                assert(entries_at(*st, before.push(i as int)) =~= entries_at(*st, before).push(
                    kept@,
                ));
            }
            out.push(kept);
        }
        i += 1;
    }
    out
}

/// The first line from place `i` on with this path.
pub open spec fn entry_from(v: Seq<RunEntry>, path: Option<Seq<char>>, i: int) -> Option<int>
    decreases v.len() - i,
{
    if i < 0 || i >= v.len() {
        None
    } else if v[i].run_path == path {
        Some(i)
    } else {
        entry_from(v, path, i + 1)
    }
}

/// The line with this path; the first one where there is none.
pub open spec fn entry_index(v: Seq<RunEntry>, path: Option<Seq<char>>) -> int {
    match entry_from(v, path, 0) {
        Some(k) => k,
        None => 0,
    }
}

fn find_entry(v: &Vec<SavedArtifactsRunEntry>, path: &Option<String>) -> (r: Option<usize>)
    ensures
        match r {
            Some(k) => k < v@.len() && entry_from(views(v@), text::opt_text(*path), 0) == Some(
                k as int,
            ),
            None => entry_from(views(v@), text::opt_text(*path), 0) is None,
        },
{
    let mut i: usize = 0;
    while i < v.len()
        invariant
            i <= v@.len(),
            entry_from(views(v@), text::opt_text(*path), 0) == entry_from(
                views(v@),
                text::opt_text(*path),
                i as int,
            ),
        decreases v@.len() - i,
    {
        assert(views(v@)[i as int] == v@[i as int]@);
        if same_path(&v[i].run_path, path) {
            return Some(i);
        }
        i += 1;
    }
    None
}

pub fn artifacts_history_entry_index_for_path(
    v: &Vec<SavedArtifactsRunEntry>,
    path: &Option<String>,
) -> (r: usize)
    ensures
        r == entry_index(views(v@), text::opt_text(*path)),
{
    match find_entry(v, path) {
        Some(k) => k,
        None => 0,
    }
}

/// The archived run that is selected, by its place in the history.
pub open spec fn selected_archived(st: AppState) -> Option<int> {
    match st.agents.artifacts_selected_saved_run_path {
        Some(p) => entry_from(entries(st), Some(p@), 0),
        None => None,
    }
}

/// The run behind place `k` of the history.
pub open spec fn run_at(st: AppState, k: int) -> PersistedArtifactsRun {
    if st.saved.archives@.len() > 0 {
        archive_at(st, k - 1).run
    } else {
        st.saved.current->0.run
    }
}

proof fn found_is_in(v: Seq<RunEntry>, path: Option<Seq<char>>, i: int)
    ensures
        entry_from(v, path, i) matches Some(k) ==> i <= k < v.len() && v[k].run_path == path,
    decreases v.len() - i,
{
    if 0 <= i < v.len() {
        found_is_in(v, path, i + 1);
    }
}

/// The selected archived run with its line in the history.
pub fn selected_archived_run_for_current_context<'a>(st: &'a AppState) -> (r: Option<
    (SavedArtifactsRunEntry, &'a PersistedArtifactsRun),
>)
    ensures
        match r {
            Some(er) => selected_archived(*st) matches Some(k) && er.0@ == entries(*st)[k] && *er.1
                == run_at(*st, k),
            None => selected_archived(*st) is None,
        },
{
    if st.agents.artifacts_selected_saved_run_path.is_none() {
        return None;
    }
    let all: Vec<SavedArtifactsRunEntry> = artifacts_history_entries(st);
    proof {
        found_is_in(
            entries(*st),
            text::opt_text(st.agents.artifacts_selected_saved_run_path),
            0,
        );
    }
    match find_entry(&all, &st.agents.artifacts_selected_saved_run_path) {
        Some(k) => {
            assert(all@[k as int]@ == entries(*st)[k as int]);
            let run: &PersistedArtifactsRun = if st.saved.archives.len() > 0 {
                let places: Vec<usize> = archive_places(st);
                &st.saved.archives[places[k - 1]].run
            } else {
                match &st.saved.current {
                    Some(c) => &c.run,
                    None => {
                        return None;
                    },
                }
            };
            Some((all[k].copy(), run))
        },
        None => None,
    }
}

pub fn artifacts_selected_history_entry(st: &AppState) -> (r: usize)
    ensures
        r == entry_index(
            entries(*st),
            text::opt_text(st.agents.artifacts_selected_saved_run_path),
        ),
{
    let all: Vec<SavedArtifactsRunEntry> = artifacts_history_entries(st);
    artifacts_history_entry_index_for_path(&all, &st.agents.artifacts_selected_saved_run_path)
}

pub fn artifacts_selected_visible_history_entry(st: &AppState) -> (r: usize)
    ensures
        r == entry_index(
            visible_entries(*st),
            text::opt_text(st.agents.artifacts_selected_saved_run_path),
        ),
{
    let all: Vec<SavedArtifactsRunEntry> = artifacts_history_visible_entries(st);
    artifacts_history_entry_index_for_path(&all, &st.agents.artifacts_selected_saved_run_path)
}

/// The name of the run that is shown.
pub open spec fn summary_label(st: AppState) -> Seq<char> {
    match selected_archived(st) {
        Some(k) => entries(st)[k].label,
        None => "current / latest saved run"@,
    }
}

pub fn artifacts_history_summary_label(st: &AppState) -> (r: String)
    ensures
        r@ == summary_label(*st),
{
    match selected_archived_run_for_current_context(st) {
        Some(er) => er.0.label,
        None => text::copy("current / latest saved run"),
    }
}

/// The history is never empty: its first line is the current run, which every filter lets through
/// and which is never deleted.
pub proof fn current_run_stays(st: AppState)
    ensures
        entries(st).len() > 0,
        entries(st)[0] == latest_entry(),
        is_visible(st)(0),
        !is_prunable(st)(0),
        visible_entries(st).len() > 0,
        visible_entries(st)[0] == latest_entry(),
{
    let places: Seq<int> = counting::picked(entries(st).len() as int, is_visible(st));
    counting::picked_holds(entries(st).len() as int, is_visible(st), 0);
    counting::picked_are_in_order(entries(st).len() as int, is_visible(st));
    let k: int = choose|k: int| 0 <= k < places.len() && places[k] == 0;
    if k > 0 {
        assert(places[0] < places[k]);
    }
}

/// Where nothing was archived yet, the run that is being written is listed.
pub proof fn written_run_is_listed(st: AppState)
    requires
        in_context(st),
        st.saved.archives@.len() == 0,
        st.saved.current is Some,
    ensures
        entries(st).len() == 2,
        entries(st)[1].run_path == Some((st.saved.current->0).run_path@),
        entries(st)[1].archive_micros == (st.saved.current->0).modified_micros,
{
}

/// Of two archives, the one whose directory has the later name is listed first.
pub proof fn later_archives_come_first(st: AppState, i: int, j: int)
    requires
        0 <= i < j < st.saved.archives@.len() <= usize::MAX,
    ensures
        !order::less(archive_at(st, i).dir_name@, archive_at(st, j).dir_name@),
{
    let names: Seq<Seq<char>> = archive_names(st);
    order::names_are_sorted(names, names.len() as int);
    let a: usize = order::last_name_first(names)[i];
    let b: usize = order::last_name_first(names)[j];
    assert(names[a as int] == archive_at(st, i).dir_name@);
    assert(names[b as int] == archive_at(st, j).dir_name@);
}

/// Without a filter everything is visible.
pub proof fn all_is_visible_without_filter(st: AppState)
    requires
        st.agents.artifacts_history_filter == SavedRunHistoryFilter::All,
    ensures
        visible_entries(st) == entries(st),
{
    counting::picked_all(entries(st).len() as int, is_visible(st));
    assert(visible_entries(st) =~= entries(st));
}

/// The selected run stays visible whatever the filter is, and it is the one that is selected among
/// the visible lines.
pub proof fn selected_run_stays_visible(st: AppState, k: int)
    requires
        selected_archived(st) == Some(k),
    ensures
        is_visible(st)(k),
        0 <= entry_index(
            visible_entries(st),
            text::opt_text(st.agents.artifacts_selected_saved_run_path),
        ) < visible_entries(st).len(),
        visible_entries(st)[entry_index(
            visible_entries(st),
            text::opt_text(st.agents.artifacts_selected_saved_run_path),
        )].run_path == text::opt_text(st.agents.artifacts_selected_saved_run_path),
{
    let path: Option<Seq<char>> = text::opt_text(st.agents.artifacts_selected_saved_run_path);
    found_is_in(entries(st), path, 0);
    let places: Seq<int> = counting::picked(entries(st).len() as int, is_visible(st));
    counting::picked_holds(entries(st).len() as int, is_visible(st), k);
    let j: int = choose|j: int| 0 <= j < places.len() && places[j] == k;
    assert(visible_entries(st)[j].run_path == path);
    entry_is_found(visible_entries(st), path, 0, j);
    found_is_in(visible_entries(st), path, 0);
}

proof fn entry_is_found(v: Seq<RunEntry>, path: Option<Seq<char>>, i: int, j: int)
    requires
        0 <= i <= j < v.len(),
        v[j].run_path == path,
    ensures
        entry_from(v, path, i) is Some,
    decreases j - i,
{
    if i < j {
        entry_is_found(v, path, i + 1, j);
    }
}

} // verus!
