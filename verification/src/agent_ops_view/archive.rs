//! The archive of all runs, and searching it.

use vstd::prelude::*;

use crate::agent_ops_view::history;
use crate::counting;
use crate::order;
use crate::previews;
use crate::state;
use crate::state::AgentMessage;
use crate::state::AgentsState;
use crate::state::EvidenceItem;
use crate::state::PersistedArtifactsRun;
use crate::state::PersistedPatchRecord;
use crate::state::SavedRunHistoryFilter;
use crate::text;

verus! {

#[derive(Clone, Copy, Debug, PartialEq, Eq, Structural)]
pub enum GlobalArchiveSourceKind {
    Mission,
    AdHoc,
}

/// An item of the archive.
#[derive(Debug)]
pub struct GlobalArchiveEntry {
    pub kind: &'static str,
    pub owner: String,
    pub preview: String,
    pub source: String,
    pub source_id: String,
    pub source_kind: GlobalArchiveSourceKind,
    pub time_label: String,
    pub archive_micros: Option<u128>,
    /// When the file was changed that it was read from.
    pub mtime: Option<u128>,
    pub run_path: String,
    pub artifact_index: usize,
    pub search_hay: String,
    pub search_tokens: Vec<String>,
}

/// What an item of the archive says.
pub struct ArchiveItem {
    pub kind: Seq<char>,
    pub owner: Seq<char>,
    pub preview: Seq<char>,
    pub source: Seq<char>,
    pub source_id: Seq<char>,
    pub source_kind: GlobalArchiveSourceKind,
    pub time_label: Seq<char>,
    pub archive_micros: Option<u128>,
    pub mtime: Option<u128>,
    pub run_path: Seq<char>,
    pub artifact_index: int,
    pub search_hay: Seq<char>,
    pub search_tokens: Seq<Seq<char>>,
}

impl View for GlobalArchiveEntry {
    type V = ArchiveItem;

    open spec fn view(&self) -> ArchiveItem {
        ArchiveItem {
            kind: self.kind@,
            owner: self.owner@,
            preview: self.preview@,
            source: self.source@,
            source_id: self.source_id@,
            source_kind: self.source_kind,
            time_label: self.time_label@,
            archive_micros: self.archive_micros,
            mtime: self.mtime,
            run_path: self.run_path@,
            artifact_index: self.artifact_index as int,
            search_hay: self.search_hay@,
            search_tokens: text::texts(self.search_tokens@),
        }
    }
}

/// What the items of an archive say.
pub open spec fn items(v: Seq<GlobalArchiveEntry>) -> Seq<ArchiveItem> {
    Seq::new(v.len(), |i: int| v[i]@)
}

proof fn items_push(v: Seq<GlobalArchiveEntry>, e: GlobalArchiveEntry)
    ensures
        items(v.push(e)) == items(v).push(e@),
{
    assert(items(v.push(e)) =~= items(v).push(e@));
}

fn copy_texts(v: &Vec<String>) -> (r: Vec<String>)
    ensures
        text::texts(r@) == text::texts(v@),
{
    broadcast use text::group_texts;

    let mut out: Vec<String> = Vec::new();
    let mut i: usize = 0;
    assert(text::texts(out@) =~= text::texts(v@).take(0));
    while i < v.len()
        invariant
            i <= v@.len(),
            text::texts(out@) == text::texts(v@).take(i as int),
        decreases v@.len() - i,
    {
        out.push(v[i].clone());
        i += 1;
        assert(text::texts(v@).take(i as int) =~= text::texts(v@).take(i - 1).push(v@[i - 1]@));
    }
    assert(text::texts(v@).take(i as int) =~= text::texts(v@));
    out
}

impl GlobalArchiveEntry {
    pub fn copy(&self) -> (r: GlobalArchiveEntry)
        ensures
            r@ == self@,
    {
        GlobalArchiveEntry {
            kind: self.kind,
            owner: self.owner.clone(),
            preview: self.preview.clone(),
            source: self.source.clone(),
            source_id: self.source_id.clone(),
            source_kind: self.source_kind,
            time_label: self.time_label.clone(),
            archive_micros: self.archive_micros,
            mtime: self.mtime,
            run_path: self.run_path.clone(),
            artifact_index: self.artifact_index,
            search_hay: self.search_hay.clone(),
            search_tokens: copy_texts(&self.search_tokens),
        }
    }
}

/// Whether a character beyond ASCII is a letter or a number, in any script.
pub uninterp spec fn alphanumeric_beyond_ascii(c: char) -> bool;

/// Whether a character is a letter or a number, in any script.
pub open spec fn alphanumeric(c: char) -> bool {
    if (c as u32) < 0x80 {
        text::alnum(c)
    } else {
        alphanumeric_beyond_ascii(c)
    }
}

/// Calls `char::is_alphanumeric`. Claims that among the ASCII characters it holds of the letters
/// and the digits alone, and that beyond ASCII the answer depends on the character alone.
#[verifier::external_body]
fn is_alphanumeric(c: char) -> (r: bool)
    ensures
        (c as u32) < 0x80 ==> r == text::alnum(c),
        (c as u32) >= 0x80 ==> r == alphanumeric_beyond_ascii(c),
{
    c.is_alphanumeric()
}

/// Whether a character belongs to a word.
pub open spec fn word_char(c: char) -> bool {
    alphanumeric(c) || c == '_' || c == '-'
}

/// The words found so far, and the one being read.
pub struct Words {
    pub done: Seq<Seq<char>>,
    pub current: Seq<char>,
}

/// A word is kept where it takes up two bytes or more.
pub open spec fn with_word(done: Seq<Seq<char>>, word: Seq<char>) -> Seq<Seq<char>> {
    if text::byte_len(word) >= 2 {
        done.push(text::lowered_text(word))
    } else {
        done
    }
}

pub open spec fn words_upto(s: Seq<char>, n: int) -> Words
    decreases n,
{
    if n <= 0 {
        Words { done: Seq::empty(), current: Seq::empty() }
    } else {
        let before: Words = words_upto(s, n - 1);
        if word_char(s[n - 1]) {
            Words { done: before.done, current: before.current.push(s[n - 1]) }
        } else {
            Words { done: with_word(before.done, before.current), current: Seq::empty() }
        }
    }
}

/// The words of a text in lower case.
pub open spec fn tokens(s: Seq<char>) -> Seq<Seq<char>> {
    let all: Words = words_upto(s, s.len() as int);
    with_word(all.done, all.current)
}

fn push_word(done: &mut Vec<String>, word: &String)
    ensures
        text::texts(final(done)@) == with_word(text::texts(old(done)@), word@),
{
    broadcast use text::group_texts;

    if text::length_in_bytes(word.as_str()) >= 2 {
        done.push(text::lower_of(word.as_str()));
    }
}

pub fn tokenize_for_bm25(s: &str) -> (r: Vec<String>)
    ensures
        text::texts(r@) == tokens(s@),
{
    broadcast use text::group_texts;

    let v: Vec<char> = text::chars_of(s);
    let mut done: Vec<String> = Vec::new();
    let mut current: String = String::new();
    let mut i: usize = 0;
    assert(current@ =~= Seq::<char>::empty());
    while i < v.len()
        invariant
            i <= v@.len(),
            v@ == s@,
            text::texts(done@) == words_upto(s@, i as int).done,
            current@ == words_upto(s@, i as int).current,
        decreases v@.len() - i,
    {
        let c: char = v[i];
        if is_alphanumeric(c) || c == '_' || c == '-' {
            current.push(c);
        } else {
            push_word(&mut done, &current);
            current = String::new();
            assert(current@ =~= Seq::<char>::empty());
        }
        i += 1;
    }
    push_word(&mut done, &current);
    done
}

/// What an item is searched by.
pub open spec fn search_text(
    kind: Seq<char>,
    owner: Seq<char>,
    source: Seq<char>,
    full: Seq<char>,
) -> Seq<char> {
    text::lowered_text(
        kind + " "@ + owner + " "@ + source + " "@ + previews::preview(full, 2000),
    )
}

pub fn build_search_fields(kind: &str, owner: &str, source: &str, full: &str) -> (r: (
    String,
    Vec<String>,
))
    ensures
        r.0@ == search_text(kind@, owner@, source@, full@),
        text::texts(r.1@) == tokens(search_text(kind@, owner@, source@, full@)),
{
    let shown: String = previews::summarize_text_preview(full, 2000);
    let line: String = text::cat7(kind, " ", owner, " ", source, " ", shown.as_str());
    let hay: String = text::lower_of(line.as_str());
    let words: Vec<String> = tokenize_for_bm25(hay.as_str());
    (hay, words)
}

/// Where a run comes from.
pub struct ArchiveSource {
    pub source: String,
    pub source_id: String,
    pub source_kind: GlobalArchiveSourceKind,
    pub run_path: String,
    pub archive_micros: Option<u128>,
    /// When the file was changed.
    pub mtime: Option<u128>,
    pub now_micros: u128,
}

/// Where a run comes from, as texts.
pub struct Origin {
    pub source: Seq<char>,
    pub source_id: Seq<char>,
    pub source_kind: GlobalArchiveSourceKind,
    pub run_path: Seq<char>,
    pub archive_micros: Option<u128>,
    pub mtime: Option<u128>,
    pub now_micros: u128,
}

impl View for ArchiveSource {
    type V = Origin;

    open spec fn view(&self) -> Origin {
        Origin {
            source: self.source@,
            source_id: self.source_id@,
            source_kind: self.source_kind,
            run_path: self.run_path@,
            archive_micros: self.archive_micros,
            mtime: self.mtime,
            now_micros: self.now_micros,
        }
    }
}

/// An item of a run.
pub open spec fn item(
    from: Origin,
    kind: Seq<char>,
    owner: Seq<char>,
    shown: Seq<char>,
    full: Seq<char>,
    index: int,
) -> ArchiveItem {
    ArchiveItem {
        kind,
        owner,
        preview: previews::preview(shown, 120),
        source: from.source,
        source_id: from.source_id,
        source_kind: from.source_kind,
        time_label: history::relative_label(from.archive_micros, from.now_micros),
        archive_micros: from.archive_micros,
        mtime: from.mtime,
        run_path: from.run_path,
        artifact_index: index,
        search_hay: search_text(kind, owner, from.source, full),
        search_tokens: tokens(search_text(kind, owner, from.source, full)),
    }
}

fn item_of(
    from: &ArchiveSource,
    kind: &'static str,
    owner: String,
    shown: &str,
    index: usize,
) -> (r: GlobalArchiveEntry)
    ensures
        r@ == item(from@, kind@, owner@, shown@, shown@, index as int),
{
    let fields: (String, Vec<String>) = build_search_fields(
        kind,
        owner.as_str(),
        from.source.as_str(),
        shown,
    );
    GlobalArchiveEntry {
        kind,
        owner,
        preview: previews::summarize_text_preview(shown, 120),
        source: from.source.clone(),
        source_id: from.source_id.clone(),
        source_kind: from.source_kind,
        time_label: history::format_saved_run_relative_label_from_micros(
            from.archive_micros,
            from.now_micros,
        ),
        archive_micros: from.archive_micros,
        mtime: from.mtime,
        run_path: from.run_path.clone(),
        artifact_index: index,
        search_hay: fields.0,
        search_tokens: fields.1,
    }
}

/// The first message of `id` from place `i` on.
pub open spec fn first_by(messages: Seq<AgentMessage>, id: Seq<char>, i: int) -> Option<int>
    decreases messages.len() - i,
{
    if i < 0 || i >= messages.len() {
        None
    } else if text::opt_text(messages[i].agent_id) == Some(id) {
        Some(i)
    } else {
        first_by(messages, id, i + 1)
    }
}

/// The last of the first `n` messages that `id` wrote.
pub open spec fn last_by(messages: Seq<AgentMessage>, id: Seq<char>, n: int) -> Option<int>
    decreases n,
{
    if n <= 0 {
        None
    } else if text::opt_text(messages[n - 1].agent_id) == Some(id) {
        Some(n - 1)
    } else {
        last_by(messages, id, n - 1)
    }
}

/// The plan and the report of a swarm among the messages: the first and the last one of its
/// planner; where there is only one, it is the report.
pub open spec fn plan_and_report(run: PersistedArtifactsRun) -> (Option<int>, Option<int>) {
    if run.swarm && run.assigned_agents@.len() > 0 {
        let planner: Seq<char> = run.assigned_agents@[0]@;
        let plan: Option<int> = first_by(run.messages@, planner, 0);
        let report: Option<int> = last_by(run.messages@, planner, run.messages@.len() as int);
        if plan == report {
            (None, report)
        } else {
            (plan, report)
        }
    } else {
        (None, None)
    }
}

fn find_plan_and_report(run: &PersistedArtifactsRun) -> (r: (Option<usize>, Option<usize>))
    ensures
        ({
            let want: (Option<int>, Option<int>) = plan_and_report(*run);
            &&& match r.0 {
                Some(k) => want.0 == Some(k as int),
                None => want.0 is None,
            }
            &&& match r.1 {
                Some(k) => want.1 == Some(k as int),
                None => want.1 is None,
            }
        }),
{
    if !run.swarm || run.assigned_agents.len() == 0 {
        return (None, None);
    }
    let planner: &str = run.assigned_agents[0].as_str();
    let messages: &Vec<AgentMessage> = &run.messages;
    let mut plan: Option<usize> = None;
    let mut i: usize = 0;
    while i < messages.len() && plan.is_none()
        invariant
            i <= messages@.len(),
            messages@ == run.messages@,
            planner@ == run.assigned_agents@[0]@,
            match plan {
                Some(k) => first_by(messages@, planner@, 0) == Some(k as int),
                None => first_by(messages@, planner@, 0) == first_by(
                    messages@,
                    planner@,
                    i as int,
                ),
            },
        decreases messages@.len() - i,
    {
        if text::opt_str_eq(&messages[i].agent_id, planner) {
            plan = Some(i);
        }
        i += 1;
    }
    let mut report: Option<usize> = None;
    let mut n: usize = messages.len();
    while n > 0 && report.is_none()
        invariant
            n <= messages@.len(),
            messages@ == run.messages@,
            planner@ == run.assigned_agents@[0]@,
            match report {
                Some(k) => last_by(messages@, planner@, messages@.len() as int) == Some(k as int),
                None => last_by(messages@, planner@, messages@.len() as int) == last_by(
                    messages@,
                    planner@,
                    n as int,
                ),
            },
        decreases n,
    {
        if text::opt_str_eq(&messages[n - 1].agent_id, planner) {
            report = Some(n - 1);
        }
        n -= 1;
    }
    if plan == report {
        (None, report)
    } else {
        (plan, report)
    }
}

/// The kind of message `i` of a run.
pub open spec fn message_kind(run: PersistedArtifactsRun, i: int) -> Seq<char> {
    let message: AgentMessage = run.messages@[i];
    let (plan, report) = plan_and_report(run);
    if message.agent_id is None {
        "PROMPT"@
    } else if text::opt_text(message.kind) == Some("synth"@) || report == Some(i) {
        "SYNTH"@
    } else if text::opt_text(message.kind) == Some("plan"@) || plan == Some(i) {
        "PLAN"@
    } else {
        "REPLY"@
    }
}

/// The items of the first `n` messages: all but those of the swarm itself.
pub open spec fn message_items(
    agents: AgentsState,
    run: PersistedArtifactsRun,
    from: Origin,
    n: int,
) -> Seq<ArchiveItem>
    decreases n,
{
    if n <= 0 {
        Seq::empty()
    } else {
        let message: AgentMessage = run.messages@[n - 1];
        let before: Seq<ArchiveItem> = message_items(agents, run, from, n - 1);
        if text::opt_text(message.agent_id) == Some("swarm"@) {
            before
        } else {
            before.push(
                item(
                    from,
                    message_kind(run, n - 1),
                    match message.agent_id {
                        Some(id) => state::shown_id(agents.display_ids@, id@),
                        None => "You"@,
                    },
                    message.text@,
                    message.text@,
                    n - 1,
                ),
            )
        }
    }
}

/// What a change is found by: its title, or its summary where it has none.
pub open spec fn patch_text(patch: PersistedPatchRecord) -> Seq<char> {
    if patch.title@.len() > 0 {
        patch.title@
    } else {
        patch.summary@
    }
}

pub open spec fn patch_items(
    agents: AgentsState,
    run: PersistedArtifactsRun,
    from: Origin,
) -> Seq<ArchiveItem> {
    Seq::new(
        run.patches@.len(),
        |i: int|
            item(
                from,
                "PATCH"@,
                if run.patches@[i].agent_id@.len() == 0 {
                    "system"@
                } else {
                    state::shown_id(agents.display_ids@, run.patches@[i].agent_id@)
                },
                patch_text(run.patches@[i]),
                patch_text(run.patches@[i]),
                i,
            ),
    )
}

pub open spec fn evidence_items(
    agents: AgentsState,
    run: PersistedArtifactsRun,
    from: Origin,
) -> Seq<ArchiveItem> {
    Seq::new(
        run.evidence@.len(),
        |i: int|
            item(
                from,
                "EVIDENCE"@,
                match run.evidence@[i].agent_id {
                    Some(id) => state::shown_id(agents.display_ids@, id@),
                    None => "system"@,
                },
                run.evidence@[i].title@,
                run.evidence@[i].title@,
                i,
            ),
    )
}

/// The items of a run: its messages, its changes and its findings.
pub open spec fn run_items(
    agents: AgentsState,
    run: PersistedArtifactsRun,
    from: Origin,
) -> Seq<ArchiveItem> {
    message_items(agents, run, from, run.messages@.len() as int) + patch_items(agents, run, from)
        + evidence_items(agents, run, from)
}

fn push_messages(
    agents: &AgentsState,
    run: &PersistedArtifactsRun,
    from: &ArchiveSource,
    out: &mut Vec<GlobalArchiveEntry>,
)
    ensures
        items(final(out)@) == items(old(out)@) + message_items(
            *agents,
            *run,
            from@,
            run.messages@.len() as int,
        ),
{
    let (plan, report): (Option<usize>, Option<usize>) = find_plan_and_report(run);
    let ghost before: Seq<ArchiveItem> = items(out@);
    let mut i: usize = 0;
    assert(before + message_items(*agents, *run, from@, 0) =~= before);
    while i < run.messages.len()
        invariant
            i <= run.messages@.len(),
            match plan {
                Some(k) => plan_and_report(*run).0 == Some(k as int),
                None => plan_and_report(*run).0 is None,
            },
            match report {
                Some(k) => plan_and_report(*run).1 == Some(k as int),
                None => plan_and_report(*run).1 is None,
            },
            items(out@) == before + message_items(*agents, *run, from@, i as int),
        decreases run.messages@.len() - i,
    {
        let message: &AgentMessage = &run.messages[i];
        if !text::opt_str_eq(&message.agent_id, "swarm") {
            let is_report: bool = match report {
                Some(k) => k == i,
                None => false,
            };
            let is_plan: bool = match plan {
                Some(k) => k == i,
                None => false,
            };
            let kind: &'static str = if message.agent_id.is_none() {
                "PROMPT"
            } else if text::opt_str_eq(&message.kind, "synth") || is_report {
                "SYNTH"
            } else if text::opt_str_eq(&message.kind, "plan") || is_plan {
                "PLAN"
            } else {
                "REPLY"
            };
            let owner: String = match &message.agent_id {
                Some(id) => state::compact_agent_display_id(&agents.display_ids, id.as_str()),
                None => text::copy("You"),
            };
            let e: GlobalArchiveEntry = item_of(from, kind, owner, message.text.as_str(), i);
            proof {
                items_push(out@, e);
                let done: Seq<ArchiveItem> = message_items(*agents, *run, from@, i as int);
                assert((before + done).push(e@) =~= before + done.push(e@));
            }
            out.push(e);
        }
        i += 1;
    }
}

fn push_patches(
    agents: &AgentsState,
    run: &PersistedArtifactsRun,
    from: &ArchiveSource,
    out: &mut Vec<GlobalArchiveEntry>,
)
    ensures
        items(final(out)@) == items(old(out)@) + patch_items(*agents, *run, from@),
{
    let ghost before: Seq<ArchiveItem> = items(out@);
    let ghost all: Seq<ArchiveItem> = patch_items(*agents, *run, from@);
    let mut i: usize = 0;
    assert(before + all.take(0) =~= before);
    while i < run.patches.len()
        invariant
            i <= run.patches@.len(),
            all == patch_items(*agents, *run, from@),
            items(out@) == before + all.take(i as int),
        decreases run.patches@.len() - i,
    {
        let patch: &PersistedPatchRecord = &run.patches[i];
        let owner: String = if text::length(patch.agent_id.as_str()) == 0 {
            text::copy("system")
        } else {
            state::compact_agent_display_id(&agents.display_ids, patch.agent_id.as_str())
        };
        let shown: &str = if text::length(patch.title.as_str()) > 0 {
            patch.title.as_str()
        } else {
            patch.summary.as_str()
        };
        let e: GlobalArchiveEntry = item_of(from, "PATCH", owner, shown, i);
        proof {
            items_push(out@, e);
        }
        out.push(e);
        i += 1;
        assert(before + all.take(i as int) =~= (before + all.take(i - 1)).push(e@));
    }
    assert(all.take(i as int) =~= all);
}

fn push_evidence(
    agents: &AgentsState,
    run: &PersistedArtifactsRun,
    from: &ArchiveSource,
    out: &mut Vec<GlobalArchiveEntry>,
)
    ensures
        items(final(out)@) == items(old(out)@) + evidence_items(*agents, *run, from@),
{
    let ghost before: Seq<ArchiveItem> = items(out@);
    let ghost all: Seq<ArchiveItem> = evidence_items(*agents, *run, from@);
    let mut i: usize = 0;
    assert(before + all.take(0) =~= before);
    while i < run.evidence.len()
        invariant
            i <= run.evidence@.len(),
            all == evidence_items(*agents, *run, from@),
            items(out@) == before + all.take(i as int),
        decreases run.evidence@.len() - i,
    {
        let found: &EvidenceItem = &run.evidence[i];
        let owner: String = match &found.agent_id {
            Some(id) => state::compact_agent_display_id(&agents.display_ids, id.as_str()),
            None => text::copy("system"),
        };
        let e: GlobalArchiveEntry = item_of(from, "EVIDENCE", owner, found.title.as_str(), i);
        proof {
            items_push(out@, e);
        }
        out.push(e);
        i += 1;
        assert(before + all.take(i as int) =~= (before + all.take(i - 1)).push(e@));
    }
    assert(all.take(i as int) =~= all);
}

pub fn extract_run_entries(
    agents: &AgentsState,
    run: &PersistedArtifactsRun,
    from: &ArchiveSource,
    out: &mut Vec<GlobalArchiveEntry>,
)
    ensures
        items(final(out)@) == items(old(out)@) + run_items(*agents, *run, from@),
{
    let ghost before: Seq<ArchiveItem> = items(out@);
    push_messages(agents, run, from, out);
    push_patches(agents, run, from, out);
    push_evidence(agents, run, from, out);
    assert(items(out@) =~= before + run_items(*agents, *run, from@));
}

/// A file that holds a run.
pub struct RunFile {
    pub run_path: String,
    /// The parts of its path below the directory of the agents.
    pub components: Vec<String>,
    /// The name of the directory that it is in.
    pub dir_name: Option<String>,
    pub mtime: Option<u128>,
    /// What it holds, where it was read and could be.
    pub run: Option<PersistedArtifactsRun>,
}

/// Name, identity and kind of what a file belongs to.
pub open spec fn run_source(agents: AgentsState, file: RunFile) -> (
    Seq<char>,
    Seq<char>,
    GlobalArchiveSourceKind,
) {
    let parts: Seq<String> = file.components@;
    if parts.len() > 1 && parts[0]@ == "runs"@ {
        let id: Seq<char> = parts[1]@;
        let name: Seq<char> = match state::mission_named(agents.missions@, id) {
            Some(k) => if agents.missions@[k].title@.len() > 0 {
                agents.missions@[k].title@
            } else {
                id
            },
            None => id,
        };
        ("mission: "@ + name, id, GlobalArchiveSourceKind::Mission)
    } else if parts.len() > 1 && parts[0]@ == "ad-hoc"@ {
        ("ad-hoc: "@ + parts[1]@, parts[1]@, GlobalArchiveSourceKind::AdHoc)
    } else {
        let name: Seq<char> = match file.dir_name {
            Some(n) => n@,
            None => "unknown"@,
        };
        (name, name, GlobalArchiveSourceKind::AdHoc)
    }
}

pub fn resolve_run_source(agents: &AgentsState, file: &RunFile) -> (r: (
    String,
    String,
    GlobalArchiveSourceKind,
))
    ensures
        (r.0@, r.1@, r.2) == run_source(*agents, *file),
{
    let parts: &Vec<String> = &file.components;
    if parts.len() > 1 && text::str_eq(parts[0].as_str(), "runs") {
        let id: &str = parts[1].as_str();
        let name: &str = match state::find_mission(&agents.missions, id) {
            Some(k) => if text::length(agents.missions[k].title.as_str()) > 0 {
                agents.missions[k].title.as_str()
            } else {
                id
            },
            None => id,
        };
        return (text::cat2("mission: ", name), text::copy(id), GlobalArchiveSourceKind::Mission);
    }
    if parts.len() > 1 && text::str_eq(parts[0].as_str(), "ad-hoc") {
        let id: &str = parts[1].as_str();
        return (text::cat2("ad-hoc: ", id), text::copy(id), GlobalArchiveSourceKind::AdHoc);
    }
    let name: &str = match &file.dir_name {
        Some(n) => n.as_str(),
        None => "unknown",
    };
    (text::copy(name), text::copy(name), GlobalArchiveSourceKind::AdHoc)
}

/// The items that an earlier archive holds of this state of a file.
pub open spec fn is_cached(prev: Seq<ArchiveItem>, path: Seq<char>, mtime: Option<u128>) -> spec_fn(
    int,
) -> bool {
    |k: int| prev[k].run_path == path && prev[k].mtime == mtime
}

pub open spec fn cached(prev: Seq<ArchiveItem>, path: Seq<char>, mtime: Option<u128>) -> Seq<int> {
    counting::picked(prev.len() as int, is_cached(prev, path, mtime))
}

/// An item with its age brought up to date.
pub open spec fn refreshed(old: ArchiveItem, now: u128) -> ArchiveItem {
    ArchiveItem { time_label: history::relative_label(old.archive_micros, now), ..old }
}

fn cached_places(prev: &Vec<GlobalArchiveEntry>, path: &str, mtime: Option<u128>) -> (r: Vec<usize>)
    ensures
        ({
            let want: Seq<int> = cached(items(prev@), path@, mtime);
            r@.len() == want.len() && forall|k: int|
                0 <= k < want.len() ==> (#[trigger] r@[k]) as int == want[k] && r@[k]
                    < prev@.len()
        }),
{
    let ghost old: Seq<ArchiveItem> = items(prev@);
    let ghost meets = is_cached(old, path@, mtime);
    let mut out: Vec<usize> = Vec::new();
    let mut i: usize = 0;
    while i < prev.len()
        invariant
            i <= prev@.len(),
            old == items(prev@),
            meets == is_cached(old, path@, mtime),
            out@.len() == counting::picked(i as int, meets).len(),
            forall|k: int|
                0 <= k < out@.len() ==> (#[trigger] out@[k]) as int == counting::picked(
                    i as int,
                    meets,
                )[k] && out@[k] < i,
        decreases prev@.len() - i,
    {
        assert(old[i as int] == prev@[i as int]@);
        if text::str_eq(prev[i].run_path.as_str(), path) && prev[i].mtime == mtime {
            out.push(i);
        }
        i += 1;
    }
    out
}

/// Whether a file need not be read again.
pub fn is_file_cached(prev: &Vec<GlobalArchiveEntry>, path: &str, mtime: Option<u128>) -> (r: bool)
    ensures
        r == (cached(items(prev@), path@, mtime).len() > 0),
{
    cached_places(prev, path, mtime).len() > 0
}

/// Where the items of a file come from: an archive says itself when it was made, another file by
/// when it was changed.
pub open spec fn origin(agents: AgentsState, file: RunFile, now: u128) -> Origin {
    let src: (Seq<char>, Seq<char>, GlobalArchiveSourceKind) = run_source(agents, file);
    Origin {
        source: src.0,
        source_id: src.1,
        source_kind: src.2,
        run_path: file.run_path@,
        archive_micros: file_time(file),
        mtime: file.mtime,
        now_micros: now,
    }
}

pub open spec fn file_time(file: RunFile) -> Option<u128> {
    match file.dir_name {
        Some(n) => match history::archive_time(n@) {
            Some(t) => Some(t as u128),
            None => file.mtime,
        },
        None => file.mtime,
    }
}

/// The items of a file: those of the earlier archive where it has not changed, and what it holds
/// otherwise.
pub open spec fn file_items(
    agents: AgentsState,
    prev: Seq<ArchiveItem>,
    file: RunFile,
    now: u128,
) -> Seq<ArchiveItem> {
    let kept: Seq<int> = cached(prev, file.run_path@, file.mtime);
    if kept.len() > 0 {
        Seq::new(kept.len(), |i: int| refreshed(prev[kept[i]], now))
    } else {
        match file.run {
            Some(run) => run_items(agents, run, origin(agents, file, now)),
            None => Seq::empty(),
        }
    }
}

/// The items of the first `n` files.
pub open spec fn files_items(
    agents: AgentsState,
    prev: Seq<ArchiveItem>,
    files: Seq<RunFile>,
    now: u128,
    n: int,
) -> Seq<ArchiveItem>
    decreases n,
{
    if n <= 0 {
        Seq::empty()
    } else {
        files_items(agents, prev, files, now, n - 1) + file_items(agents, prev, files[n - 1], now)
    }
}

/// The times of items.
pub open spec fn times(v: Seq<ArchiveItem>) -> Seq<Option<u128>> {
    Seq::new(v.len(), |i: int| v[i].archive_micros)
}

/// Items, the latest first.
pub open spec fn latest_first(v: Seq<ArchiveItem>) -> Seq<ArchiveItem> {
    let places: Seq<usize> = order::ranked(times(v));
    Seq::new(places.len(), |i: int| v[places[i] as int])
}

fn sort_latest_first(v: &Vec<GlobalArchiveEntry>) -> (r: Vec<GlobalArchiveEntry>)
    ensures
        items(r@) == latest_first(items(v@)),
{
    let mut keys: Vec<Option<u128>> = Vec::new();
    let mut i: usize = 0;
    while i < v.len()
        invariant
            i <= v@.len(),
            keys@ == times(items(v@)).take(i as int),
        decreases v@.len() - i,
    {
        keys.push(v[i].archive_micros);
        i += 1;
        assert(times(items(v@)).take(i as int) =~= times(items(v@)).take(i - 1).push(
            v@[i - 1].archive_micros,
        ));
    }
    assert(keys@ =~= times(items(v@)));
    let places: Vec<usize> = order::rank_places(&keys);
    let ghost all: Seq<ArchiveItem> = latest_first(items(v@));
    let mut out: Vec<GlobalArchiveEntry> = Vec::new();
    let mut j: usize = 0;
    assert(items(out@) =~= all.take(0));
    while j < places.len()
        invariant
            j <= places@.len(),
            places@ == order::ranked(times(items(v@))),
            forall|k: int| 0 <= k < places@.len() ==> (#[trigger] places@[k]) < v@.len(),
            all == latest_first(items(v@)),
            items(out@) == all.take(j as int),
        decreases places@.len() - j,
    {
        let e: GlobalArchiveEntry = v[places[j]].copy();
        proof {
            items_push(out@, e);
        }
        out.push(e);
        j += 1;
        assert(all.take(j as int) =~= all.take(j - 1).push(e@));
    }
    assert(all.take(j as int) =~= all);
    out
}

/// The archive of all files, the latest items first.
pub fn build_global_archive_index(
    agents: &AgentsState,
    prev: &Vec<GlobalArchiveEntry>,
    files: &Vec<RunFile>,
    now: u128,
) -> (r: Vec<GlobalArchiveEntry>)
    ensures
        items(r@) == latest_first(
            files_items(*agents, items(prev@), files@, now, files@.len() as int),
        ),
{
    let ghost old: Seq<ArchiveItem> = items(prev@);
    let mut out: Vec<GlobalArchiveEntry> = Vec::new();
    let mut i: usize = 0;
    assert(items(out@) =~= files_items(*agents, old, files@, now, 0));
    while i < files.len()
        invariant
            i <= files@.len(),
            old == items(prev@),
            items(out@) == files_items(*agents, old, files@, now, i as int),
        decreases files@.len() - i,
    {
        let file: &RunFile = &files[i];
        let src: (String, String, GlobalArchiveSourceKind) = resolve_run_source(agents, file);
        let named: Option<u128> = match &file.dir_name {
            Some(n) => history::persisted_history_archive_micros(n.as_str()),
            None => None,
        };
        let from: ArchiveSource = ArchiveSource {
            source: src.0,
            source_id: src.1,
            source_kind: src.2,
            run_path: file.run_path.clone(),
            archive_micros: match named {
                Some(t) => Some(t),
                None => file.mtime,
            },
            mtime: file.mtime,
            now_micros: now,
        };
        assert(from@ == origin(*agents, *file, now));
        let ghost before: Seq<ArchiveItem> = items(out@);
        let kept: Vec<usize> = cached_places(prev, file.run_path.as_str(), file.mtime);
        if kept.len() > 0 {
            let ghost places: Seq<int> = cached(old, file.run_path@, file.mtime);
            let ghost all: Seq<ArchiveItem> = Seq::new(
                places.len(),
                |i: int| refreshed(old[places[i]], now),
            );
            let mut j: usize = 0;
            assert(before + all.take(0) =~= before);
            while j < kept.len()
                invariant
                    j <= kept@.len(),
                    old == items(prev@),
                    kept@.len() == places.len(),
                    forall|k: int|
                        0 <= k < places.len() ==> (#[trigger] kept@[k]) as int == places[k]
                            && kept@[k] < prev@.len(),
                    all == Seq::new(places.len(), |i: int| refreshed(old[places[i]], now)),
                    items(out@) == before + all.take(j as int),
                decreases kept@.len() - j,
            {
                let mut e: GlobalArchiveEntry = prev[kept[j]].copy();
                e.time_label = history::format_saved_run_relative_label_from_micros(
                    e.archive_micros,
                    now,
                );
                assert(e@ == refreshed(old[places[j as int]], now));
                proof {
                    items_push(out@, e);
                }
                out.push(e);
                j += 1;
                assert(before + all.take(j as int) =~= (before + all.take(j - 1)).push(e@));
            }
            assert(all.take(j as int) =~= all);
        } else if let Some(run) = &file.run {
            extract_run_entries(agents, run, &from, &mut out);
        } else {
            assert(items(out@) =~= before + Seq::<ArchiveItem>::empty());
        }
        assert(items(out@) == before + file_items(*agents, old, *file, now));
        i += 1;
    }
    sort_latest_first(&out)
}

/// The items that lie in the window of a filter.
pub open spec fn in_filter(v: Seq<ArchiveItem>, filter: SavedRunHistoryFilter, now: u128) -> spec_fn(
    int,
) -> bool {
    |k: int| history::in_window(v[k].archive_micros, filter, now)
}

/// The words that are this term.
pub open spec fn is_term(words: Seq<Seq<char>>, term: Seq<char>) -> spec_fn(int) -> bool {
    |k: int| words[k] == term
}

/// How often a term stands among the words of an item.
pub fn term_frequency(words: &Vec<String>, term: &str) -> (r: usize)
    ensures
        r == counting::counted(words@.len() as int, is_term(text::texts(words@), term@)),
{
    let ghost meets = is_term(text::texts(words@), term@);
    let mut n: usize = 0;
    let mut i: usize = 0;
    while i < words.len()
        invariant
            i <= words@.len(),
            meets == is_term(text::texts(words@), term@),
            n == counting::counted(i as int, meets),
            n <= i,
        decreases words@.len() - i,
    {
        assert(text::texts(words@)[i as int] == words@[i as int]@);
        if text::str_eq(words[i].as_str(), term) {
            assert(meets(i as int));
            n += 1;
        } else {
            assert(!meets(i as int));
        }
        i += 1;
    }
    n
}

/// Whether a term stands among the words of an item.
pub open spec fn mentions(words: Seq<Seq<char>>, term: Seq<char>) -> bool {
    counting::counted(words.len() as int, is_term(words, term)) > 0
}

/// The places whose items mention a term; a place beyond the archive does not.
pub open spec fn is_mention(v: Seq<ArchiveItem>, places: Seq<usize>, term: Seq<char>) -> spec_fn(
    int,
) -> bool {
    |k: int| places[k] < v.len() && mentions(v[places[k] as int].search_tokens, term)
}

/// How many of some items mention a term.
pub fn document_frequency(index: &Vec<GlobalArchiveEntry>, places: &Vec<usize>, term: &str) -> (r:
    usize)
    ensures
        r == counting::counted(places@.len() as int, is_mention(items(index@), places@, term@)),
{
    let ghost v: Seq<ArchiveItem> = items(index@);
    let ghost meets = is_mention(v, places@, term@);
    let mut n: usize = 0;
    let mut i: usize = 0;
    while i < places.len()
        invariant
            i <= places@.len(),
            v == items(index@),
            meets == is_mention(v, places@, term@),
            n == counting::counted(i as int, meets),
            n <= i,
        decreases places@.len() - i,
    {
        let p: usize = places[i];
        let mut hit: bool = false;
        if p < index.len() {
            assert(v[p as int] == index@[p as int]@);
            hit = term_frequency(&index[p].search_tokens, term) > 0;
        }
        assert(hit == meets(i as int));
        if hit {
            n += 1;
        }
        i += 1;
    }
    n
}

/// The terms that stand among the words of an item.
pub open spec fn is_matched(words: Seq<Seq<char>>, terms: Seq<Seq<char>>) -> spec_fn(int) -> bool {
    |k: int| mentions(words, terms[k])
}

/// How many terms of a query an item mentions.
pub fn matched_terms(words: &Vec<String>, terms: &Vec<String>) -> (r: usize)
    ensures
        r == counting::counted(
            terms@.len() as int,
            is_matched(text::texts(words@), text::texts(terms@)),
        ),
{
    let ghost meets = is_matched(text::texts(words@), text::texts(terms@));
    let mut n: usize = 0;
    let mut i: usize = 0;
    while i < terms.len()
        invariant
            i <= terms@.len(),
            meets == is_matched(text::texts(words@), text::texts(terms@)),
            n == counting::counted(i as int, meets),
            n <= i,
        decreases terms@.len() - i,
    {
        assert(text::texts(terms@)[i as int] == terms@[i as int]@);
        let hit: bool = term_frequency(words, terms[i].as_str()) > 0;
        assert(hit == meets(i as int));
        if hit {
            n += 1;
        }
        i += 1;
    }
    n
}

/// The score of an item, from the points it has for its words, for its letters and for its age;
/// none where neither words nor letters speak for it.
pub fn combined_score(relevant: bool, relevance: i64, fuzzy: i64, recency: i64) -> (r: Option<i64>)
    requires
        i64::MIN <= relevance + fuzzy <= i64::MAX,
        i64::MIN <= relevance + fuzzy + recency <= i64::MAX,
    ensures
        r == if relevant || fuzzy > 0 {
            Some((relevance + fuzzy + recency) as i64)
        } else {
            None
        },
{
    if relevant || fuzzy > 0 {
        Some(relevance + fuzzy + recency)
    } else {
        None
    }
}

/// The items that a search finds: those in the window that have a score.
pub open spec fn is_hit(
    v: Seq<ArchiveItem>,
    filter: SavedRunHistoryFilter,
    now: u128,
    scores: Seq<Option<i64>>,
) -> spec_fn(int) -> bool {
    |k: int| history::in_window(v[k].archive_micros, filter, now) && scores[k] is Some
}

/// A score as a rank.
pub open spec fn score_rank(score: i64) -> Option<u128> {
    Some((score + 0x8000_0000_0000_0000) as u128)
}

/// What a search gives: without a query all items in the window, in their order; with one the
/// items that it found, the highest score first.
pub open spec fn hits(
    v: Seq<ArchiveItem>,
    query: Seq<char>,
    filter: SavedRunHistoryFilter,
    now: u128,
    scores: Seq<Option<i64>>,
) -> Seq<(i64, usize)> {
    if query.len() == 0 {
        let kept: Seq<int> = counting::picked(v.len() as int, in_filter(v, filter, now));
        Seq::new(kept.len(), |i: int| (0i64, kept[i] as usize))
    } else {
        let found: Seq<int> = counting::picked(v.len() as int, is_hit(v, filter, now, scores));
        let places: Seq<usize> = order::ranked(
            Seq::new(found.len(), |i: int| score_rank(scores[found[i]]->0)),
        );
        Seq::new(
            places.len(),
            |i: int| (scores[found[places[i] as int]]->0, found[places[i] as int] as usize),
        )
    }
}

/// The places of the items that lie in the window of a filter.
pub fn archive_in_window(
    index: &Vec<GlobalArchiveEntry>,
    filter: SavedRunHistoryFilter,
    now: u128,
) -> (r: Vec<usize>)
    ensures
        ({
            let v: Seq<ArchiveItem> = items(index@);
            let want: Seq<int> = counting::picked(v.len() as int, in_filter(v, filter, now));
            r@ == Seq::new(want.len(), |i: int| want[i] as usize)
        }),
{
    let ghost v: Seq<ArchiveItem> = items(index@);
    let ghost meets = in_filter(v, filter, now);
    let mut out: Vec<usize> = Vec::new();
    let mut i: usize = 0;
    assert(out@ =~= Seq::new(
        counting::picked(0, meets).len(),
        |k: int| counting::picked(0, meets)[k] as usize,
    ));
    while i < index.len()
        invariant
            i <= index@.len(),
            v == items(index@),
            meets == in_filter(v, filter, now),
            out@ == Seq::new(
                counting::picked(i as int, meets).len(),
                |k: int| counting::picked(i as int, meets)[k] as usize,
            ),
        decreases index@.len() - i,
    {
        assert(v[i as int] == index@[i as int]@);
        let inside: bool = history::is_in_window(index[i].archive_micros, filter, now);
        assert(inside == meets(i as int));
        let ghost before: Seq<usize> = out@;
        if inside {
            out.push(i);
        }
        i += 1;
        assert(out@ =~= Seq::new(
            counting::picked(i as int, meets).len(),
            |k: int| counting::picked(i as int, meets)[k] as usize,
        ));
    }
    out
}

/// Searches the archive, given the score that each item has for the query.
pub fn filter_global_archive(
    index: &Vec<GlobalArchiveEntry>,
    query: &str,
    filter: SavedRunHistoryFilter,
    now: u128,
    scores: &Vec<Option<i64>>,
) -> (r: Vec<(i64, usize)>)
    requires
        scores@.len() == index@.len(),
    ensures
        r@ == hits(items(index@), query@, filter, now, scores@),
{
    let ghost v: Seq<ArchiveItem> = items(index@);
    let inside: Vec<usize> = archive_in_window(index, filter, now);
    let ghost kept: Seq<int> = counting::picked(v.len() as int, in_filter(v, filter, now));
    proof {
        counting::picked_are_in_order(v.len() as int, in_filter(v, filter, now));
    }
    if text::length(query) == 0 {
        let ghost all: Seq<(i64, usize)> = hits(v, query@, filter, now, scores@);
        let mut out: Vec<(i64, usize)> = Vec::new();
        let mut i: usize = 0;
        assert(out@ =~= all.take(0));
        while i < inside.len()
            invariant
                i <= inside@.len(),
                inside@ == Seq::new(kept.len(), |i: int| kept[i] as usize),
                all == Seq::new(kept.len(), |i: int| (0i64, kept[i] as usize)),
                out@ == all.take(i as int),
            decreases inside@.len() - i,
        {
            out.push((0i64, inside[i]));
            i += 1;
            assert(all.take(i as int) =~= all.take(i - 1).push((0i64, inside@[i - 1])));
        }
        assert(all.take(i as int) =~= all);
        return out;
    }
    let ghost meets = is_hit(v, filter, now, scores@);
    let mut found: Vec<(i64, usize)> = Vec::new();
    let mut keys: Vec<Option<u128>> = Vec::new();
    let mut i: usize = 0;
    while i < index.len()
        invariant
            i <= index@.len(),
            scores@.len() == index@.len(),
            v == items(index@),
            meets == is_hit(v, filter, now, scores@),
            found@.len() == counting::picked(i as int, meets).len(),
            keys@.len() == found@.len(),
            forall|k: int|
                #![trigger found@[k]]
                0 <= k < found@.len() ==> found@[k].1 as int == counting::picked(i as int, meets)[k]
                    && found@[k].1 < i && scores@[found@[k].1 as int] == Some(found@[k].0)
                    && keys@[k] == score_rank(found@[k].0),
        decreases index@.len() - i,
    {
        assert(v[i as int] == index@[i as int]@);
        let seen: bool = history::is_in_window(index[i].archive_micros, filter, now);
        let mut hit: bool = false;
        if seen {
            if let Some(s) = scores[i] {
                hit = true;
                assert(meets(i as int));
                found.push((s, i));
                let up: i128 = s as i128 + 0x8000_0000_0000_0000;
                keys.push(Some(up as u128));
            }
        }
        assert(hit == meets(i as int));
        i += 1;
    }
    let ghost picked: Seq<int> = counting::picked(v.len() as int, meets);
    proof {
        let want: Seq<Option<u128>> = Seq::new(
            picked.len(),
            |i: int| score_rank(scores@[picked[i]]->0),
        );
        assert forall|k: int| 0 <= k < picked.len() implies keys@[k] == want[k] by {
            assert(found@[k].1 as int == picked[k]);
        }
        assert(keys@ =~= want);
    }
    let places: Vec<usize> = order::rank_places(&keys);
    let ghost all: Seq<(i64, usize)> = hits(v, query@, filter, now, scores@);
    let mut out: Vec<(i64, usize)> = Vec::new();
    let mut j: usize = 0;
    assert(out@ =~= all.take(0));
    while j < places.len()
        invariant
            j <= places@.len(),
            places@.len() == all.len(),
            found@.len() == picked.len(),
            forall|k: int| 0 <= k < places@.len() ==> (#[trigger] places@[k]) < found@.len(),
            forall|k: int|
                #![trigger found@[k]]
                0 <= k < found@.len() ==> found@[k].1 as int == picked[k] && scores@[picked[k]]
                    == Some(found@[k].0),
            all == Seq::new(
                places@.len(),
                |i: int|
                    (
                        scores@[picked[places@[i] as int]]->0,
                        picked[places@[i] as int] as usize,
                    ),
            ),
            out@ == all.take(j as int),
        decreases places@.len() - j,
    {
        let hit: (i64, usize) = found[places[j]];
        out.push(hit);
        j += 1;
        assert(all.take(j as int) =~= all.take(j - 1).push(hit));
    }
    assert(all.take(j as int) =~= all);
    out
}

/// A search gives the higher score first, and of two items with the same score the earlier one.
pub proof fn hits_are_sorted(
    v: Seq<ArchiveItem>,
    query: Seq<char>,
    filter: SavedRunHistoryFilter,
    now: u128,
    scores: Seq<Option<i64>>,
    i: int,
    j: int,
)
    requires
        v.len() == scores.len(),
        v.len() <= usize::MAX,
        0 <= i < j < hits(v, query, filter, now, scores).len(),
    ensures
        ({
            let found: Seq<(i64, usize)> = hits(v, query, filter, now, scores);
            found[i].0 > found[j].0 || (found[i].0 == found[j].0 && found[i].1 < found[j].1)
        }),
{
    counting::picked_are_in_order(v.len() as int, in_filter(v, filter, now));
    counting::picked_are_in_order(v.len() as int, is_hit(v, filter, now, scores));
    let found: Seq<int> = counting::picked(v.len() as int, is_hit(v, filter, now, scores));
    counting::counted_at_most(v.len() as int, is_hit(v, filter, now, scores));
    let keys: Seq<Option<u128>> = Seq::new(
        found.len(),
        |i: int| score_rank(scores[found[i]]->0),
    );
    order::ranking_is_sorted(keys, keys.len() as int);
    if query.len() == 0 {
        let kept: Seq<int> = counting::picked(v.len() as int, in_filter(v, filter, now));
        assert(kept[i] < kept[j]);
    } else {
        let a: usize = order::ranked(keys)[i];
        let b: usize = order::ranked(keys)[j];
        assert(order::precedes(keys, a, b));
        if a < b {
            assert(found[a as int] < found[b as int]);
        }
    }
}

/// The archive stands with the latest items first.
pub proof fn archive_is_latest_first(v: Seq<ArchiveItem>, i: int, j: int)
    requires
        v.len() <= usize::MAX,
        0 <= i < j < latest_first(v).len(),
    ensures
        latest_first(v).len() == v.len(),
        order::rank(latest_first(v)[i].archive_micros) >= order::rank(
            latest_first(v)[j].archive_micros,
        ),
{
    order::ranking_is_sorted(times(v), v.len() as int);
    let places: Seq<usize> = order::ranked(times(v));
    assert(order::precedes(times(v), places[i], places[j]));
}

proof fn message_items_remember(
    agents: AgentsState,
    run: PersistedArtifactsRun,
    from: Origin,
    n: int,
    i: int,
)
    requires
        0 <= i < message_items(agents, run, from, n).len(),
    ensures
        message_items(agents, run, from, n)[i].run_path == from.run_path,
        message_items(agents, run, from, n)[i].mtime == from.mtime,
    decreases n,
{
    if i < message_items(agents, run, from, n - 1).len() {
        message_items_remember(agents, run, from, n - 1, i);
    }
}

/// Every item remembers the file that it was read from and when that was changed.
pub proof fn items_remember_their_file(
    agents: AgentsState,
    run: PersistedArtifactsRun,
    from: Origin,
    i: int,
)
    requires
        0 <= i < run_items(agents, run, from).len(),
    ensures
        run_items(agents, run, from)[i].run_path == from.run_path,
        run_items(agents, run, from)[i].mtime == from.mtime,
{
    let n: int = run.messages@.len() as int;
    if i < message_items(agents, run, from, n).len() {
        message_items_remember(agents, run, from, n, i);
    }
}

/// The items of a file that has not changed are carried forward, whatever the file holds now: they
/// are those of the earlier archive, in their order, with nothing but their ages brought up to date.
pub proof fn unchanged_files_are_carried(
    agents: AgentsState,
    prev: Seq<ArchiveItem>,
    file: RunFile,
    now: u128,
    k: int,
)
    requires
        0 <= k < prev.len(),
        prev[k].run_path == file.run_path@,
        prev[k].mtime == file.mtime,
    ensures
        ({
            let kept: Seq<int> = cached(prev, file.run_path@, file.mtime);
            &&& kept.contains(k)
            &&& file_items(agents, prev, file, now) == Seq::new(
                kept.len(),
                |i: int| refreshed(prev[kept[i]], now),
            )
        }),
{
    let meets = is_cached(prev, file.run_path@, file.mtime);
    assert(meets(k));
    counting::picked_holds(prev.len() as int, meets, k);
}

} // verus!
