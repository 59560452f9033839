//! What an agent is doing, in words.

use vstd::prelude::*;

use crate::state;
use crate::state::AgentLane;
use crate::state::AppState;
use crate::text;

verus! {

/// A number of tokens in short.
pub open spec fn short_count(tokens: nat) -> Seq<char> {
    if tokens >= 1_000_000 {
        let whole: nat = tokens / 1_000_000;
        let frac: nat = (tokens % 1_000_000) / 100_000;
        if whole < 10 && frac > 0 {
            text::decimal(whole) + "."@ + text::decimal(frac) + "M"@
        } else {
            text::decimal(whole) + "M"@
        }
    } else if tokens >= 1_000 {
        let whole: nat = tokens / 1_000;
        let frac: nat = (tokens % 1_000) / 100;
        if whole < 100 && frac > 0 {
            text::decimal(whole) + "."@ + text::decimal(frac) + "K"@
        } else {
            text::decimal(whole) + "K"@
        }
    } else {
        text::decimal(tokens)
    }
}

fn decimal_u32(n: u32) -> (r: String)
    ensures
        r@ == text::decimal(n as nat),
{
    text::decimal_u64(n as u64)
}

pub fn format_token_count_short(tokens: u32) -> (r: String)
    ensures
        r@ == short_count(tokens as nat),
{
    if tokens >= 1_000_000 {
        let whole: u32 = tokens / 1_000_000;
        let frac: u32 = (tokens % 1_000_000) / 100_000;
        if whole < 10 && frac > 0 {
            text::cat4(decimal_u32(whole).as_str(), ".", decimal_u32(frac).as_str(), "M")
        } else {
            text::cat2(decimal_u32(whole).as_str(), "M")
        }
    } else if tokens >= 1_000 {
        let whole: u32 = tokens / 1_000;
        let frac: u32 = (tokens % 1_000) / 100;
        if whole < 100 && frac > 0 {
            text::cat4(decimal_u32(whole).as_str(), ".", decimal_u32(frac).as_str(), "K")
        } else {
            text::cat2(decimal_u32(whole).as_str(), "K")
        }
    } else {
        decimal_u32(tokens)
    }
}

/// A time span in short.
pub open spec fn span(secs: nat) -> Seq<char> {
    let hours: nat = secs / 3600;
    let minutes: nat = secs / 60 % 60;
    if hours > 0 {
        text::decimal(hours) + "h"@ + text::two_digits(minutes) + "m"@
    } else if minutes > 0 {
        text::decimal(minutes) + "m"@ + text::two_digits(secs % 60) + "s"@
    } else {
        text::decimal(secs % 60) + "s"@
    }
}

pub fn format_duration_compact(secs: u64) -> (r: String)
    ensures
        r@ == span(secs as nat),
{
    let minutes: u64 = secs / 60 % 60;
    let hours: u64 = secs / 60 / 60;
    assert(hours == secs / 3600);
    if hours > 0 {
        text::cat4(
            text::decimal_u64(hours).as_str(),
            "h",
            text::two_digits_u64(minutes).as_str(),
            "m",
        )
    } else if minutes > 0 {
        text::cat4(
            text::decimal_u64(minutes).as_str(),
            "m",
            text::two_digits_u64(secs % 60).as_str(),
            "s",
        )
    } else {
        text::cat2(text::decimal_u64(secs % 60).as_str(), "s")
    }
}

/// How much of its context an agent has left, in a mission or outside of one.
pub open spec fn left_pct(
    st: AppState,
    claude: bool,
    id: Seq<char>,
    mission: Option<Seq<char>>,
) -> Option<u32> {
    match mission {
        Some(m) => if claude {
            state::nested_value(st.agents.claude_mission_context_remaining_pct@, m, id)
        } else {
            state::nested_value(st.agents.codex_mission_context_remaining_pct@, m, id)
        },
        None => if claude {
            state::value_of(st.agents.claude_context_remaining_pct@, id)
        } else {
            state::value_of(st.agents.codex_context_remaining_pct@, id)
        },
    }
}

pub fn find_left_pct(st: &AppState, claude: bool, id: &str, mission: Option<&str>) -> (r: Option<u32>)
    ensures
        r == left_pct(*st, claude, id@, text::opt_str(mission)),
{
    match mission {
        Some(m) => if claude {
            state::lookup_nested(&st.agents.claude_mission_context_remaining_pct, m, id)
        } else {
            state::lookup_nested(&st.agents.codex_mission_context_remaining_pct, m, id)
        },
        None => if claude {
            state::lookup_u32(&st.agents.claude_context_remaining_pct, id)
        } else {
            state::lookup_u32(&st.agents.codex_context_remaining_pct, id)
        },
    }
}

/// How many tokens an agent has used, in a mission or outside of one.
pub open spec fn used_tokens(
    st: AppState,
    claude: bool,
    id: Seq<char>,
    mission: Option<Seq<char>>,
) -> Option<u32> {
    match mission {
        Some(m) => if claude {
            state::nested_value(st.agents.claude_mission_used_tokens@, m, id)
        } else {
            state::nested_value(st.agents.codex_mission_used_tokens@, m, id)
        },
        None => if claude {
            state::value_of(st.agents.claude_used_tokens@, id)
        } else {
            state::value_of(st.agents.codex_used_tokens@, id)
        },
    }
}

pub fn find_used_tokens(st: &AppState, claude: bool, id: &str, mission: Option<&str>) -> (r: Option<
    u32,
>)
    ensures
        r == used_tokens(*st, claude, id@, text::opt_str(mission)),
{
    match mission {
        Some(m) => if claude {
            state::lookup_nested(&st.agents.claude_mission_used_tokens, m, id)
        } else {
            state::lookup_nested(&st.agents.codex_mission_used_tokens, m, id)
        },
        None => if claude {
            state::lookup_u32(&st.agents.claude_used_tokens, id)
        } else {
            state::lookup_u32(&st.agents.codex_used_tokens, id)
        },
    }
}

/// How many tokens the context of an agent holds.
pub open spec fn window(st: AppState, id: Seq<char>) -> Option<u32> {
    match state::value_of(st.agents.codex_effective_context_window_tokens@, id) {
        Some(n) => Some(n),
        None => state::value_of(st.agents.claude_effective_context_window_tokens@, id),
    }
}

pub fn find_window(st: &AppState, id: &str) -> (r: Option<u32>)
    ensures
        r == window(*st, id@),
{
    match state::lookup_u32(&st.agents.codex_effective_context_window_tokens, id) {
        Some(n) => Some(n),
        None => state::lookup_u32(&st.agents.claude_effective_context_window_tokens, id),
    }
}

/// The mission that an agent's numbers are read for: its own, or the one that is open.
pub open spec fn mission_of(st: AppState, agent: AgentLane) -> Option<Seq<char>> {
    match agent.current_mission {
        Some(m) => Some(m@),
        None => text::opt_text(st.agents.context_mission),
    }
}

fn find_mission_of<'a>(st: &'a AppState, agent: &'a AgentLane) -> (r: Option<&'a str>)
    ensures
        text::opt_str(r) == mission_of(*st, *agent),
{
    match &agent.current_mission {
        Some(m) => Some(m.as_str()),
        None => state::as_str(&st.agents.context_mission),
    }
}

/// What is left of a context, in words.
pub open spec fn context_words(pct: Option<u32>, used: Option<u32>, max: Option<u32>) -> Seq<char> {
    match (pct, used, max) {
        (Some(p), Some(u), Some(m)) => "Context: "@ + text::decimal(p as nat) + "% left "@
            + short_count(u as nat) + "/"@ + short_count(m as nat),
        (None, Some(u), Some(m)) => "Context: "@ + short_count(u as nat) + "/"@ + short_count(
            m as nat,
        ),
        (Some(p), None, _) => "Context: "@ + text::decimal(p as nat) + "% left"@,
        (None, Some(u), None) => "Tokens: "@ + short_count(u as nat),
        _ => "Updating context usage"@,
    }
}

/// What is left of an agent's context, in words.
pub open spec fn token_stage(st: AppState, agent: AgentLane) -> Seq<char> {
    if !agent.codex() && !agent.claude() {
        "Updating token usage"@
    } else {
        let m: Option<Seq<char>> = mission_of(st, agent);
        context_words(
            left_pct(st, agent.claude(), agent.id@, m),
            used_tokens(st, agent.claude(), agent.id@, m),
            window(st, agent.id@),
        )
    }
}

pub fn format_token_count_stage(st: &AppState, agent: &AgentLane) -> (r: String)
    ensures
        r@ == token_stage(*st, *agent),
{
    if !agent.is_codex() && !agent.is_claude() {
        return text::copy("Updating token usage");
    }
    let claude: bool = agent.is_claude();
    let id: &str = agent.id.as_str();
    let mission: Option<&str> = find_mission_of(st, agent);
    let pct: Option<u32> = find_left_pct(st, claude, id, mission);
    let used: Option<u32> = find_used_tokens(st, claude, id, mission);
    let max: Option<u32> = find_window(st, id);
    match (pct, used, max) {
        (Some(p), Some(u), Some(m)) => text::cat6(
            "Context: ",
            decimal_u32(p).as_str(),
            "% left ",
            format_token_count_short(u).as_str(),
            "/",
            format_token_count_short(m).as_str(),
        ),
        (None, Some(u), Some(m)) => text::cat4(
            "Context: ",
            format_token_count_short(u).as_str(),
            "/",
            format_token_count_short(m).as_str(),
        ),
        (Some(p), None, _) => text::cat3("Context: ", decimal_u32(p).as_str(), "% left"),
        (None, Some(u), None) => text::cat2("Tokens: ", format_token_count_short(u).as_str()),
        _ => text::copy("Updating context usage"),
    }
}

/// What an agent has used, to stand behind what it is doing.
pub open spec fn token_suffix(st: AppState, agent: AgentLane) -> Option<Seq<char>> {
    let m: Option<Seq<char>> = mission_of(st, agent);
    match (left_pct(st, true, agent.id@, m), used_tokens(st, true, agent.id@, m)) {
        (Some(p), Some(u)) => Some(
            short_count(u as nat) + " ("@ + text::decimal(p as nat) + "%)"@,
        ),
        (Some(p), None) => Some(text::decimal(p as nat) + "% left"@),
        (None, Some(u)) => Some(short_count(u as nat)),
        _ => None,
    }
}

pub fn format_token_count_suffix(st: &AppState, agent: &AgentLane) -> (r: Option<String>)
    ensures
        text::opt_text(r) == token_suffix(*st, *agent),
{
    let id: &str = agent.id.as_str();
    let mission: Option<&str> = find_mission_of(st, agent);
    let pct: Option<u32> = find_left_pct(st, true, id, mission);
    let used: Option<u32> = find_used_tokens(st, true, id, mission);
    match (pct, used) {
        (Some(p), Some(u)) => Some(
            text::cat4(
                format_token_count_short(u).as_str(),
                " (",
                decimal_u32(p).as_str(),
                "%)",
            ),
        ),
        (Some(p), None) => Some(text::cat2(decimal_u32(p).as_str(), "% left")),
        (None, Some(u)) => Some(format_token_count_short(u)),
        _ => None,
    }
}

/// A stage of the form `name(detail)`, parted.
pub open spec fn stage_parts(stage: Seq<char>) -> Option<(Seq<char>, Seq<char>)> {
    if stage.len() > 0 && stage.last() == ')' {
        match text::position(stage, '(') {
            Some(k) => Some((stage.subrange(0, k), stage.subrange(k + 1, stage.len() - 1))),
            None => None,
        }
    } else {
        None
    }
}

pub fn split_stage_with_parens(stage: &str) -> (r: Option<(String, String)>)
    ensures
        match r {
            Some(p) => stage_parts(stage@) == Some((p.0@, p.1@)),
            None => stage_parts(stage@) is None,
        },
{
    let v: Vec<char> = text::chars_of(stage);
    let n: usize = v.len();
    if n == 0 || v[n - 1] != ')' {
        return None;
    }
    match text::find_char(stage, '(') {
        Some(k) => {
            proof {
                text::char_at_or_after_is_first(stage@, '(', 0);
            }
            Some((text::text_range(&v, 0, k), text::text_range(&v, k + 1, n - 1)))
        },
        None => None,
    }
}

/// The character that stands for `c` in words: a space for what parts the words of a name.
pub open spec fn worded(c: char) -> char {
    if c == '_' || c == '.' || c == '/' || c == '-' {
        ' '
    } else {
        c
    }
}

/// The first `n` characters as words that one space parts, with none before the first.
pub open spec fn worded_upto(s: Seq<char>, n: int) -> Seq<char>
    decreases n,
{
    if n <= 0 {
        Seq::empty()
    } else {
        let before: Seq<char> = worded_upto(s, n - 1);
        if worded(s[n - 1]) == ' ' && (before.len() == 0 || before.last() == ' ') {
            before
        } else {
            before.push(worded(s[n - 1]))
        }
    }
}

/// A name as words.
pub open spec fn humanized(s: Seq<char>) -> Seq<char> {
    text::trimmed(worded_upto(s, s.len() as int))
}

pub fn humanize_stage_atom(s: &str) -> (r: String)
    ensures
        r@ == humanized(s@),
{
    let v: Vec<char> = text::chars_of(s);
    let mut out: Vec<char> = Vec::new();
    let mut i: usize = 0;
    assert(out@ =~= worded_upto(s@, 0));
    while i < v.len()
        invariant
            i <= v@.len(),
            v@ == s@,
            out@ == worded_upto(s@, i as int),
        decreases v@.len() - i,
    {
        let c: char = match v[i] {
            '_' => ' ',
            '.' => ' ',
            '/' => ' ',
            '-' => ' ',
            other => other,
        };
        let n: usize = out.len();
        if !(c == ' ' && (n == 0 || out[n - 1] == ' ')) {
            out.push(c);
        }
        i += 1;
    }
    let words: String = text::text_of(&out);
    text::trim(words.as_str())
}

/// The capital form of a character beyond ASCII.
pub uninterp spec fn capital_beyond_ascii(c: char) -> Seq<char>;

/// The capital form of a character.
pub open spec fn capital(c: char) -> Seq<char> {
    if text::lower(c) {
        seq![text::raised(c)]
    } else if (c as u32) < 0x80 {
        seq![c]
    } else {
        capital_beyond_ascii(c)
    }
}

/// Calls `char::to_uppercase` of the standard library. Claims that a small ASCII letter becomes
/// the capital one, that any other ASCII character is kept as it is, and that beyond ASCII the
/// answer depends on the character alone.
#[verifier::external_body]
pub(crate) fn to_capital(c: char) -> (r: String)
    ensures
        text::lower(c) ==> r@ == seq![text::raised(c)],
        !text::lower(c) && (c as u32) < 0x80 ==> r@ == seq![c],
        (c as u32) >= 0x80 ==> r@ == capital_beyond_ascii(c),
{
    c.to_uppercase().collect()
}

/// A text whose first character is written as `first`.
pub open spec fn recapped(s: Seq<char>, first: Seq<char>) -> Seq<char> {
    if s.len() == 0 {
        Seq::empty()
    } else {
        first + text::tail(s, 1)
    }
}

/// `s` with `first` in place of its first character.
pub fn with_first(s: &str, first: &str) -> (r: String)
    ensures
        r@ == recapped(s@, first@),
{
    if text::length(s) == 0 {
        let none: String = String::new();
        assert(none@ =~= Seq::<char>::empty());
        return none;
    }
    text::cat2(first, text::tail_of(s, 1).as_str())
}

/// A text that starts with a capital.
pub open spec fn sentence(s: Seq<char>) -> Seq<char> {
    let t: Seq<char> = text::trimmed(s);
    recapped(t, capital(t[0]))
}

pub fn sentence_case(s: &str) -> (r: String)
    ensures
        r@ == sentence(s@),
{
    let bare: String = text::trim(s);
    let v: Vec<char> = text::chars_of(bare.as_str());
    if v.len() == 0 {
        return with_first(bare.as_str(), "");
    }
    let first: String = to_capital(v[0]);
    with_first(bare.as_str(), first.as_str())
}

/// A stage that names a detail, in words.
pub open spec fn detailed_stage(stage: Seq<char>, name: Seq<char>, detail: Seq<char>) -> Seq<char> {
    if name == "item_started"@ || name == "item.started"@ {
        "Starting "@ + humanized(detail)
    } else if name == "item_completed"@ || name == "item.completed"@ {
        "Finished "@ + humanized(detail)
    } else if name == "tools/call"@ {
        if detail == "codex"@ {
            "Starting session"@
        } else if detail == "codex-reply"@ {
            "Continuing session"@
        } else {
            "Calling "@ + humanized(detail)
        }
    } else if name == "assistant"@ {
        "Assistant("@ + humanized(detail) + ")"@
    } else if name == "tool_use"@ {
        "Tool: "@ + humanized(detail)
    } else if name == "tool_result"@ {
        "Result: "@ + humanized(detail)
    } else if name == "content"@ {
        "Writing "@ + humanized(detail)
    } else {
        sentence(humanized(stage))
    }
}

fn describe_detailed(stage: &str, name: &str, detail: &str) -> (r: String)
    ensures
        r@ == detailed_stage(stage@, name@, detail@),
{
    let words: String = humanize_stage_atom(detail);
    let w: &str = words.as_str();
    if text::str_eq(name, "item_started") || text::str_eq(name, "item.started") {
        text::cat2("Starting ", w)
    } else if text::str_eq(name, "item_completed") || text::str_eq(name, "item.completed") {
        text::cat2("Finished ", w)
    } else if text::str_eq(name, "tools/call") {
        if text::str_eq(detail, "codex") {
            text::copy("Starting session")
        } else if text::str_eq(detail, "codex-reply") {
            text::copy("Continuing session")
        } else {
            text::cat2("Calling ", w)
        }
    } else if text::str_eq(name, "assistant") {
        text::cat3("Assistant(", w, ")")
    } else if text::str_eq(name, "tool_use") {
        text::cat2("Tool: ", w)
    } else if text::str_eq(name, "tool_result") {
        text::cat2("Result: ", w)
    } else if text::str_eq(name, "content") {
        text::cat2("Writing ", w)
    } else {
        sentence_case(humanize_stage_atom(stage).as_str())
    }
}

/// A stage in words.
pub open spec fn stage_words(stage: Seq<char>) -> Seq<char> {
    match stage_parts(stage) {
        Some(p) => detailed_stage(stage, p.0, p.1),
        None => if stage == "starting"@ {
            "Starting"@
        } else if stage == "queued"@ {
            "Queued"@
        } else if stage == "warning"@ {
            "Warning"@
        } else if stage == "error"@ {
            "Error"@
        } else if stage == "stream_error"@ || stage == "stream.error"@ {
            "Stream error"@
        } else {
            sentence(humanized(stage))
        },
    }
}

fn describe(stage: &str) -> (r: String)
    ensures
        r@ == stage_words(stage@),
{
    match split_stage_with_parens(stage) {
        Some(p) => describe_detailed(stage, p.0.as_str(), p.1.as_str()),
        None => if text::str_eq(stage, "starting") {
            text::copy("Starting")
        } else if text::str_eq(stage, "queued") {
            text::copy("Queued")
        } else if text::str_eq(stage, "warning") {
            text::copy("Warning")
        } else if text::str_eq(stage, "error") {
            text::copy("Error")
        } else if text::str_eq(stage, "stream_error") || text::str_eq(stage, "stream.error") {
            text::copy("Stream error")
        } else {
            sentence_case(humanize_stage_atom(stage).as_str())
        },
    }
}

/// What an agent is doing, in words.
pub open spec fn stage_label(st: AppState, agent: AgentLane, stage: Seq<char>) -> Seq<char> {
    if st.debug {
        stage
    } else if stage == "token_count"@ {
        token_stage(st, agent)
    } else {
        match token_suffix(st, agent) {
            Some(s) if agent.claude() => stage_words(stage) + " • "@ + s,
            _ => stage_words(stage),
        }
    }
}

pub fn format_agent_stage_label(st: &AppState, agent: &AgentLane, stage: &str) -> (r: String)
    ensures
        r@ == stage_label(*st, *agent, stage@),
{
    if st.debug {
        return text::copy(stage);
    }
    if text::str_eq(stage, "token_count") {
        return format_token_count_stage(st, agent);
    }
    let base: String = describe(stage);
    if agent.is_claude() {
        if let Some(s) = format_token_count_suffix(st, agent) {
            return text::cat3(base.as_str(), " • ", s.as_str());
        }
    }
    base
}

/// The hash of the first `n` bytes of an agent's name.
pub open spec fn seed_upto(bytes: Seq<u8>, n: int) -> u64
    decreases n,
{
    if n <= 0 {
        1469598103934665603
    } else {
        (seed_upto(bytes, n - 1) ^ (bytes[n - 1] as u64)).wrapping_mul(1099511628211)
    }
}

/// The hash of an agent's name.
pub open spec fn seed(name: Seq<char>) -> u64 {
    let bytes: Seq<u8> = vstd::utf8::encode_utf8(name);
    seed_upto(bytes, bytes.len() as int)
}

pub fn agent_seed(agent_id: &str) -> (r: u64)
    ensures
        r == seed(agent_id@),
{
    let bytes: &[u8] = agent_id.as_bytes();
    let mut hash: u64 = 1469598103934665603;
    let mut i: usize = 0;
    while i < bytes.len()
        invariant
            i <= bytes@.len(),
            bytes@ == vstd::utf8::encode_utf8(agent_id@),
            hash == seed_upto(bytes@, i as int),
        decreases bytes@.len() - i,
    {
        hash = (hash ^ (bytes[i] as u64)).wrapping_mul(1099511628211);
        i += 1;
    }
    hash
}

/// The heartbeats that are drawn.
pub open spec fn beats() -> Seq<Seq<char>> {
    seq![
        "▁▂▁▃▂▁"@,
        "▁▃▅▂▁▂"@,
        "▁▄▇▃▁▂"@,
        "▁▅█▄▂▁"@,
        "▁▄▆▃▁▂"@,
        "▁▃▅▂▁▃"@,
        "▁▂▄▂▁▂"@,
        "▁▃▆▃▁▂"@,
        "▁▂▅▂▁▂"@,
    ]
}

/// One step of the mixing that picks a heartbeat.
pub open spec fn shaken(phase: u64, pulse_on: bool) -> u64 {
    let a: u64 = phase ^ 0x9E37_79B9_7F4A_7C15u64;
    let b: u64 = a ^ (a >> 12u64);
    let c: u64 = b ^ (b << 25u64);
    let d: u64 = c ^ (c >> 27u64);
    if pulse_on {
        d
    } else {
        d ^ 0xA24B_AED4_9C77_1E3Du64
    }
}

/// The heartbeat of an agent in a frame.
pub open spec fn beat(frame_count: u64, agent: Option<Seq<char>>, pulse_on: bool, working: bool) -> Seq<
    char,
> {
    if !working {
        "▁▁▁▁▁▁"@
    } else {
        let s: u64 = seed(
            match agent {
                Some(a) => a,
                None => "agent"@,
            },
        );
        let turned: u64 = (s << 7u64) | (s >> 57u64);
        let x: u64 = shaken(((frame_count / 3) as u64).wrapping_add(turned), pulse_on);
        beats()[(x as usize) as int % 9]
    }
}

pub fn ecg_indicator(
    frame_count: u64,
    agent_id: Option<&str>,
    pulse_on: bool,
    working: bool,
) -> (r: &'static str)
    ensures
        r@ == beat(frame_count, text::opt_str(agent_id), pulse_on, working),
{
    if !working {
        return "▁▁▁▁▁▁";
    }
    let s: u64 = match agent_id {
        Some(a) => agent_seed(a),
        None => agent_seed("agent"),
    };
    let turned: u64 = (s << 7u64) | (s >> 57u64);
    let phase: u64 = (frame_count / 3).wrapping_add(turned);
    let a: u64 = phase ^ 0x9E37_79B9_7F4A_7C15u64;
    let b: u64 = a ^ (a >> 12u64);
    let c: u64 = b ^ (b << 25u64);
    let d: u64 = c ^ (c >> 27u64);
    let x: u64 = if pulse_on {
        d
    } else {
        d ^ 0xA24B_AED4_9C77_1E3Du64
    };
    let k: usize = (x as usize) % 9;
    match k {
        0 => "▁▂▁▃▂▁",
        1 => "▁▃▅▂▁▂",
        2 => "▁▄▇▃▁▂",
        3 => "▁▅█▄▂▁",
        4 => "▁▄▆▃▁▂",
        5 => "▁▃▅▂▁▃",
        6 => "▁▂▄▂▁▂",
        7 => "▁▃▆▃▁▂",
        _ => "▁▂▅▂▁▂",
    }
}

/// Whether what pulses is lit in this frame.
#[verifier::allow_in_spec]
pub fn pulse_on(frame_count: u64) -> bool
    returns
        frame_count / 6 % 2 == 0,
{
    frame_count / 6 % 2 == 0
}

} // verus!
