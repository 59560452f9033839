//! Names of the copies of agents that swarms and chats make, and of the roles they play.

use vstd::prelude::*;

use crate::state;
use crate::state::Entry;
use crate::state::SwarmDashboardView;
use crate::text;

verus! {

/// What stands behind the swarm marker in the name of a swarm copy.
pub open spec fn clone_tail(id: Seq<char>) -> Option<Seq<char>> {
    match text::around(id, "#swarm-"@) {
        Some(parts) => Some(text::trimmed(parts.1)),
        None => None,
    }
}

/// The position of the second dash.
pub open spec fn second_dash(s: Seq<char>) -> Option<int> {
    match text::position(s, '-') {
        Some(a) => match text::position(text::tail(s, a + 1), '-') {
            Some(b) => Some(a + 1 + b),
            None => None,
        },
        None => None,
    }
}

/// What follows the mission in the tail of a copy's name.
pub open spec fn after_mission(rest: Seq<char>, dash: int) -> Seq<char> {
    text::trimmed(text::without_leading(text::tail(rest, dash), '-'))
}

fn find_second_dash(s: &str) -> (r: Option<usize>)
    ensures
        match r {
            Some(k) => second_dash(s@) == Some(k as int) && k < s@.len() <= usize::MAX,
            None => second_dash(s@) is None,
        },
{
    match text::find_char(s, '-') {
        Some(a) => {
            let rest: String = text::tail_of(s, a + 1);
            match text::find_char(rest.as_str(), '-') {
                Some(b) => Some(a + 1 + b),
                None => None,
            }
        },
        None => None,
    }
}

pub fn is_swarm_clone_agent_id(agent_id: &str) -> (r: bool)
    ensures
        r == (clone_tail(agent_id@) is Some),
{
    text::split_once(agent_id, "#swarm-").is_some()
}

/// The mission and the number of a swarm copy.
pub open spec fn clone_parts(id: Seq<char>) -> Option<(Seq<char>, Seq<char>)> {
    match clone_tail(id) {
        Some(rest) => match second_dash(rest) {
            Some(dash) => {
                let mission: Seq<char> = text::trimmed(text::head(rest, dash));
                let suffix: Seq<char> = after_mission(rest, dash);
                if rest.len() > 0 && mission.len() > 0 && suffix.len() > 0 {
                    Some((mission, suffix))
                } else {
                    None
                }
            },
            None => None,
        },
        None => None,
    }
}

pub fn swarm_clone_label_parts(agent_id: &str) -> (r: Option<(String, String)>)
    ensures
        match r {
            Some(ms) => clone_parts(agent_id@) == Some((ms.0@, ms.1@)),
            None => clone_parts(agent_id@) is None,
        },
{
    let rest: String = match text::split_once(agent_id, "#swarm-") {
        Some(parts) => text::trim(parts.1.as_str()),
        None => {
            return None;
        },
    };
    if text::length(rest.as_str()) == 0 {
        return None;
    }
    match find_second_dash(rest.as_str()) {
        Some(dash) => {
            let head: String = text::head_of(rest.as_str(), dash);
            let mission: String = text::trim(head.as_str());
            let tail: String = text::tail_of(rest.as_str(), dash);
            let bare: String = text::trim_leading(tail.as_str(), '-');
            let suffix: String = text::trim(bare.as_str());
            if text::length(mission.as_str()) == 0 || text::length(suffix.as_str()) == 0 {
                None
            } else {
                Some((mission, suffix))
            }
        },
        None => None,
    }
}

/// The words between the dashes, one space apart; the trimmed text where there are none.
pub open spec fn spaced_words(s: Seq<char>) -> Seq<char> {
    let parts: Seq<Seq<char>> = text::split_at_char(s, '-');
    let words: Seq<Seq<char>> = text::trimmed_parts(parts, parts.len() as int);
    if words.len() == 0 {
        text::trimmed(s)
    } else {
        text::joined(words, " "@)
    }
}

pub fn compact_swarm_clone_suffix(suffix: &str) -> (r: String)
    ensures
        r@ == spaced_words(suffix@),
{
    let parts: Vec<String> = text::split_char(suffix, '-');
    let words: Vec<String> = text::trim_parts(&parts);
    if words.len() == 0 {
        text::trim(suffix)
    } else {
        text::join(&words, " ")
    }
}

/// The short label of a swarm copy in the chat.
pub open spec fn chat_label(id: Seq<char>) -> Option<Seq<char>> {
    match clone_tail(id) {
        Some(rest) => match second_dash(rest) {
            Some(dash) => {
                let suffix: Seq<char> = after_mission(rest, dash);
                if rest.len() == 0 {
                    None
                } else if suffix.len() == 0 {
                    Some(rest)
                } else {
                    let parts: Seq<Seq<char>> = text::split_at_char(suffix, '-');
                    let words: Seq<Seq<char>> = text::trimmed_parts(parts, parts.len() as int);
                    if words.len() == 0 {
                        Some(suffix)
                    } else {
                        Some(text::joined(words, " "@))
                    }
                }
            },
            None => None,
        },
        None => None,
    }
}

pub fn compact_swarm_clone_label(agent_id: &str) -> (r: Option<String>)
    ensures
        text::opt_text(r) == chat_label(agent_id@),
{
    let rest: String = match text::split_once(agent_id, "#swarm-") {
        Some(parts) => text::trim(parts.1.as_str()),
        None => {
            return None;
        },
    };
    if text::length(rest.as_str()) == 0 {
        return None;
    }
    match find_second_dash(rest.as_str()) {
        Some(dash) => {
            let tail: String = text::tail_of(rest.as_str(), dash);
            let bare: String = text::trim_leading(tail.as_str(), '-');
            let suffix: String = text::trim(bare.as_str());
            if text::length(suffix.as_str()) == 0 {
                return Some(rest);
            }
            let parts: Vec<String> = text::split_char(suffix.as_str(), '-');
            let words: Vec<String> = text::trim_parts(&parts);
            if words.len() == 0 {
                Some(suffix)
            } else {
                Some(text::join(&words, " "))
            }
        },
        None => None,
    }
}

/// The agent that a swarm copy was made of, with the number of the copy.
pub open spec fn source_label(id: Seq<char>) -> Option<Seq<char>> {
    match text::around(id, "#swarm-"@) {
        Some(parts) => {
            let base: Seq<char> = text::trimmed(parts.0);
            let rest: Seq<char> = text::trimmed(parts.1);
            match second_dash(rest) {
                Some(dash) => {
                    let suffix: Seq<char> = after_mission(rest, dash);
                    if base.len() == 0 || rest.len() == 0 {
                        None
                    } else if suffix.len() == 0 {
                        Some(base)
                    } else {
                        Some(base + "#"@ + suffix)
                    }
                },
                None => None,
            }
        },
        None => None,
    }
}

pub fn swarm_clone_source_label(agent_id: &str) -> (r: Option<String>)
    ensures
        text::opt_text(r) == source_label(agent_id@),
{
    match text::split_once(agent_id, "#swarm-") {
        Some(parts) => {
            let base: String = text::trim(parts.0.as_str());
            let rest: String = text::trim(parts.1.as_str());
            if text::length(base.as_str()) == 0 || text::length(rest.as_str()) == 0 {
                return None;
            }
            match find_second_dash(rest.as_str()) {
                Some(dash) => {
                    let tail: String = text::tail_of(rest.as_str(), dash);
                    let bare: String = text::trim_leading(tail.as_str(), '-');
                    let suffix: String = text::trim(bare.as_str());
                    if text::length(suffix.as_str()) == 0 {
                        Some(base)
                    } else {
                        Some(text::cat3(base.as_str(), "#", suffix.as_str()))
                    }
                },
                None => None,
            }
        },
        None => None,
    }
}

/// The name of a role for comparing: `all`, its canonical name, or its lower-case spelling.
pub open spec fn role_hint(names: Seq<Entry<String>>, raw: Seq<char>) -> Seq<char> {
    let role: Seq<char> = text::trimmed(raw);
    if text::same_letters(role, "all"@) {
        "all"@
    } else {
        match state::value_of(names, role) {
            Some(name) => name@,
            None => text::lowered_text(role),
        }
    }
}

pub fn normalize_roster_role_hint(names: &Vec<Entry<String>>, raw: &str) -> (r: String)
    ensures
        r@ == role_hint(names@, raw@),
{
    let role: String = text::trim(raw);
    if text::eq_ignore_case(role.as_str(), "all") {
        return text::copy("all");
    }
    match state::lookup(names, role.as_str()) {
        Some(name) => text::copy(name.as_str()),
        None => text::lower_of(role.as_str()),
    }
}

/// The name of a role in a table: trimmed, with one spelling for computational research.
pub open spec fn role_label(names: Seq<Entry<String>>, raw: Seq<char>) -> Seq<char> {
    let role: Seq<char> = text::trimmed(raw);
    let name: Option<String> = state::value_of(names, role);
    if role.len() > 0 && text::opt_text(name) == Some("computational-research"@) {
        "computational-research"@
    } else {
        role
    }
}

pub fn table_role_label(names: &Vec<Entry<String>>, raw: &str) -> (r: String)
    ensures
        r@ == role_label(names@, raw@),
{
    let role: String = text::trim(raw);
    if text::length(role.as_str()) == 0 {
        return role;
    }
    match state::lookup(names, role.as_str()) {
        Some(name) => {
            if text::str_eq(name.as_str(), "computational-research") {
                return text::copy("computational-research");
            }
        },
        None => {},
    }
    role
}

/// The label of a swarm copy in a table, with its role where that is known.
pub open spec fn display_label(
    names: Seq<Entry<String>>,
    id: Seq<char>,
    role: Option<Seq<char>>,
) -> Option<Seq<char>> {
    match clone_tail(id) {
        Some(rest) => if rest.len() == 0 {
            None
        } else {
            let label: Seq<char> = match clone_parts(id) {
                Some(ms) => spaced_words(ms.1),
                None => spaced_words(rest),
            };
            match role {
                Some(r) => if text::trimmed(r).len() > 0 {
                    Some(label + " ["@ + role_hint(names, text::trimmed(r)) + "]"@)
                } else {
                    Some(label)
                },
                None => Some(label),
            }
        },
        None => None,
    }
}

pub fn swarm_clone_display_label(
    names: &Vec<Entry<String>>,
    agent_id: &str,
    role: Option<&str>,
) -> (r: Option<String>)
    ensures
        text::opt_text(r) == display_label(names@, agent_id@, text::opt_str(role)),
{
    let rest: String = match text::split_once(agent_id, "#swarm-") {
        Some(parts) => text::trim(parts.1.as_str()),
        None => {
            return None;
        },
    };
    if text::length(rest.as_str()) == 0 {
        return None;
    }
    let label: String = match swarm_clone_label_parts(agent_id) {
        Some(ms) => compact_swarm_clone_suffix(ms.1.as_str()),
        None => compact_swarm_clone_suffix(rest.as_str()),
    };
    match role {
        Some(r) => {
            let bare: String = text::trim(r);
            if text::length(bare.as_str()) > 0 {
                let hint: String = normalize_roster_role_hint(names, bare.as_str());
                Some(text::cat4(label.as_str(), " [", hint.as_str(), "]"))
            } else {
                Some(label)
            }
        },
        None => Some(label),
    }
}

/// The canonical name of the role of task `i`, where the task is the agent's and its role has one.
pub open spec fn task_role(
    names: Seq<Entry<String>>,
    dashboard: SwarmDashboardView,
    agent_id: Seq<char>,
    i: int,
) -> Option<Seq<char>> {
    let task: state::SwarmDashboardTask = dashboard.tasks@[i];
    if task.agent_id@ == agent_id {
        match task.role {
            Some(role) => match state::value_of(names, role@) {
                Some(name) => if name@.len() > 0 {
                    Some(name@)
                } else {
                    None
                },
                None => None,
            },
            None => None,
        }
    } else {
        None
    }
}

/// The roles of the agent in the first `n` tasks, each once, in the order in which they come up.
pub open spec fn roles_upto(
    names: Seq<Entry<String>>,
    dashboard: SwarmDashboardView,
    agent_id: Seq<char>,
    n: int,
) -> Seq<Seq<char>>
    decreases n,
{
    if n <= 0 {
        Seq::empty()
    } else {
        let before: Seq<Seq<char>> = roles_upto(names, dashboard, agent_id, n - 1);
        match task_role(names, dashboard, agent_id, n - 1) {
            Some(role) => if before.contains(role) {
                before
            } else {
                before.push(role)
            },
            None => before,
        }
    }
}

/// The roles that the tasks of a swarm give an agent.
pub open spec fn assigned_roles(
    names: Seq<Entry<String>>,
    dashboard: SwarmDashboardView,
    agent_id: Seq<char>,
) -> Option<Seq<char>> {
    let roles: Seq<Seq<char>> = roles_upto(
        names,
        dashboard,
        agent_id,
        dashboard.tasks@.len() as int,
    );
    if roles.len() == 0 {
        None
    } else {
        Some(text::joined(roles, "+"@))
    }
}

pub fn swarm_assigned_roles_for_agent(
    names: &Vec<Entry<String>>,
    dashboard: &SwarmDashboardView,
    agent_id: &str,
) -> (r: Option<String>)
    ensures
        text::opt_text(r) == assigned_roles(names@, *dashboard, agent_id@),
{
    broadcast use text::group_texts;

    let mut roles: Vec<String> = Vec::new();
    let mut i: usize = 0;
    while i < dashboard.tasks.len()
        invariant
            i <= dashboard.tasks@.len(),
            text::texts(roles@) == roles_upto(names@, *dashboard, agent_id@, i as int),
        decreases dashboard.tasks@.len() - i,
    {
        let task: &state::SwarmDashboardTask = &dashboard.tasks[i];
        if text::str_eq(task.agent_id.as_str(), agent_id) {
            match &task.role {
                Some(role) => match state::lookup(names, role.as_str()) {
                    Some(name) => {
                        if text::length(name.as_str()) > 0 {
                            let known: bool = state::contains_text(&roles, name.as_str());
                            proof {
                                let before: Seq<Seq<char>> = text::texts(roles@);
                                if known {
                                    let k: int = choose|k: int|
                                        0 <= k < roles@.len() && (#[trigger] roles@[k])@ == name@;
                                    assert(before[k] == name@);
                                } else {
                                    assert(!before.contains(name@)) by {
                                        if before.contains(name@) {
                                            let k: int = choose|k: int|
                                                0 <= k < before.len() && before[k] == name@;
                                            assert(roles@[k]@ == name@);
                                        }
                                    }
                                }
                            }
                            if !known {
                                roles.push(text::copy(name.as_str()));
                            }
                        }
                    },
                    None => {},
                },
                None => {},
            }
        }
        i += 1;
    }
    if roles.len() == 0 {
        None
    } else {
        Some(text::join(&roles, "+"))
    }
}

/// The name of a swarm copy without the mission in its middle.
pub open spec fn compact_id(id: Seq<char>, infix: Seq<char>) -> Seq<char> {
    match text::around(id, infix) {
        Some(parts) => match second_dash(parts.1) {
            Some(dash) => {
                let suffix: Seq<char> = text::tail(parts.1, dash + 1);
                if suffix.len() == 0 {
                    id
                } else {
                    parts.0 + "#"@ + suffix
                }
            },
            None => id,
        },
        None => id,
    }
}

/// Drops the mission from the name of a swarm copy; any other name is left alone.
pub fn compact_agent_id(id: &str, infix: &str) -> (r: String)
    ensures
        r@ == compact_id(id@, infix@),
{
    match text::split_once(id, infix) {
        Some(parts) => match find_second_dash(parts.1.as_str()) {
            Some(dash) => {
                let suffix: String = text::tail_of(parts.1.as_str(), dash + 1);
                if text::length(suffix.as_str()) == 0 {
                    text::copy(id)
                } else {
                    text::cat3(parts.0.as_str(), "#", suffix.as_str())
                }
            },
            None => text::copy(id),
        },
        None => text::copy(id),
    }
}

} // verus!
