//! What the task graph says of a swarm.

use vstd::prelude::*;

use crate::agent_ops_view::dag;
use crate::agent_ops_view::roster_lines;
use crate::laws::labels;
use crate::laws::texts;
use crate::state::Entry;
use crate::state::SwarmDashboardView;
use crate::text;

verus! {

/// Whether a swarm carries out its tasks, rather than planning, verifying or summing up.
pub open spec fn at_work(d: SwarmDashboardView) -> bool {
    d.phase@ != "PLAN"@ && d.phase@ != "VERIFY"@ && d.phase@ != "SYNTH"@
}

proof fn words_differ()
    ensures
        "EMPTY"@ != "FAILED"@,
        "EMPTY"@ != "RUNNING"@,
        "EMPTY"@ != "QUEUED"@,
        "EMPTY"@ != "PENDING"@,
        "EMPTY"@ != "DONE"@,
        "EMPTY"@ != "IDLE"@,
        "FAILED"@ != "RUNNING"@,
        "FAILED"@ != "QUEUED"@,
        "FAILED"@ != "PENDING"@,
        "FAILED"@ != "DONE"@,
        "FAILED"@ != "IDLE"@,
        "RUNNING"@ != "QUEUED"@,
        "RUNNING"@ != "PENDING"@,
        "RUNNING"@ != "DONE"@,
        "RUNNING"@ != "IDLE"@,
        "QUEUED"@ != "PENDING"@,
        "QUEUED"@ != "DONE"@,
        "QUEUED"@ != "IDLE"@,
        "PENDING"@ != "DONE"@,
        "PENDING"@ != "IDLE"@,
        "DONE"@ != "IDLE"@,
{
    reveal_strlit("EMPTY");
    reveal_strlit("FAILED");
    reveal_strlit("RUNNING");
    reveal_strlit("QUEUED");
    reveal_strlit("PENDING");
    reveal_strlit("DONE");
    reveal_strlit("IDLE");
    assert("EMPTY"@[0] == 'E');
    assert("FAILED"@[0] == 'F');
    assert("RUNNING"@[0] == 'R');
    assert("QUEUED"@[0] == 'Q');
    assert("PENDING"@[0] == 'P');
    assert("DONE"@[0] == 'D');
    assert("IDLE"@[0] == 'I');
}

/// A swarm at work that has tasks has failed exactly where one of them has.
pub proof fn failed_where_a_task_failed(d: SwarmDashboardView)
    requires
        at_work(d),
        d.tasks@.len() > 0,
    ensures
        dag::status_word(d) == "FAILED"@ <==> d.failed > 0,
{
    words_differ();
}

/// A swarm at work is done exactly where it has tasks, all of them were done or skipped, and none
/// failed, runs, or waits.
pub proof fn done_where_nothing_is_left(d: SwarmDashboardView)
    requires
        at_work(d),
    ensures
        dag::status_word(d) == "DONE"@ <==> d.tasks@.len() > 0 && d.failed == 0 && d.running == 0
            && d.queued == 0 && d.pending == 0 && d.done + d.skipped == d.tasks@.len(),
{
    words_differ();
}

/// A swarm at work in which nothing failed runs where a task runs; it is queued where none runs and
/// one is queued, and pending where there is nothing but tasks that wait for others.
pub proof fn the_busiest_task_names_the_swarm(d: SwarmDashboardView)
    requires
        at_work(d),
        d.tasks@.len() > 0,
        d.failed == 0,
    ensures
        dag::status_word(d) == "RUNNING"@ <==> d.running > 0,
        dag::status_word(d) == "QUEUED"@ <==> d.running == 0 && d.queued > 0,
        dag::status_word(d) == "PENDING"@ <==> d.running == 0 && d.queued == 0 && d.pending > 0,
{
    words_differ();
}

/// A swarm at work is empty exactly where it has no tasks.
pub proof fn empty_without_tasks(d: SwarmDashboardView)
    requires
        at_work(d),
    ensures
        dag::status_word(d) == "EMPTY"@ <==> d.tasks@.len() == 0,
{
    words_differ();
}

/// A swarm that plans, verifies or sums up is called after that, whatever its tasks are doing.
pub proof fn other_phases_speak_for_themselves(d: SwarmDashboardView)
    requires
        !at_work(d),
    ensures
        dag::status_word(d) == d.phase@,
{
}

/// Whether a text stands in one of these lines.
pub open spec fn said_in(lines: Seq<Seq<char>>, s: Seq<char>) -> bool {
    exists|i: int, a: Seq<char>, b: Seq<char>|
        0 <= i < lines.len() && lines[i] == #[trigger] around(a, s, b) && #[trigger] at_line(i)
}

/// A text with others before and behind it.
pub open spec fn around(a: Seq<char>, s: Seq<char>, b: Seq<char>) -> Seq<char> {
    a + s + b
}

/// Names the place of a line.
pub open spec fn at_line(i: int) -> bool {
    true
}

proof fn packed_says(segs: Seq<Seq<char>>, width: int, n: int, k: int)
    requires
        0 <= k < n <= segs.len(),
    ensures
        said_in(dag::packed(segs, width, n), segs[k]),
    decreases n,
{
    let lines: Seq<Seq<char>> = dag::packed(segs, width, n - 1);
    let all: Seq<Seq<char>> = dag::packed(segs, width, n);
    let joins: bool = lines.len() > 0 && lines.last().len() + 3 + segs[n - 1].len() <= width;
    let nothing: Seq<char> = Seq::empty();
    if k == n - 1 {
        let a: Seq<char> = if joins {
            lines.last() + " | "@
        } else {
            " "@
        };
        assert(all[all.len() - 1] =~= around(a, segs[k], nothing));
        assert(at_line(all.len() - 1));
    } else {
        packed_says(segs, width, n - 1, k);
        let (i, a, b) = choose|i: int, a: Seq<char>, b: Seq<char>|
            0 <= i < lines.len() && lines[i] == #[trigger] around(a, segs[k], b)
                && #[trigger] at_line(i);
        if joins && i == lines.len() - 1 {
            let more: Seq<char> = b + (" | "@ + segs[n - 1]);
            assert(all[i] =~= around(a, segs[k], more));
            assert(at_line(i));
        } else {
            assert(all[i] == around(a, segs[k], b));
            assert(at_line(i));
        }
    }
}

proof fn segment_is_there(
    names: Seq<Seq<char>>,
    values: Seq<Seq<char>>,
    room: int,
    n: int,
    k: int,
) -> (at: int)
    requires
        0 <= k < n <= names.len(),
        labels::bare(names[k]),
        labels::bare(values[k]),
        names[k].len() + 2 + values[k].len() <= room,
    ensures
        0 <= at < dag::block_segments(names, values, room, n).len(),
        dag::block_segments(names, values, room, n)[at] == names[k] + ": "@ + values[k],
    decreases n,
{
    let before: Seq<Seq<char>> = dag::block_segments(names, values, room, n - 1);
    if k == n - 1 {
        reveal_strlit(": ");
        texts::nothing_else_is_trimmed(names[k]);
        texts::nothing_else_is_trimmed(values[k]);
        before.len() as int
    } else {
        segment_is_there(names, values, room, n - 1, k)
    }
}

/// A block of labels and values says every value behind its label, where both fit on a line.
pub proof fn blocks_say_every_value(
    names: Seq<Seq<char>>,
    values: Seq<Seq<char>>,
    width: int,
    k: int,
)
    requires
        0 <= k < names.len(),
        labels::bare(names[k]),
        labels::bare(values[k]),
        names[k].len() + 3 + values[k].len() <= text::max_int(width, 32),
    ensures
        said_in(dag::block(names, values, width), names[k] + ": "@ + values[k]),
{
    let w: int = text::max_int(width, 32);
    let n: int = names.len() as int;
    let at: int = segment_is_there(names, values, w - 1, n, k);
    let segs: Seq<Seq<char>> = dag::block_segments(names, values, w - 1, n);
    packed_says(segs, w, segs.len() as int, at);
}

/// What some lines say is said where others stand around them.
pub proof fn said_behind(before: Seq<Seq<char>>, lines: Seq<Seq<char>>, after: Seq<Seq<char>>, s: Seq<char>)
    requires
        said_in(lines, s),
    ensures
        said_in(before + lines + after, s),
{
    let (i, a, b) = choose|i: int, a: Seq<char>, b: Seq<char>|
        0 <= i < lines.len() && lines[i] == #[trigger] around(a, s, b) && #[trigger] at_line(i);
    let all: Seq<Seq<char>> = before + lines + after;
    assert(all[before.len() + i] == around(a, s, b));
    assert(at_line(before.len() + i));
}

proof fn status_is_short(d: SwarmDashboardView)
    ensures
        labels::bare(dag::status_word(d)),
        dag::status_word(d).len() <= 7,
{
    reveal_strlit("PLAN");
    reveal_strlit("VERIFY");
    reveal_strlit("SYNTH");
    reveal_strlit("EMPTY");
    reveal_strlit("FAILED");
    reveal_strlit("RUNNING");
    reveal_strlit("QUEUED");
    reveal_strlit("PENDING");
    reveal_strlit("DONE");
    reveal_strlit("IDLE");
}

/// The tab says how the swarm stands, and how many of its tasks are done and have failed.
pub proof fn the_tab_says_how_the_swarm_stands(
    names: Seq<Entry<String>>,
    d: SwarmDashboardView,
    given: int,
    arrow: char,
)
    requires
        d.tasks@.len() <= usize::MAX,
    ensures
        said_in(
            dag::dashboard_lines(names, d, given, arrow),
            "Status"@ + ": "@ + dag::status_word(d),
        ),
        said_in(
            dag::dashboard_lines(names, d, given, arrow),
            "Fail"@ + ": "@ + text::decimal(d.failed as nat),
        ),
        said_in(
            dag::dashboard_lines(names, d, given, arrow),
            "Run"@ + ": "@ + text::decimal(d.running as nat),
        ),
        said_in(
            dag::dashboard_lines(names, d, given, arrow),
            "Queue"@ + ": "@ + text::decimal(d.queued as nat),
        ),
        said_in(
            dag::dashboard_lines(names, d, given, arrow),
            "Pending"@ + ": "@ + text::decimal(d.pending as nat),
        ),
        said_in(
            dag::dashboard_lines(names, d, given, arrow),
            "Skip"@ + ": "@ + text::decimal(d.skipped as nat),
        ),
{
    reveal_strlit("Status");
    reveal_strlit("Done");
    reveal_strlit("Fail");
    reveal_strlit("Run");
    reveal_strlit("Queue");
    reveal_strlit("Pending");
    reveal_strlit("Skip");
    let width: int = text::max_int(given, 32);
    let start: Seq<Seq<char>> = seq![" DAG"@, roster_lines::rule(width)];
    let first: Seq<Seq<char>> = seq!["Status"@, "Mission"@, "Template"@, "Phase"@];
    let firsts: Seq<Seq<char>> = seq![dag::status_word(d), d.mission_id@, d.template@, d.phase@];
    let second: Seq<Seq<char>> = seq!["Done"@, "Fail"@, "Run"@, "Queue"@, "Pending"@, "Skip"@];
    let seconds: Seq<Seq<char>> = seq![
        text::decimal(d.done as nat) + "/"@ + text::decimal(d.tasks@.len()),
        text::decimal(d.failed as nat),
        text::decimal(d.running as nat),
        text::decimal(d.queued as nat),
        text::decimal(d.pending as nat),
        text::decimal(d.skipped as nat),
    ];
    let a: Seq<Seq<char>> = dag::block(first, firsts, width);
    let b: Seq<Seq<char>> = dag::block(second, seconds, width);
    let head: Seq<Seq<char>> = dag::head_lines(d, width);
    let all: Seq<Seq<char>> = dag::dashboard_lines(names, d, given, arrow);
    let n: int = (start.len() + a.len() + b.len()) as int;
    assert(n <= head.len() <= all.len());
    assert(all.take(n) =~= start + a + b);
    let rest: Seq<Seq<char>> = all.skip(n);
    assert(all =~= start + a + (b + rest));
    assert(all =~= (start + a) + b + rest);
    status_is_short(d);
    blocks_say_every_value(first, firsts, width, 0);
    said_behind(start, a, b + rest, "Status"@ + ": "@ + dag::status_word(d));
    number_is_bare(d.failed as nat);
    number_is_bare(d.running as nat);
    number_is_bare(d.queued as nat);
    number_is_bare(d.pending as nat);
    number_is_bare(d.skipped as nat);
    blocks_say_every_value(second, seconds, width, 1);
    blocks_say_every_value(second, seconds, width, 2);
    blocks_say_every_value(second, seconds, width, 3);
    blocks_say_every_value(second, seconds, width, 4);
    blocks_say_every_value(second, seconds, width, 5);
    said_behind(start + a, b, rest, "Fail"@ + ": "@ + text::decimal(d.failed as nat));
    said_behind(start + a, b, rest, "Run"@ + ": "@ + text::decimal(d.running as nat));
    said_behind(start + a, b, rest, "Queue"@ + ": "@ + text::decimal(d.queued as nat));
    said_behind(start + a, b, rest, "Pending"@ + ": "@ + text::decimal(d.pending as nat));
    said_behind(start + a, b, rest, "Skip"@ + ": "@ + text::decimal(d.skipped as nat));
}

/// A number has no white characters, and few digits.
pub proof fn number_is_bare(n: nat)
    requires
        n <= usize::MAX,
    ensures
        labels::bare(text::decimal(n)),
        text::decimal(n).len() <= 20,
{
    texts::numbers_are_spelled_out(n);
    text::machine_numbers_are_short(n);
    let s: Seq<char> = text::decimal(n);
    assert('0' <= s[0] <= '9');
    assert('0' <= s[s.len() - 1] <= '9');
}

} // verus!
