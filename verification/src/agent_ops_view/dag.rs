//! The tab on the tasks of a swarm.

use vstd::prelude::*;

use crate::agent_ops_view::glyphs;
use crate::agent_ops_view::roster_lines;
use crate::clone_labels;
use crate::fit;
use crate::state;
use crate::state::AppState;
use crate::state::Entry;
use crate::state::SwarmDashboardGate;
use crate::state::SwarmDashboardTask;
use crate::state::SwarmDashboardView;
use crate::state::SwarmRuntime;
use crate::table_cells;
use crate::text;
use crate::wrap;

verus! {

/// The widths of the columns of the tasks.
pub open spec fn task_widths(total: int) -> Seq<usize> {
    fit::allocated(total, seq![9, 7, 10], seq![10, 7, 24], 2)
}

pub fn dag_task_widths(total: usize) -> (r: Vec<usize>)
    ensures
        r@ == task_widths(total as int),
        r@.len() == 3,
{
    let mins: Vec<usize> = vec![9, 7, 10];
    let prefs: Vec<usize> = vec![10, 7, 24];
    proof {
        fit::sums_of_few(9, 7, 10, 0, 0);
        fit::sums_of_few(10, 7, 24, 0, 0);
        assert(mins@ =~= seq![9usize, 7, 10]);
        assert(prefs@ =~= seq![10usize, 7, 24]);
    }
    fit::allocate_columns(total, &mins, &prefs, 2)
}

/// The widths of the columns of the gates.
pub open spec fn gate_widths(total: int) -> Seq<usize> {
    fit::allocated(total, seq![4, 6, 10], seq![10, 8, 24], 2)
}

pub fn dag_gate_widths(total: usize) -> (r: Vec<usize>)
    ensures
        r@ == gate_widths(total as int),
        r@.len() == 3,
{
    let mins: Vec<usize> = vec![4, 6, 10];
    let prefs: Vec<usize> = vec![10, 8, 24];
    proof {
        fit::sums_of_few(4, 6, 10, 0, 0);
        fit::sums_of_few(10, 8, 24, 0, 0);
        assert(mins@ =~= seq![4usize, 6, 10]);
        assert(prefs@ =~= seq![10usize, 8, 24]);
    }
    fit::allocate_columns(total, &mins, &prefs, 2)
}

/// A label and its value; in `room` characters, the value may take several.
pub open spec fn segments(label: Seq<char>, value: Seq<char>, room: int) -> Seq<Seq<char>> {
    let name: Seq<char> = text::trimmed(label);
    let bare: Seq<char> = text::trimmed(value);
    let whole: Seq<char> = name + ": "@ + bare;
    let left: int = text::monus(room, (name + ": "@).len() as int);
    if whole.len() <= room {
        seq![whole]
    } else if left == 0 {
        seq![name + ":"@]
    } else {
        let chunks: Seq<Seq<char>> = wrap::cell_lines(bare, left);
        Seq::new(chunks.len(), |i: int| name + ": "@ + chunks[i])
    }
}

pub open spec fn segments_upto(pairs: Seq<(&str, String)>, room: int, n: int) -> Seq<Seq<char>>
    decreases n,
{
    if n <= 0 {
        Seq::empty()
    } else {
        segments_upto(pairs, room, n - 1) + segments(pairs[n - 1].0@, pairs[n - 1].1@, room)
    }
}

/// The first `n` segments on as few lines of `width` characters as filling them in order takes.
pub open spec fn packed(segs: Seq<Seq<char>>, width: int, n: int) -> Seq<Seq<char>>
    decreases n,
{
    if n <= 0 {
        Seq::empty()
    } else {
        let lines: Seq<Seq<char>> = packed(segs, width, n - 1);
        if lines.len() > 0 && lines.last().len() + 3 + segs[n - 1].len() <= width {
            lines.drop_last().push(lines.last() + " | "@ + segs[n - 1])
        } else {
            lines.push(" "@ + segs[n - 1])
        }
    }
}

/// The lines of a block of labels and values.
pub open spec fn kv_block(pairs: Seq<(&str, String)>, width: int) -> Seq<Seq<char>> {
    let w: int = text::max_int(width, 32);
    let segs: Seq<Seq<char>> = segments_upto(pairs, w - 1, pairs.len() as int);
    let lines: Seq<Seq<char>> = packed(segs, w, segs.len() as int);
    if lines.len() == 0 {
        seq![" "@]
    } else {
        lines
    }
}

fn push_segments(out: &mut Vec<String>, label: &str, value: &str, room: usize)
    ensures
        text::texts(final(out)@) == text::texts(old(out)@) + segments(label@, value@, room as int),
{
    broadcast use text::group_texts;

    let name: String = text::trim(label);
    let bare: String = text::trim(value);
    let prefix: String = text::cat2(name.as_str(), ": ");
    let whole: String = text::cat2(prefix.as_str(), bare.as_str());
    let ghost before: Seq<Seq<char>> = text::texts(out@);
    let ghost all: Seq<Seq<char>> = segments(label@, value@, room as int);
    if text::length(whole.as_str()) <= room {
        out.push(whole);
        assert(text::texts(out@) =~= before + all);
        return;
    }
    let left: usize = text::minus(room, text::length(prefix.as_str()));
    if left == 0 {
        out.push(text::cat2(name.as_str(), ":"));
        assert(text::texts(out@) =~= before + all);
        return;
    }
    let chunks: Vec<String> = wrap::wrap_cell_text(bare.as_str(), left);
    let mut i: usize = 0;
    assert(before + all.take(0) =~= before);
    while i < chunks.len()
        invariant
            i <= chunks@.len(),
            chunks@.len() == all.len(),
            text::texts(chunks@) == wrap::cell_lines(bare@, left as int),
            prefix@ == name@ + ": "@,
            all == Seq::new(
                wrap::cell_lines(bare@, left as int).len(),
                |i: int| name@ + ": "@ + wrap::cell_lines(bare@, left as int)[i],
            ),
            text::texts(out@) == before + all.take(i as int),
        decreases chunks@.len() - i,
    {
        let line: String = text::cat2(prefix.as_str(), chunks[i].as_str());
        assert(text::texts(chunks@)[i as int] == chunks@[i as int]@);
        assert(line@ == all[i as int]);
        out.push(line);
        i += 1;
        assert(before + all.take(i as int) =~= (before + all.take(i - 1)).push(line@));
    }
    assert(all.take(i as int) =~= all);
}

pub fn dag_kv_block_lines(pairs: &Vec<(&str, String)>, width: usize) -> (r: Vec<String>)
    ensures
        text::texts(r@) == kv_block(pairs@, width as int),
{
    broadcast use text::group_texts;

    let w: usize = text::max_of(width, 32);
    let mut segs: Vec<String> = Vec::new();
    let mut i: usize = 0;
    while i < pairs.len()
        invariant
            i <= pairs@.len(),
            w >= 32,
            text::texts(segs@) == segments_upto(pairs@, w - 1, i as int),
        decreases pairs@.len() - i,
    {
        push_segments(&mut segs, pairs[i].0, pairs[i].1.as_str(), w - 1);
        i += 1;
    }
    let ghost all: Seq<Seq<char>> = text::texts(segs@);
    let mut out: Vec<String> = Vec::new();
    let mut j: usize = 0;
    while j < segs.len()
        invariant
            j <= segs@.len(),
            all == text::texts(segs@),
            text::texts(out@) == packed(all, w as int, j as int),
        decreases segs@.len() - j,
    {
        let seg: &str = segs[j].as_str();
        assert(seg@ == all[j as int]);
        let n: usize = out.len();
        let mut fits: bool = false;
        if n > 0 {
            assert(text::texts(out@).last() == out@[n - 1]@);
            let used: usize = text::length(out[n - 1].as_str());
            let more: usize = text::length(seg);
            fits = used <= w && w - used >= 3 && w - used - 3 >= more;
        }
        if fits {
            let ghost lines: Seq<Seq<char>> = text::texts(out@);
            let last: String = text::cat3(out[n - 1].as_str(), " | ", seg);
            out.set(n - 1, last);
            assert(text::texts(out@) =~= lines.drop_last().push(last@));
        } else {
            out.push(text::cat2(" ", seg));
        }
        j += 1;
    }
    if out.len() == 0 {
        out.push(text::copy(" "));
        assert(text::texts(out@) =~= seq![" "@]);
        return out;
    }
    assert(text::texts(out@).len() > 0);
    out
}

proof fn segments_fit(label: Seq<char>, value: Seq<char>, room: int, i: int)
    requires
        text::trimmed(label).len() + 2 < room,
        0 <= i < segments(label, value, room).len(),
    ensures
        segments(label, value, room)[i].len() <= room,
{
    reveal_strlit(": ");
    reveal_strlit(":");
    let name: Seq<char> = text::trimmed(label);
    let bare: Seq<char> = text::trimmed(value);
    let left: int = text::monus(room, (name + ": "@).len() as int);
    if (name + ": "@ + bare).len() > room {
        wrap::cell_lines_fit(bare, left, i);
    }
}

proof fn all_segments_fit(pairs: Seq<(&str, String)>, room: int, n: int, i: int)
    requires
        0 <= n <= pairs.len(),
        forall|k: int| 0 <= k < n ==> text::trimmed((#[trigger] pairs[k]).0@).len() + 2 < room,
        0 <= i < segments_upto(pairs, room, n).len(),
    ensures
        segments_upto(pairs, room, n)[i].len() <= room,
    decreases n,
{
    if n > 0 {
        let before: Seq<Seq<char>> = segments_upto(pairs, room, n - 1);
        if i < before.len() {
            all_segments_fit(pairs, room, n - 1, i);
        } else {
            assert(text::trimmed(pairs[n - 1].0@).len() + 2 < room);
            segments_fit(pairs[n - 1].0@, pairs[n - 1].1@, room, i - before.len());
        }
    }
}

proof fn packed_fit(segs: Seq<Seq<char>>, width: int, n: int, i: int)
    requires
        0 <= n <= segs.len(),
        forall|k: int| 0 <= k < n ==> (#[trigger] segs[k]).len() < width,
        0 <= i < packed(segs, width, n).len(),
    ensures
        packed(segs, width, n)[i].len() <= width,
    decreases n,
{
    if n > 0 {
        reveal_strlit(" | ");
        reveal_strlit(" ");
        let lines: Seq<Seq<char>> = packed(segs, width, n - 1);
        assert(segs[n - 1].len() < width);
        if i < lines.len() - 1 || (i == lines.len() - 1 && packed(segs, width, n).len()
            > lines.len()) {
            packed_fit(segs, width, n - 1, i);
        }
    }
}

/// A block of short labels fits into the width that it is laid out for.
pub proof fn kv_block_fits(pairs: Seq<(&str, String)>, width: int, i: int)
    requires
        forall|k: int|
            0 <= k < pairs.len() ==> text::trimmed((#[trigger] pairs[k]).0@).len() + 3
                < text::max_int(width, 32),
        0 <= i < kv_block(pairs, width).len(),
    ensures
        kv_block(pairs, width)[i].len() <= text::max_int(width, 32),
{
    let w: int = text::max_int(width, 32);
    let segs: Seq<Seq<char>> = segments_upto(pairs, w - 1, pairs.len() as int);
    reveal_strlit(" ");
    assert forall|k: int| 0 <= k < segs.len() implies (#[trigger] segs[k]).len() < w by {
        all_segments_fit(pairs, w - 1, pairs.len() as int, k);
    }
    if packed(segs, w, segs.len() as int).len() > 0 {
        packed_fit(segs, w, segs.len() as int, i);
    }
}

/// Rows of three cells that show `chunks` in the third, each behind `prefix`. The first two cells
/// and the marker of the first row may differ from those of the others.
pub open spec fn chunk_rows(
    w: Seq<usize>,
    markers: (Seq<char>, Seq<char>),
    name: Seq<char>,
    states: (Seq<char>, Seq<char>),
    prefix: Seq<char>,
    chunks: Seq<Seq<char>>,
) -> Seq<Seq<char>> {
    Seq::new(
        chunks.len(),
        |i: int|
            table_cells::row(
                if i == 0 {
                    markers.0
                } else {
                    markers.1
                },
                w,
                seq![
                    if i == 0 {
                        name
                    } else {
                        ""@
                    },
                    if i == 0 {
                        states.0
                    } else {
                        states.1
                    },
                    prefix + chunks[i],
                ],
            ),
    )
}

fn push_chunk_rows(
    out: &mut Vec<String>,
    w: &Vec<usize>,
    markers: (&str, &str),
    name: &str,
    states: (&str, &str),
    prefix: &str,
    chunks: &Vec<String>,
)
    requires
        w@.len() == 3,
    ensures
        text::texts(final(out)@) == text::texts(old(out)@) + chunk_rows(
            w@,
            (markers.0@, markers.1@),
            name@,
            (states.0@, states.1@),
            prefix@,
            text::texts(chunks@),
        ),
{
    broadcast use text::group_texts;

    let ghost before: Seq<Seq<char>> = text::texts(out@);
    let ghost all: Seq<Seq<char>> = chunk_rows(
        w@,
        (markers.0@, markers.1@),
        name@,
        (states.0@, states.1@),
        prefix@,
        text::texts(chunks@),
    );
    let mut i: usize = 0;
    assert(before + all.take(0) =~= before);
    while i < chunks.len()
        invariant
            i <= chunks@.len(),
            w@.len() == 3,
            chunks@.len() == all.len(),
            all == chunk_rows(
                w@,
                (markers.0@, markers.1@),
                name@,
                (states.0@, states.1@),
                prefix@,
                text::texts(chunks@),
            ),
            text::texts(out@) == before + all.take(i as int),
        decreases chunks@.len() - i,
    {
        let last: String = text::cat2(prefix, chunks[i].as_str());
        let first: bool = i == 0;
        let cells: Vec<&str> = vec![
            if first {
                name
            } else {
                ""
            },
            if first {
                states.0
            } else {
                states.1
            },
            last.as_str(),
        ];
        let line: String = table_cells::row_of(
            if first {
                markers.0
            } else {
                markers.1
            },
            w,
            &cells,
        );
        proof {
            assert(text::texts(chunks@)[i as int] == chunks@[i as int]@);
            assert(table_cells::strs(cells@) =~= seq![
                if i == 0 {
                    name@
                } else {
                    ""@
                },
                if i == 0 {
                    states.0@
                } else {
                    states.1@
                },
                prefix@ + text::texts(chunks@)[i as int],
            ]);
            assert(line@ == all[i as int]);
        }
        out.push(line);
        i += 1;
        assert(before + all.take(i as int) =~= (before + all.take(i - 1)).push(line@));
    }
    assert(all.take(i as int) =~= all);
}

/// How the swarm is doing, in one word.
pub open spec fn status_word(d: SwarmDashboardView) -> Seq<char> {
    let total: int = d.tasks@.len() as int;
    if d.phase@ == "PLAN"@ {
        "PLAN"@
    } else if d.phase@ == "VERIFY"@ {
        "VERIFY"@
    } else if d.phase@ == "SYNTH"@ {
        "SYNTH"@
    } else if total == 0 {
        "EMPTY"@
    } else if d.failed > 0 {
        "FAILED"@
    } else if d.running > 0 {
        "RUNNING"@
    } else if d.queued > 0 {
        "QUEUED"@
    } else if d.pending > 0 {
        "PENDING"@
    } else if d.done + d.skipped == total {
        "DONE"@
    } else {
        "IDLE"@
    }
}

fn status_of(d: &SwarmDashboardView) -> (r: &'static str)
    ensures
        r@ == status_word(*d),
{
    let total: usize = d.tasks.len();
    let phase: &str = d.phase.as_str();
    if text::str_eq(phase, "PLAN") {
        "PLAN"
    } else if text::str_eq(phase, "VERIFY") {
        "VERIFY"
    } else if text::str_eq(phase, "SYNTH") {
        "SYNTH"
    } else if total == 0 {
        "EMPTY"
    } else if d.failed > 0 {
        "FAILED"
    } else if d.running > 0 {
        "RUNNING"
    } else if d.queued > 0 {
        "QUEUED"
    } else if d.pending > 0 {
        "PENDING"
    } else if d.done <= total && total - d.done == d.skipped {
        "DONE"
    } else {
        "IDLE"
    }
}

/// The labels and values of the first two blocks hold these texts.
pub open spec fn pairs_hold(
    pairs: Seq<(&str, String)>,
    labels: Seq<Seq<char>>,
    values: Seq<Seq<char>>,
) -> bool {
    &&& pairs.len() == labels.len()
    &&& pairs.len() == values.len()
    &&& forall|i: int|
        #![trigger pairs[i]]
        0 <= i < pairs.len() ==> pairs[i].0@ == labels[i] && pairs[i].1@ == values[i]
}

/// The lines of a block, by the texts of its labels and values.
pub open spec fn block(
    labels: Seq<Seq<char>>,
    values: Seq<Seq<char>>,
    width: int,
) -> Seq<Seq<char>> {
    let w: int = text::max_int(width, 32);
    let segs: Seq<Seq<char>> = block_segments(labels, values, w - 1, labels.len() as int);
    let lines: Seq<Seq<char>> = packed(segs, w, segs.len() as int);
    if lines.len() == 0 {
        seq![" "@]
    } else {
        lines
    }
}

pub open spec fn block_segments(
    labels: Seq<Seq<char>>,
    values: Seq<Seq<char>>,
    room: int,
    n: int,
) -> Seq<Seq<char>>
    decreases n,
{
    if n <= 0 {
        Seq::empty()
    } else {
        block_segments(labels, values, room, n - 1) + segments(labels[n - 1], values[n - 1], room)
    }
}

proof fn same_block(
    pairs: Seq<(&str, String)>,
    labels: Seq<Seq<char>>,
    values: Seq<Seq<char>>,
    width: int,
)
    requires
        pairs_hold(pairs, labels, values),
    ensures
        kv_block(pairs, width) == block(labels, values, width),
{
    same_segments(pairs, labels, values, text::max_int(width, 32) - 1, pairs.len() as int);
}

proof fn same_segments(
    pairs: Seq<(&str, String)>,
    labels: Seq<Seq<char>>,
    values: Seq<Seq<char>>,
    room: int,
    n: int,
)
    requires
        pairs_hold(pairs, labels, values),
        n <= pairs.len(),
    ensures
        segments_upto(pairs, room, n) == block_segments(labels, values, room, n),
    decreases n,
{
    if n > 0 {
        same_segments(pairs, labels, values, room, n - 1);
        assert(pairs[n - 1].0@ == labels[n - 1]);
    }
}

/// Adds a block of labels and values.
pub fn push_block(out: &mut Vec<String>, labels: &Vec<&str>, values: &Vec<String>, width: usize)
    requires
        labels@.len() == values@.len(),
    ensures
        text::texts(final(out)@) == text::texts(old(out)@) + block(
            table_cells::strs(labels@),
            text::texts(values@),
            width as int,
        ),
{
    broadcast use text::group_texts;

    let mut pairs: Vec<(&str, String)> = Vec::new();
    let mut i: usize = 0;
    while i < labels.len()
        invariant
            i <= labels@.len(),
            labels@.len() == values@.len(),
            pairs@.len() == i,
            forall|k: int|
                #![trigger pairs@[k]]
                0 <= k < i ==> pairs@[k].0@ == labels@[k]@ && pairs@[k].1@ == values@[k]@,
        decreases labels@.len() - i,
    {
        pairs.push((labels[i], values[i].clone()));
        i += 1;
    }
    let mut lines: Vec<String> = dag_kv_block_lines(&pairs, width);
    proof {
        same_block(
            pairs@,
            table_cells::strs(labels@),
            text::texts(values@),
            width as int,
        );
    }
    out.append(&mut lines);
}

/// The lines above the tasks.
pub open spec fn head_lines(d: SwarmDashboardView, width: int) -> Seq<Seq<char>> {
    let start: Seq<Seq<char>> = seq![" DAG"@, roster_lines::rule(width)] + block(
        seq!["Status"@, "Mission"@, "Template"@, "Phase"@],
        seq![status_word(d), d.mission_id@, d.template@, d.phase@],
        width,
    ) + block(
        seq!["Done"@, "Fail"@, "Run"@, "Queue"@, "Pending"@, "Skip"@],
        seq![
            text::decimal(d.done as nat) + "/"@ + text::decimal(d.tasks@.len()),
            text::decimal(d.failed as nat),
            text::decimal(d.running as nat),
            text::decimal(d.queued as nat),
            text::decimal(d.pending as nat),
            text::decimal(d.skipped as nat),
        ],
        width,
    );
    let gated: Seq<Seq<char>> = match d.gate_bundle {
        Some(b) => start + block(seq!["Gate"@], seq![b@], width),
        None => start,
    };
    gated.push(
        table_cells::row(
            " "@,
            task_widths(text::monus(width, 1)),
            seq!["ID"@, "STATE"@, "TITLE"@],
        ),
    ).push(roster_lines::rule(width))
}

fn head(d: &SwarmDashboardView, width: usize, w: &Vec<usize>) -> (out: Vec<String>)
    requires
        w@ == task_widths(text::monus(width as int, 1)),
        w@.len() == 3,
    ensures
        text::texts(out@) == head_lines(*d, width as int),
{
    broadcast use text::group_texts;

    let mut out: Vec<String> = vec![text::copy(" DAG"), roster_lines::rule_line(width)];
    assert(text::texts(out@) =~= seq![" DAG"@, roster_lines::rule(width as int)]);
    let first: Vec<(&str, String)> = vec![
        ("Status", text::copy(status_of(d))),
        ("Mission", d.mission_id.clone()),
        ("Template", d.template.clone()),
        ("Phase", d.phase.clone()),
    ];
    let mut block1: Vec<String> = dag_kv_block_lines(&first, width);
    proof {
        same_block(
            first@,
            seq!["Status"@, "Mission"@, "Template"@, "Phase"@],
            seq![status_word(*d), d.mission_id@, d.template@, d.phase@],
            width as int,
        );
    }
    out.append(&mut block1);
    let done: String = text::decimal_usize(d.done);
    let total: String = text::decimal_usize(d.tasks.len());
    let second: Vec<(&str, String)> = vec![
        ("Done", text::cat3(done.as_str(), "/", total.as_str())),
        ("Fail", text::decimal_usize(d.failed)),
        ("Run", text::decimal_usize(d.running)),
        ("Queue", text::decimal_usize(d.queued)),
        ("Pending", text::decimal_usize(d.pending)),
        ("Skip", text::decimal_usize(d.skipped)),
    ];
    let mut block2: Vec<String> = dag_kv_block_lines(&second, width);
    proof {
        same_block(
            second@,
            seq!["Done"@, "Fail"@, "Run"@, "Queue"@, "Pending"@, "Skip"@],
            seq![
                text::decimal(d.done as nat) + "/"@ + text::decimal(d.tasks@.len()),
                text::decimal(d.failed as nat),
                text::decimal(d.running as nat),
                text::decimal(d.queued as nat),
                text::decimal(d.pending as nat),
                text::decimal(d.skipped as nat),
            ],
            width as int,
        );
    }
    out.append(&mut block2);
    if let Some(b) = &d.gate_bundle {
        let third: Vec<(&str, String)> = vec![("Gate", b.clone())];
        let mut block3: Vec<String> = dag_kv_block_lines(&third, width);
        proof {
            same_block(third@, seq!["Gate"@], seq![b@], width as int);
        }
        out.append(&mut block3);
    }
    let titles: Vec<&str> = vec!["ID", "STATE", "TITLE"];
    assert(table_cells::strs(titles@) =~= seq!["ID"@, "STATE"@, "TITLE"@]);
    out.push(table_cells::row_of(" ", w, &titles));
    out.push(roster_lines::rule_line(width));
    out
}

/// Names side by side, or a dash where there are none.
pub open spec fn names_or_dash(v: Seq<String>) -> Seq<char> {
    if v.len() == 0 {
        "-"@
    } else {
        text::joined(text::texts(v), ","@)
    }
}

fn join_or_dash(v: &Vec<String>) -> (r: String)
    ensures
        r@ == names_or_dash(v@),
{
    if v.len() == 0 {
        text::copy("-")
    } else {
        text::join(v, ",")
    }
}

/// A text without the spaces around it, or a dash where nothing is left.
pub open spec fn text_or_dash(s: Option<Seq<char>>) -> Seq<char> {
    match s {
        Some(t) => if text::trimmed(t).len() > 0 {
            text::trimmed(t)
        } else {
            "-"@
        },
        None => "-"@,
    }
}

fn trim_or_dash(s: &Option<String>) -> (r: String)
    ensures
        r@ == text_or_dash(text::opt_text(*s)),
{
    match s {
        Some(t) => {
            let bare: String = text::trim(t.as_str());
            if text::length(bare.as_str()) > 0 {
                bare
            } else {
                text::copy("-")
            }
        },
        None => text::copy("-"),
    }
}

pub open spec fn yes_no(b: bool) -> Seq<char> {
    if b {
        "yes"@
    } else {
        "no"@
    }
}

pub fn yes_or_no(b: bool) -> (r: &'static str)
    ensures
        r@ == yes_no(b),
{
    if b {
        "yes"
    } else {
        "no"
    }
}

/// Who works on a task.
pub open spec fn who_details(names: Seq<Entry<String>>, task: SwarmDashboardTask) -> Seq<char> {
    "agent: "@ + task.agent_id@ + "  role: "@ + (match task.role {
        Some(r) => clone_labels::role_label(names, r@),
        None => "-"@,
    })
}

/// What a task waits for and what it gives.
pub open spec fn task_details(task: SwarmDashboardTask) -> Seq<char> {
    "deps: "@ + names_or_dash(task.deps@) + "  block: "@ + names_or_dash(task.blocked_on@)
        + "  writes: "@ + yes_no(task.writes) + "  out: "@ + yes_no(task.output_present)
        + "  done_when: "@ + text_or_dash(text::opt_text(task.done_when))
}

fn details_of(task: &SwarmDashboardTask) -> (r: String)
    ensures
        r@ == task_details(*task),
{
    let mut out: String = text::copy("deps: ");
    out.push_str(join_or_dash(&task.deps).as_str());
    out.push_str("  block: ");
    out.push_str(join_or_dash(&task.blocked_on).as_str());
    out.push_str("  writes: ");
    out.push_str(yes_or_no(task.writes));
    out.push_str("  out: ");
    out.push_str(yes_or_no(task.output_present));
    out.push_str("  done_when: ");
    out.push_str(trim_or_dash(&task.done_when).as_str());
    out
}

/// The lines of a task: its title, who works on it and what it waits for.
pub open spec fn task_lines(
    names: Seq<Entry<String>>,
    task: SwarmDashboardTask,
    w: Seq<usize>,
    arrow: char,
) -> Seq<Seq<char>> {
    let inner: int = text::monus(w[2] as int, 2);
    let lead: Seq<char> = seq![arrow] + " "@;
    chunk_rows(
        w,
        (lead, "  "@),
        task.id@,
        (task.state@, ""@),
        ""@,
        wrap::cell_lines(task.title@, w[2] as int),
    ) + chunk_rows(
        w,
        (" "@, " "@),
        ""@,
        (""@, ""@),
        lead,
        wrap::cell_lines(who_details(names, task), inner),
    ) + chunk_rows(
        w,
        (" "@, " "@),
        ""@,
        (""@, ""@),
        lead,
        wrap::cell_lines(task_details(task), inner),
    )
}

pub open spec fn tasks_lines(
    names: Seq<Entry<String>>,
    tasks: Seq<SwarmDashboardTask>,
    w: Seq<usize>,
    arrow: char,
    n: int,
) -> Seq<Seq<char>>
    decreases n,
{
    if n <= 0 {
        Seq::empty()
    } else {
        tasks_lines(names, tasks, w, arrow, n - 1) + task_lines(names, tasks[n - 1], w, arrow)
    }
}

fn push_task(
    out: &mut Vec<String>,
    names: &Vec<Entry<String>>,
    task: &SwarmDashboardTask,
    w: &Vec<usize>,
    arrow: char,
)
    requires
        w@.len() == 3,
    ensures
        text::texts(final(out)@) == text::texts(old(out)@) + task_lines(
            names@,
            *task,
            w@,
            arrow,
        ),
{
    let ghost before: Seq<Seq<char>> = text::texts(out@);
    let inner: usize = text::minus(w[2], 2);
    let lead: String = text::cat2(glyphs::one(arrow).as_str(), " ");
    let title: Vec<String> = wrap::wrap_cell_text(task.title.as_str(), w[2]);
    push_chunk_rows(
        out,
        w,
        (lead.as_str(), "  "),
        task.id.as_str(),
        (task.state.as_str(), ""),
        "",
        &title,
    );
    let role: String = match &task.role {
        Some(r) => clone_labels::table_role_label(names, r.as_str()),
        None => text::copy("-"),
    };
    let who: String = text::cat4("agent: ", task.agent_id.as_str(), "  role: ", role.as_str());
    let who_chunks: Vec<String> = wrap::wrap_cell_text(who.as_str(), inner);
    push_chunk_rows(out, w, (" ", " "), "", ("", ""), lead.as_str(), &who_chunks);
    let details: String = details_of(task);
    let detail_chunks: Vec<String> = wrap::wrap_cell_text(details.as_str(), inner);
    push_chunk_rows(out, w, (" ", " "), "", ("", ""), lead.as_str(), &detail_chunks);
    assert(text::texts(out@) =~= before + task_lines(names@, *task, w@, arrow));
}

/// A command over several lines, each but the last with a backslash behind it.
pub open spec fn command_chunks(command: Seq<char>, width: int) -> Seq<Seq<char>> {
    let chunks: Seq<Seq<char>> = wrap::cell_lines(
        command,
        if width > 2 {
            width - 2
        } else {
            width
        },
    );
    Seq::new(
        chunks.len(),
        |i: int|
            if i + 1 < chunks.len() {
                chunks[i] + (if width > 2 {
                    " \\"@
                } else {
                    "\\"@
                })
            } else {
                chunks[i]
            },
    )
}

fn chunks_of_command(command: &str, width: usize) -> (r: Vec<String>)
    ensures
        text::texts(r@) == command_chunks(command@, width as int),
{
    broadcast use text::group_texts;

    let room: usize = if width > 2 {
        width - 2
    } else {
        width
    };
    let chunks: Vec<String> = wrap::wrap_cell_text(command, room);
    let ghost all: Seq<Seq<char>> = command_chunks(command@, width as int);
    let mut out: Vec<String> = Vec::new();
    let mut i: usize = 0;
    assert(text::texts(out@) =~= all.take(0));
    while i < chunks.len()
        invariant
            i <= chunks@.len(),
            chunks@.len() == all.len(),
            room == (if width > 2 {
                width - 2
            } else {
                width as int
            }),
            text::texts(chunks@) == wrap::cell_lines(command@, room as int),
            all == command_chunks(command@, width as int),
            text::texts(out@) == all.take(i as int),
        decreases chunks@.len() - i,
    {
        assert(text::texts(chunks@)[i as int] == chunks@[i as int]@);
        let line: String = if chunks.len() - i > 1 {
            text::cat2(
                chunks[i].as_str(),
                if width > 2 {
                    " \\"
                } else {
                    "\\"
                },
            )
        } else {
            chunks[i].clone()
        };
        assert(line@ == all[i as int]);
        out.push(line);
        i += 1;
        assert(all.take(i as int) =~= all.take(i - 1).push(line@));
    }
    assert(all.take(i as int) =~= all);
    out
}

/// The lines of a gate: its command, and its notes where it has some.
pub open spec fn gate_lines(gate: SwarmDashboardGate, w: Seq<usize>, arrow: char) -> Seq<
    Seq<char>,
> {
    let command: Seq<Seq<char>> = chunk_rows(
        w,
        (" "@, " "@),
        gate.name@,
        (gate.status@, gate.status@),
        ""@,
        command_chunks(gate.command@, w[2] as int),
    );
    let notes: Seq<char> = match gate.notes {
        Some(s) => text::trimmed(s@),
        None => Seq::empty(),
    };
    if notes.len() == 0 {
        command
    } else {
        command + chunk_rows(
            w,
            (" "@, " "@),
            ""@,
            (gate.status@, gate.status@),
            seq![arrow] + " "@,
            wrap::cell_lines(notes, text::monus(w[2] as int, 2)),
        )
    }
}

pub open spec fn gates_lines(
    gates: Seq<SwarmDashboardGate>,
    w: Seq<usize>,
    arrow: char,
    n: int,
) -> Seq<Seq<char>>
    decreases n,
{
    if n <= 0 {
        Seq::empty()
    } else {
        gates_lines(gates, w, arrow, n - 1) + gate_lines(gates[n - 1], w, arrow)
    }
}

fn push_gate(out: &mut Vec<String>, gate: &SwarmDashboardGate, w: &Vec<usize>, arrow: char)
    requires
        w@.len() == 3,
    ensures
        text::texts(final(out)@) == text::texts(old(out)@) + gate_lines(*gate, w@, arrow),
{
    let ghost before: Seq<Seq<char>> = text::texts(out@);
    let status: &str = gate.status.as_str();
    let chunks: Vec<String> = chunks_of_command(gate.command.as_str(), w[2]);
    push_chunk_rows(out, w, (" ", " "), gate.name.as_str(), (status, status), "", &chunks);
    let notes: String = match &gate.notes {
        Some(s) => text::trim(s.as_str()),
        None => String::new(),
    };
    if text::length(notes.as_str()) > 0 {
        let lead: String = text::cat2(glyphs::one(arrow).as_str(), " ");
        let lines: Vec<String> = wrap::wrap_cell_text(notes.as_str(), text::minus(w[2], 2));
        push_chunk_rows(out, w, (" ", " "), "", (status, status), lead.as_str(), &lines);
    }
    assert(text::texts(out@) =~= before + gate_lines(*gate, w@, arrow));
}

/// The lines of a swarm's dashboard.
pub open spec fn dashboard_lines(
    names: Seq<Entry<String>>,
    d: SwarmDashboardView,
    given: int,
    arrow: char,
) -> Seq<Seq<char>> {
    let width: int = text::max_int(given, 32);
    let w: Seq<usize> = task_widths(width - 1);
    let g: Seq<usize> = gate_widths(width - 1);
    let tasks: Seq<Seq<char>> = head_lines(d, width) + (if d.tasks@.len() == 0 {
        seq![
            table_cells::row(
                " "@,
                w,
                seq![
                    ""@,
                    ""@,
                    if d.phase@ == "PLAN"@ {
                        "Planning: waiting for planner output"@
                    } else {
                        "No tasks."@
                    },
                ],
            ),
        ]
    } else {
        tasks_lines(names, d.tasks@, w, arrow, d.tasks@.len() as int)
    });
    if d.gates@.len() == 0 {
        tasks
    } else {
        tasks.push(roster_lines::rule(width)).push(
            table_cells::row(" "@, g, seq!["GATE"@, "STATUS"@, "COMMAND"@]),
        ) + gates_lines(d.gates@, g, arrow, d.gates@.len() as int)
    }
}

pub fn dag_lines_for_dashboard(
    names: &Vec<Entry<String>>,
    d: &SwarmDashboardView,
    given: usize,
    arrow: char,
) -> (r: Vec<String>)
    ensures
        text::texts(r@) == dashboard_lines(names@, *d, given as int, arrow),
{
    broadcast use text::group_texts;

    let width: usize = text::max_of(given, 32);
    let w: Vec<usize> = dag_task_widths(width - 1);
    let mut out: Vec<String> = head(d, width, &w);
    let ghost start: Seq<Seq<char>> = head_lines(*d, width as int);
    if d.tasks.len() == 0 {
        let note: &str = if text::str_eq(d.phase.as_str(), "PLAN") {
            "Planning: waiting for planner output"
        } else {
            "No tasks."
        };
        let cells: Vec<&str> = vec!["", "", note];
        assert(table_cells::strs(cells@) =~= seq![""@, ""@, note@]);
        let line: String = table_cells::row_of(" ", &w, &cells);
        out.push(line);
        assert(start.push(line@) =~= start + seq![line@]);
    } else {
        let mut i: usize = 0;
        assert(start + tasks_lines(names@, d.tasks@, w@, arrow, 0) =~= start);
        while i < d.tasks.len()
            invariant
                i <= d.tasks@.len(),
                w@.len() == 3,
                text::texts(out@) == start + tasks_lines(
                    names@,
                    d.tasks@,
                    w@,
                    arrow,
                    i as int,
                ),
            decreases d.tasks@.len() - i,
        {
            push_task(&mut out, names, &d.tasks[i], &w, arrow);
            proof {
                let done: Seq<Seq<char>> = tasks_lines(names@, d.tasks@, w@, arrow, i as int);
                let next: Seq<Seq<char>> = task_lines(names@, d.tasks@[i as int], w@, arrow);
                assert(start + done + next =~= start + (done + next));
            }
            i += 1;
        }
    }
    if d.gates.len() > 0 {
        let ghost tasks: Seq<Seq<char>> = text::texts(out@);
        let g: Vec<usize> = dag_gate_widths(width - 1);
        let titles: Vec<&str> = vec!["GATE", "STATUS", "COMMAND"];
        assert(table_cells::strs(titles@) =~= seq!["GATE"@, "STATUS"@, "COMMAND"@]);
        out.push(roster_lines::rule_line(width));
        out.push(table_cells::row_of(" ", &g, &titles));
        let ghost top: Seq<Seq<char>> = text::texts(out@);
        let mut i: usize = 0;
        assert(top + gates_lines(d.gates@, g@, arrow, 0) =~= top);
        while i < d.gates.len()
            invariant
                i <= d.gates@.len(),
                g@.len() == 3,
                text::texts(out@) == top + gates_lines(d.gates@, g@, arrow, i as int),
            decreases d.gates@.len() - i,
        {
            push_gate(&mut out, &d.gates[i], &g, arrow);
            proof {
                let done: Seq<Seq<char>> = gates_lines(d.gates@, g@, arrow, i as int);
                let next: Seq<Seq<char>> = gate_lines(d.gates@[i as int], g@, arrow);
                assert(top + done + next =~= top + (done + next));
            }
            i += 1;
        }
    }
    out
}

/// What keeps the tasks from being shown.
pub open spec fn notice(st: AppState, swarm: Option<&SwarmRuntime>) -> Option<Seq<char>> {
    match st.agents.context_mission {
        None => Some(" No mission selected."@),
        Some(id) => {
            let plain: bool = match state::mission_named(st.agents.missions@, id@) {
                Some(k) => !st.agents.missions@[k].swarm,
                None => false,
            };
            if plain {
                Some(" Mission "@ + id@ + " is not a swarm."@)
            } else {
                match swarm {
                    None => Some(" Swarm runtime unavailable."@),
                    Some(s) => if state::value_of(s.dashboards@, id@) is None {
                        Some(" No DAG data for this mission yet."@)
                    } else {
                        None
                    },
                }
            }
        },
    }
}

/// All lines of the tab.
pub open spec fn all_lines(st: AppState, swarm: Option<&SwarmRuntime>, given: int) -> Seq<
    Seq<char>,
> {
    match notice(st, swarm) {
        Some(s) => seq![" DAG"@, roster_lines::rule(text::max_int(given, 32)), s],
        None => dashboard_lines(
            st.agents.role_names@,
            state::value_of(swarm->0.dashboards@, st.agents.context_mission->0@)->0,
            text::max_int(given, 32),
            glyphs::arrow_glyph(st.ascii_fallback),
        ),
    }
}

fn noticed(s: String, width: usize) -> (r: Vec<String>)
    ensures
        text::texts(r@) == seq![" DAG"@, roster_lines::rule(width as int), s@],
{
    let r: Vec<String> = vec![text::copy(" DAG"), roster_lines::rule_line(width), s];
    assert(text::texts(r@) =~= seq![" DAG"@, roster_lines::rule(width as int), s@]);
    r
}

pub fn dag_lines(st: &AppState, swarm: Option<&SwarmRuntime>, given: usize) -> (r: Vec<String>)
    ensures
        text::texts(r@) == all_lines(*st, swarm, given as int),
{
    let width: usize = text::max_of(given, 32);
    let id: &str = match &st.agents.context_mission {
        Some(id) => id.as_str(),
        None => {
            return noticed(text::copy(" No mission selected."), width);
        },
    };
    if let Some(k) = state::find_mission(&st.agents.missions, id) {
        if !st.agents.missions[k].swarm {
            return noticed(text::cat3(" Mission ", id, " is not a swarm."), width);
        }
    }
    match swarm {
        None => noticed(text::copy(" Swarm runtime unavailable."), width),
        Some(s) => match state::lookup(&s.dashboards, id) {
            None => noticed(text::copy(" No DAG data for this mission yet."), width),
            Some(d) => dag_lines_for_dashboard(
                &st.agents.role_names,
                d,
                width,
                glyphs::arrow_glyph(st.ascii_fallback),
            ),
        },
    }
}

} // verus!
