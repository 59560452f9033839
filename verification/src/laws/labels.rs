//! What agents, paths and claims are called.

use vstd::prelude::*;

use crate::assumptions_view;
use crate::assumptions_view::ActiveAssumption;
use crate::bottom_bar;
use crate::bottom_bar::BarState;
use crate::bottom_bar::SystemStats;
use crate::claims_view;
use crate::claims_view::ActiveClaim;
use crate::claims_view::ClaimKind;
use crate::clone_labels;
use crate::laws::texts;
use crate::paths;
use crate::state::Entry;
use crate::state::SwarmDashboardView;
use crate::style::Theme;
use crate::text;

verus! {

/// Whether a text has none of a character.
pub open spec fn lacks(s: Seq<char>, c: char) -> bool {
    forall|i: int| 0 <= i < s.len() ==> #[trigger] s[i] != c
}

/// Whether a text has something in it and no white character at its ends.
pub open spec fn bare(s: Seq<char>) -> bool {
    s.len() > 0 && !text::white(s[0]) && !text::white(s[s.len() - 1])
}

/// The identity of a copy of an agent that works for a mission.
pub open spec fn copy_id(
    base: Seq<char>,
    kind: Seq<char>,
    number: Seq<char>,
    suffix: Seq<char>,
) -> Seq<char> {
    base + "#swarm-"@ + (kind + seq!['-'] + (number + seq!['-'] + suffix))
}

proof fn dashes_of_a_mission(kind: Seq<char>, number: Seq<char>, suffix: Seq<char>)
    requires
        lacks(kind, '-'),
        lacks(number, '-'),
    ensures
        clone_labels::second_dash(kind + seq!['-'] + (number + seq!['-'] + suffix)) == Some(
            (kind.len() + 1 + number.len()) as int,
        ),
{
    let rest: Seq<char> = number + seq!['-'] + suffix;
    let s: Seq<char> = kind + seq!['-'] + rest;
    texts::characters_are_found_first(kind, '-', rest);
    assert(text::tail(s, kind.len() + 1int) =~= rest);
    texts::characters_are_found_first(number, '-', suffix);
}

proof fn swarm_mark()
    ensures
        "#swarm-"@.len() == 7,
        "#swarm-"@[0] == '#',
        "#"@ == seq!['#'],
        "-"@ == seq!['-'],
{
    reveal_strlit("#swarm-");
    reveal_strlit("#");
    reveal_strlit("-");
    assert("#"@ =~= seq!['#']);
    assert("-"@ =~= seq!['-']);
}

/// A copy of an agent is called after the agent and after what follows its mission; which mission
/// it is for is left out.
pub proof fn copies_are_called_after_their_agent(
    base: Seq<char>,
    kind: Seq<char>,
    number: Seq<char>,
    suffix: Seq<char>,
)
    requires
        lacks(base, '#'),
        bare(base),
        bare(kind),
        lacks(kind, '-'),
        lacks(number, '-'),
        bare(number),
        bare(suffix),
        suffix[0] != '-',
    ensures
        ({
            let id: Seq<char> = copy_id(base, kind, number, suffix);
            &&& clone_labels::source_label(id) == Some(base + seq!['#'] + suffix)
            &&& clone_labels::compact_id(id, "#swarm-"@) == base + seq!['#'] + suffix
            &&& clone_labels::clone_parts(id) == Some((kind + seq!['-'] + number, suffix))
            &&& claims_view::short_id(id) == base + seq!['#'] + suffix
            &&& lacks(suffix, '-') ==> clone_labels::chat_label(id) == Some(suffix)
        }),
{
    swarm_mark();
    let rest: Seq<char> = number + seq!['-'] + suffix;
    let tail: Seq<char> = kind + seq!['-'] + rest;
    let id: Seq<char> = copy_id(base, kind, number, suffix);
    texts::texts_part_at_their_mark(base, "#swarm-"@, tail);
    dashes_of_a_mission(kind, number, suffix);
    assert(tail[0] == kind[0]);
    assert(tail[tail.len() - 1] == suffix[suffix.len() - 1]);
    texts::nothing_else_is_trimmed(tail);
    texts::nothing_else_is_trimmed(base);
    texts::nothing_else_is_trimmed(suffix);
    let dash: int = (kind.len() + 1 + number.len()) as int;
    assert(text::head(tail, dash) =~= kind + seq!['-'] + number);
    let mission: Seq<char> = kind + seq!['-'] + number;
    assert(mission[0] == kind[0]);
    assert(mission[mission.len() - 1] == number[number.len() - 1]);
    texts::nothing_else_is_trimmed(mission);
    let behind: Seq<char> = text::tail(tail, dash);
    assert(behind =~= seq!['-'] + suffix);
    assert(behind.subrange(1, behind.len() as int) =~= suffix);
    assert(text::without_leading(suffix, '-') == suffix);
    assert(text::without_leading(behind, '-') == suffix);
    assert(text::tail(tail, dash + 1) =~= suffix);
    texts::texts_part_at_their_mark(kind, "-"@, rest);
    texts::texts_part_at_their_mark(number, "-"@, suffix);
    if lacks(suffix, '-') {
        texts::texts_without_the_character_are_one_part(suffix, '-');
        reveal_with_fuel(text::trimmed_parts, 2);
        reveal_with_fuel(text::joined, 2);
        assert(text::trimmed_parts(seq![suffix], 1) =~= seq![suffix]);
        assert(text::joined(seq![suffix], " "@) =~= suffix);
    }
}

/// An agent that is no copy keeps its name.
pub proof fn other_agents_keep_their_name(id: Seq<char>)
    requires
        lacks(id, '#'),
    ensures
        clone_labels::source_label(id) is None,
        clone_labels::chat_label(id) is None,
        clone_labels::clone_parts(id) is None,
        clone_labels::compact_id(id, "#swarm-"@) == id,
        claims_view::short_id(id) == id,
{
    swarm_mark();
    texts::texts_without_the_mark_are_whole(id, "#swarm-"@);
}

/// The roles of an agent are those of its tasks, each once.
pub proof fn roles_are_told_once(
    names: Seq<Entry<String>>,
    d: SwarmDashboardView,
    agent: Seq<char>,
    n: int,
    role: Seq<char>,
)
    requires
        n <= d.tasks@.len(),
    ensures
        clone_labels::roles_upto(names, d, agent, n).no_duplicates(),
        clone_labels::roles_upto(names, d, agent, n).contains(role) <==> exists|k: int|
            0 <= k < n && d.tasks@[k].agent_id@ == agent
                && #[trigger] clone_labels::task_role(names, d, agent, k) == Some(role),
    decreases n,
{
    let all: Seq<Seq<char>> = clone_labels::roles_upto(names, d, agent, n);
    if n > 0 {
        roles_are_told_once(names, d, agent, n - 1, role);
        let before: Seq<Seq<char>> = clone_labels::roles_upto(names, d, agent, n - 1);
        let last: Option<Seq<char>> = clone_labels::task_role(names, d, agent, n - 1);
        if last is Some && !before.contains(last->0) {
            assert(all == before.push(last->0));
            if before.contains(role) {
                assert(all[before.index_of(role)] == role);
            }
            if last->0 == role {
                assert(all[before.len() as int] == role);
            }
            if all.contains(role) {
                let k: int = all.index_of(role);
                if k < before.len() {
                    assert(before[k] == role);
                }
            }
        }
    }
}

proof fn counts_before(all: Seq<ActiveClaim>, c: ActiveClaim, kind: ClaimKind, n: int)
    requires
        n <= all.len(),
    ensures
        claims_view::count_of(all.push(c), kind, n) == claims_view::count_of(all, kind, n),
    decreases n,
{
    if n > 0 {
        counts_before(all, c, kind, n - 1);
    }
}

/// One more claim counts for one of its kind, and for none of the others.
pub proof fn a_claim_counts_once(all: Seq<ActiveClaim>, c: ActiveClaim, kind: ClaimKind)
    ensures
        claims_view::count_of(all.push(c), kind, all.len() + 1int) == claims_view::count_of(
            all,
            kind,
            all.len() as int,
        ) + if c.claim.kind == kind {
            1int
        } else {
            0
        },
{
    counts_before(all, c, kind, all.len() as int);
}

/// A claim that lasts is bold and one at its end is dim; soft claims are dim whatever is left of
/// them.
pub proof fn claims_fade(kind: ClaimKind, remaining: u64, theme: Theme)
    ensures
        kind !is Soft && remaining >= 2 ==> claims_view::claim_style(kind, remaining, theme).bold
            && !claims_view::claim_style(kind, remaining, theme).dim,
        kind !is Soft && remaining == 1 ==> !claims_view::claim_style(kind, remaining, theme).bold
            && !claims_view::claim_style(kind, remaining, theme).dim,
        kind is Soft || remaining == 0 ==> claims_view::claim_style(kind, remaining, theme).dim
            && !claims_view::claim_style(kind, remaining, theme).bold,
        kind is ExclusiveWrite ==> claims_view::claim_style(kind, remaining, theme).fg == Some(
            theme.error,
        ),
        kind is SharedRead ==> claims_view::claim_style(kind, remaining, theme).fg == Some(
            theme.accent,
        ),
        kind is AppendOnly ==> claims_view::claim_style(kind, remaining, theme).fg == Some(
            theme.success,
        ),
        kind is Soft ==> claims_view::claim_style(kind, remaining, theme).fg == Some(theme.border),
        assumptions_view::assumption_style(remaining, theme).bold <==> remaining >= 2,
        assumptions_view::assumption_style(remaining, theme).dim <==> remaining == 0,
{
}

/// A claim is as old as the generations that have passed since it was posted.
pub proof fn ages_are_generations_passed(posted: u64, passed: nat)
    requires
        posted + passed <= u64::MAX,
    ensures
        claims_view::age((posted + passed) as u64, posted) == passed,
        claims_view::age(posted, (posted + passed) as u64) == 0,
{
}

/// Every assumption has its row, and every claim its row, below the same three lines.
pub proof fn every_assumption_has_its_row(
    all: Seq<ActiveAssumption>,
    generation: u64,
    theme: Theme,
    width: u16,
    i: int,
)
    requires
        0 <= i < all.len(),
    ensures
        assumptions_view::assumption_rows(all, generation, theme, width).len() == all.len() + 3,
        assumptions_view::assumption_rows(all, generation, theme, width)[i + 3]
            == assumptions_view::assumption_row(all[i], generation, width, theme),
{
}

/// The accelerator is told of games that run or have run, or for which something was computed, and
/// never of anything else.
pub proof fn the_accelerator_belongs_to_games(b: BarState)
    ensures
        b.app_kind is Gol ==> !bottom_bar::tells_accelerator(b),
        b.app_kind is Games ==> (bottom_bar::tells_accelerator(b) <==> b.games_running || b.games_ran
            || b.runtime.metal_matches != 0 || b.runtime.cpu_matches != 0
            || b.runtime.metal_fallbacks != 0),
{
}

/// The bar tells the line and the column of the caret, and a load that never exceeds a hundred.
pub proof fn the_bar_tells_the_caret(b: BarState, stats: SystemStats, theme: Theme)
    ensures
        bottom_bar::metrics(b, stats, theme).len() >= 10,
        bottom_bar::metrics(b, stats, theme)[0].text == "Ln "@,
        bottom_bar::metrics(b, stats, theme)[1].text == text::decimal(b.line as nat) + ", "@,
        bottom_bar::metrics(b, stats, theme)[2].text == "Col "@,
        bottom_bar::metrics(b, stats, theme)[3].text == text::decimal(b.col as nat),
        bottom_bar::metrics(b, stats, theme)[5].text == "CPU "@,
        bottom_bar::load(stats) <= 100,
        stats.cpu_percent <= 100 ==> bottom_bar::load(stats) == stats.cpu_percent,
        bottom_bar::metrics(b, stats, theme)[6].text == text::two_digits(bottom_bar::load(stats))
            + "%"@,
{
}

/// A file is called by the last name of its path, whatever directories lead to it.
pub proof fn paths_end_in_their_name(dir: Seq<char>, name: Seq<char>)
    requires
        name.len() > 0,
        lacks(name, '/'),
        name[name.len() - 1] != '.',
    ensures
        paths::name_or_path(dir + seq!['/'] + name) == name,
        paths::name_or_path(dir + seq!['/'] + name + seq!['/']) == name,
        paths::name_or_path(name) == name,
{
    reveal_strlit(".");
    reveal_strlit("..");
    let whole: Seq<char> = dir + seq!['/'] + name;
    assert(whole[whole.len() - 1] == name[name.len() - 1]);
    assert(paths::without_end(whole) == whole);
    assert((whole + seq!['/']).drop_last() =~= whole);
    assert(paths::without_end(whole + seq!['/']) == whole);
    assert(paths::without_end(name) == name);
    texts::the_last_part_follows_the_last_separator(dir, '/', name);
}

} // verus!
