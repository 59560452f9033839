//! The popup that shows what the log of the games says.

use vstd::arithmetic::div_mod;
use vstd::prelude::*;

use crate::fit;
use crate::frames;
use crate::geometry;
use crate::geometry::Rect;
use crate::paths;
use crate::style;
use crate::style::Line;
use crate::style::Piece;
use crate::style::Span;
use crate::style::Style;
use crate::style::Theme;
use crate::text;

verus! {

/// How often a strategy cooperated, over all rounds and over the last ones, as texts of a percentage.
pub struct StrategyRate {
    pub id: String,
    pub coop: String,
    pub tail_coop: String,
    pub rounds: u64,
}

/// The files that the analysis wrote.
pub struct AnalysisPaths {
    pub summary: String,
    pub matches_csv: String,
    pub strategies_csv: String,
    pub trajectories_csv: String,
}

pub struct HistoryAnalysisSummary {
    pub total_matches: u64,
    pub total_rounds: u64,
    pub tail_rounds: u64,
    pub min_rounds: u64,
    pub max_rounds: u64,
    pub trajectory_samples: u64,
    pub paths: AnalysisPaths,
    pub strategies: Vec<StrategyRate>,
}

/// A match and the curve of each of its sides, drawn in characters.
pub struct Trajectory {
    pub a: String,
    pub b: String,
    pub a_plot: String,
    pub b_plot: String,
}

pub struct HistoryAnalysisPreview {
    pub trajectories: Vec<Trajectory>,
}

pub struct GamesAnalysisState {
    pub open: bool,
    pub running: bool,
    pub source_path: Option<String>,
    pub last_error: Option<String>,
    pub summary: Option<HistoryAnalysisSummary>,
    pub preview: Option<HistoryAnalysisPreview>,
    pub scroll_offset: usize,
}

/// The width and height of the popup on a screen, which it never leaves.
pub fn preferred_size(screen: Rect) -> (r: (u16, u16))
    ensures
        r.0 == geometry::smaller(geometry::between(screen.width, 64, 96), screen.width),
        r.1 == geometry::smaller(geometry::between(screen.height, 18, 32), screen.height),
        r.0 <= screen.width,
        r.1 <= screen.height,
{
    (
        geometry::smaller_of(geometry::keep_between(screen.width, 64, 96), screen.width),
        geometry::smaller_of(geometry::keep_between(screen.height, 18, 32), screen.height),
    )
}

/// How many lines a list of matches takes.
pub open spec fn preview_lines_in(p: HistoryAnalysisPreview) -> int {
    2 + (if p.trajectories@.len() == 0 {
        1int
    } else {
        (p.trajectories@.len() * 3) as int
    })
}

/// How many lines the popup has.
pub open spec fn lines_in(a: GamesAnalysisState) -> int {
    1 + (if a.source_path is Some {
        1int
    } else {
        0
    }) + (if a.last_error is Some {
        1int
    } else {
        0
    }) + (if a.running && a.summary is None {
        2int
    } else {
        0
    }) + (match a.summary {
        Some(s) => 11 + s.strategies@.len() + (match a.preview {
            Some(p) => preview_lines_in(p),
            None => 0,
        }),
        None => 0,
    })
}

pub fn line_count(a: &GamesAnalysisState) -> (r: usize)
    requires
        lines_in(*a) <= usize::MAX,
    ensures
        r == lines_in(*a),
{
    let mut count: usize = 1;
    if a.source_path.is_some() {
        count += 1;
    }
    if a.last_error.is_some() {
        count += 1;
    }
    match &a.summary {
        Some(s) => {
            count += 11;
            count = count + s.strategies.len();
            if let Some(p) = &a.preview {
                count += 2;
                if p.trajectories.len() == 0 {
                    count += 1;
                } else {
                    count = count + p.trajectories.len() * 3;
                }
            }
        },
        None => {
            if a.running {
                count += 2;
            }
        },
    }
    count
}

/// The styles of the popup.
#[derive(Clone, Copy, Debug, PartialEq, Eq, Structural)]
pub struct Styles {
    pub header: Style,
    pub label: Style,
    pub value: Style,
    pub dim: Style,
    pub number: Style,
    pub warn: Style,
}

#[verifier::allow_in_spec]
pub fn styles_of(theme: Theme) -> Styles
    returns
        (Styles {
            header: Style::plain().fg(theme.title).bold(),
            label: Style::plain().fg(theme.title).dim(),
            value: Style::plain().fg(theme.foreground),
            dim: Style::plain().fg(theme.border).dim(),
            number: Style::plain().fg(theme.accent).bold(),
            warn: Style::plain().fg(theme.warning).bold(),
        }),
{
    Styles {
        header: Style::plain().fg(theme.title).bold(),
        label: Style::plain().fg(theme.title).dim(),
        value: Style::plain().fg(theme.foreground),
        dim: Style::plain().fg(theme.border).dim(),
        number: Style::plain().fg(theme.accent).bold(),
        warn: Style::plain().fg(theme.warning).bold(),
    }
}

pub open spec fn status(a: GamesAnalysisState, s: Styles) -> (Seq<char>, Style) {
    if a.running {
        ("RUNNING"@, s.number)
    } else if a.last_error is Some {
        ("ERROR"@, s.warn)
    } else if a.summary is Some {
        ("DONE"@, s.number)
    } else {
        ("IDLE"@, s.number)
    }
}

pub fn status_label(a: &GamesAnalysisState, s: &Styles) -> (r: (&'static str, Style))
    ensures
        (r.0@, r.1) == status(*a, *s),
{
    if a.running {
        ("RUNNING", s.number)
    } else if a.last_error.is_some() {
        ("ERROR", s.warn)
    } else if a.summary.is_some() {
        ("DONE", s.number)
    } else {
        ("IDLE", s.number)
    }
}

/// Two texts beside each other.
pub open spec fn pair(a: Seq<char>, a_look: Style, b: Seq<char>, b_look: Style) -> Seq<Piece> {
    seq![style::piece(a, a_look), style::piece(b, b_look)]
}

fn pair_line(a: &str, a_look: Style, b: &str, b_look: Style) -> (r: Line)
    ensures
        r@ == pair(a@, a_look, b@, b_look),
{
    let spans: Vec<Span> = vec![style::span(a, a_look), style::span(b, b_look)];
    let r: Line = Line { spans };
    assert(r@ =~= pair(a@, a_look, b@, b_look));
    r
}

pub open spec fn one(a: Seq<char>, look: Style) -> Seq<Piece> {
    seq![style::piece(a, look)]
}

/// The last name of a path, as far as there is room.
pub open spec fn short(path: Seq<char>, width: int) -> Seq<char> {
    fit::truncated(paths::name_or_path(path), width)
}

pub fn short_path(path: &str, max_width: usize) -> (r: String)
    ensures
        r@ == short(path@, max_width as int),
{
    let name: String = paths::file_name_or_path(path);
    fit::truncate_label(name.as_str(), max_width)
}

pub open spec fn path_row(label: Seq<char>, path: Seq<char>, s: Styles, width: int) -> Seq<Piece> {
    pair(label, s.label, short(path, width), s.value)
}

fn push_path(out: &mut Vec<Line>, label: &str, path: &str, s: &Styles, width: usize)
    ensures
        style::rows(final(out)@) == style::rows(old(out)@) + seq![
            path_row(label@, path@, *s, width as int),
        ],
{
    let value: String = short_path(path, width);
    style::push_line(out, pair_line(label, s.label, value.as_str(), s.value));
}

/// The first numbers of the analysis.
pub open spec fn totals(m: HistoryAnalysisSummary, s: Styles) -> Seq<Piece> {
    seq![
        style::piece("matches: "@, s.label),
        style::piece(text::decimal(m.total_matches as nat), s.number),
        style::piece("  rounds: "@, s.label),
        style::piece(text::decimal(m.total_rounds as nat), s.number),
        style::piece("  tail: "@, s.label),
        style::piece(text::decimal(m.tail_rounds as nat), s.number),
    ]
}

fn totals_line(m: &HistoryAnalysisSummary, s: &Styles) -> (r: Line)
    ensures
        r@ == totals(*m, *s),
{
    let spans: Vec<Span> = vec![
        style::span("matches: ", s.label),
        style::styled(text::decimal_u64(m.total_matches), s.number),
        style::span("  rounds: ", s.label),
        style::styled(text::decimal_u64(m.total_rounds), s.number),
        style::span("  tail: ", s.label),
        style::styled(text::decimal_u64(m.tail_rounds), s.number),
    ];
    let r: Line = Line { spans };
    assert(r@ =~= totals(*m, *s));
    r
}

/// The range of the rounds, and how many samples were taken.
pub open spec fn samples(m: HistoryAnalysisSummary, s: Styles) -> Seq<Piece> {
    seq![
        style::piece("rounds/match: "@, s.label),
        style::piece(text::decimal(m.min_rounds as nat), s.number),
        style::piece(".."@, s.dim),
        style::piece(text::decimal(m.max_rounds as nat), s.number),
        style::piece("  samples: "@, s.label),
        style::piece(text::decimal(m.trajectory_samples as nat), s.number),
    ]
}

fn samples_line(m: &HistoryAnalysisSummary, s: &Styles) -> (r: Line)
    ensures
        r@ == samples(*m, *s),
{
    let spans: Vec<Span> = vec![
        style::span("rounds/match: ", s.label),
        style::styled(text::decimal_u64(m.min_rounds), s.number),
        style::span("..", s.dim),
        style::styled(text::decimal_u64(m.max_rounds), s.number),
        style::span("  samples: ", s.label),
        style::styled(text::decimal_u64(m.trajectory_samples), s.number),
    ];
    let r: Line = Line { spans };
    assert(r@ =~= samples(*m, *s));
    r
}

/// How wide the names of strategies are shown.
pub open spec fn id_width(width: int) -> int {
    text::max_int(text::min_int(14, width / 3), 6)
}

/// A strategy in its row.
pub open spec fn strategy_row(t: StrategyRate, i: int, s: Styles, width: int) -> Seq<Piece> {
    let w: int = id_width(width);
    seq![
        style::piece(fit::right_at_least(text::decimal((i + 1) as nat), 2) + " "@, s.dim),
        style::piece(fit::at_least(fit::truncated(t.id@, w), w), s.value),
        style::piece(" "@, s.dim),
        style::piece(t.coop@ + "%"@, s.number),
        style::piece(" / "@, s.dim),
        style::piece(t.tail_coop@ + "%"@, s.number),
        style::piece("  r="@, s.dim),
        style::piece(text::decimal(t.rounds as nat), s.value),
    ]
}

fn strategy_line(t: &StrategyRate, i: usize, s: &Styles, width: usize) -> (r: Line)
    requires
        i < usize::MAX,
    ensures
        r@ == strategy_row(*t, i as int, *s, width as int),
{
    let w: usize = text::max_of(text::min_of(14, width / 3), 6);
    let count: String = text::decimal_usize(i + 1);
    let place: String = fit::pad_start(count.as_str(), 2);
    let id: String = fit::truncate_label(t.id.as_str(), w);
    let spans: Vec<Span> = vec![
        style::styled(text::cat2(place.as_str(), " "), s.dim),
        style::styled(fit::pad_end(id.as_str(), w), s.value),
        style::span(" ", s.dim),
        style::styled(text::cat2(t.coop.as_str(), "%"), s.number),
        style::span(" / ", s.dim),
        style::styled(text::cat2(t.tail_coop.as_str(), "%"), s.number),
        style::span("  r=", s.dim),
        style::styled(text::decimal_u64(t.rounds), s.value),
    ];
    let r: Line = Line { spans };
    assert(r@ =~= strategy_row(*t, i as int, *s, width as int));
    r
}

/// The strategies, each in its row.
pub open spec fn strategy_rows(all: Seq<StrategyRate>, s: Styles, width: int) -> Seq<Seq<Piece>> {
    Seq::new(all.len(), |i: int| strategy_row(all[i], i, s, width))
}

fn push_strategies(out: &mut Vec<Line>, all: &Vec<StrategyRate>, s: &Styles, width: usize)
    ensures
        style::rows(final(out)@) == style::rows(old(out)@) + strategy_rows(
            all@,
            *s,
            width as int,
        ),
{
    let ghost before: Seq<Seq<Piece>> = style::rows(out@);
    let ghost want: Seq<Seq<Piece>> = strategy_rows(all@, *s, width as int);
    let total: usize = all.len();
    let mut i: usize = 0;
    assert(before + want.take(0) =~= before);
    while i < total
        invariant
            i <= total == all@.len(),
            want == strategy_rows(all@, *s, width as int),
            style::rows(out@) == before + want.take(i as int),
        decreases total - i,
    {
        style::push_line(out, strategy_line(&all[i], i, s, width));
        i += 1;
        assert(before + want.take(i as int) =~= before + want.take(i - 1) + seq![want[i - 1]]);
    }
    assert(want.take(i as int) =~= want);
}

/// The analysis in numbers, its files, and the strategies.
#[verifier::opaque]
pub open spec fn summary_rows(m: HistoryAnalysisSummary, s: Styles, width: int) -> Seq<Seq<Piece>> {
    seq![Seq::<Piece>::empty()] + seq![totals(m, s)] + seq![samples(m, s)] + seq![
        Seq::<Piece>::empty(),
    ] + seq![one("Outputs"@, s.header)] + seq![
        path_row("summary: "@, m.paths.summary@, s, width),
    ] + seq![path_row("matches: "@, m.paths.matches_csv@, s, width)] + seq![
        path_row("strategies: "@, m.paths.strategies_csv@, s, width),
    ] + seq![path_row("trajectories: "@, m.paths.trajectories_csv@, s, width)] + seq![
        Seq::<Piece>::empty(),
    ] + seq![one("Strategy cooperation (overall / tail)"@, s.header)] + strategy_rows(
        m.strategies@,
        s,
        width,
    )
}

pub fn append_summary_section(
    out: &mut Vec<Line>,
    m: &HistoryAnalysisSummary,
    s: &Styles,
    width: usize,
)
    ensures
        style::rows(final(out)@) == style::rows(old(out)@) + summary_rows(*m, *s, width as int),
{
    reveal(summary_rows);
    broadcast use style::group_line_lists;

    style::push_line(out, style::blank());
    style::push_line(out, totals_line(m, s));
    style::push_line(out, samples_line(m, s));
    style::push_line(out, style::blank());
    style::push_line(out, style::single(text::copy("Outputs"), s.header));
    push_path(out, "summary: ", m.paths.summary.as_str(), s, width);
    push_path(out, "matches: ", m.paths.matches_csv.as_str(), s, width);
    push_path(out, "strategies: ", m.paths.strategies_csv.as_str(), s, width);
    push_path(out, "trajectories: ", m.paths.trajectories_csv.as_str(), s, width);
    style::push_line(out, style::blank());
    style::push_line(
        out,
        style::single(text::copy("Strategy cooperation (overall / tail)"), s.header),
    );
    push_strategies(out, &m.strategies, s, width);
}

/// How wide a curve is drawn.
pub fn plot_width(inner_width: u16) -> (r: usize)
    ensures
        r == text::max_int(text::monus(text::max_int(inner_width as int, 1), 12), 1),
{
    text::max_of(text::minus(text::max_of(inner_width as usize, 1), 12), 1)
}

/// A match in its three lines.
pub open spec fn trajectory_rows(t: Trajectory, s: Styles, width: int) -> Seq<Seq<Piece>> {
    seq![
        one(fit::truncated(t.a@ + " vs "@ + t.b@, width), s.value),
        pair("A: "@, s.label, t.a_plot@, s.number),
        pair("B: "@, s.label, t.b_plot@, s.number),
    ]
}

/// The first `n` matches.
pub open spec fn trajectories(all: Seq<Trajectory>, s: Styles, width: int, n: int) -> Seq<Seq<Piece>>
    decreases n,
{
    if n <= 0 {
        Seq::empty()
    } else {
        trajectories(all, s, width, n - 1) + trajectory_rows(all[n - 1], s, width)
    }
}

fn push_trajectory(out: &mut Vec<Line>, t: &Trajectory, s: &Styles, width: usize)
    ensures
        style::rows(final(out)@) == style::rows(old(out)@) + trajectory_rows(
            *t,
            *s,
            width as int,
        ),
{
    let ghost before: Seq<Seq<Piece>> = style::rows(out@);
    let title: String = text::cat3(t.a.as_str(), " vs ", t.b.as_str());
    style::push_line(out, style::single(fit::truncate_label(title.as_str(), width), s.value));
    style::push_line(out, pair_line("A: ", s.label, t.a_plot.as_str(), s.number));
    style::push_line(out, pair_line("B: ", s.label, t.b_plot.as_str(), s.number));
    assert(style::rows(out@) =~= before + trajectory_rows(*t, *s, width as int));
}

/// The matches that were picked.
#[verifier::opaque]
pub open spec fn preview_rows(p: HistoryAnalysisPreview, s: Styles, width: int) -> Seq<Seq<Piece>> {
    seq![Seq::<Piece>::empty()] + seq![one("Random match trajectories"@, s.header)] + (
    if p.trajectories@.len() == 0 {
        seq![one("No random matchups detected."@, s.dim)]
    } else {
        trajectories(p.trajectories@, s, width, p.trajectories@.len() as int)
    })
}

pub fn append_preview_section(
    out: &mut Vec<Line>,
    p: &HistoryAnalysisPreview,
    s: &Styles,
    width: usize,
)
    ensures
        style::rows(final(out)@) == style::rows(old(out)@) + preview_rows(*p, *s, width as int),
{
    reveal(preview_rows);
    broadcast use style::group_line_lists;

    style::push_line(out, style::blank());
    style::push_line(out, style::single(text::copy("Random match trajectories"), s.header));
    let total: usize = p.trajectories.len();
    if total == 0 {
        style::push_line(out, style::single(text::copy("No random matchups detected."), s.dim));
        return;
    }
    let ghost before: Seq<Seq<Piece>> = style::rows(out@);
    let mut i: usize = 0;
    while i < total
        invariant
            i <= total == p.trajectories@.len(),
            style::rows(out@) == before + trajectories(
                p.trajectories@,
                *s,
                width as int,
                i as int,
            ),
        decreases total - i,
    {
        broadcast use style::group_line_lists;

        push_trajectory(out, &p.trajectories[i], s, width);
        i += 1;
    }
}

/// The first lines: the state of the analysis, its source, its error, and that it still runs.
#[verifier::opaque]
pub open spec fn head_rows(a: GamesAnalysisState, s: Styles, width: int) -> Seq<Seq<Piece>> {
    seq![pair("status: "@, s.label, status(a, s).0, status(a, s).1)] + (match a.source_path {
        Some(p) => seq![path_row("source: "@, p@, s, width)],
        None => Seq::empty(),
    }) + (match a.last_error {
        Some(e) => seq![pair("error: "@, s.warn, fit::truncated(e@, width), s.value)],
        None => Seq::empty(),
    }) + (if a.running && a.summary is None {
        seq![Seq::<Piece>::empty()] + seq![
            pair(
                fit::truncated("Analyzing history log..."@, width),
                s.value,
                " (Esc to close)"@,
                s.dim,
            ),
        ]
    } else {
        Seq::empty()
    })
}

fn push_head(out: &mut Vec<Line>, a: &GamesAnalysisState, s: &Styles, width: usize)
    ensures
        style::rows(final(out)@) == style::rows(old(out)@) + head_rows(*a, *s, width as int),
{
    reveal(head_rows);
    broadcast use style::group_line_lists;

    let (word, look): (&str, Style) = status_label(a, s);
    style::push_line(out, pair_line("status: ", s.label, word, look));
    if let Some(p) = &a.source_path {
        push_path(out, "source: ", p.as_str(), s, width);
    }
    if let Some(e) = &a.last_error {
        let cut: String = fit::truncate_label(e.as_str(), width);
        style::push_line(out, pair_line("error: ", s.warn, cut.as_str(), s.value));
    }
    if a.running && a.summary.is_none() {
        style::push_line(out, style::blank());
        let cut: String = fit::truncate_label("Analyzing history log...", width);
        style::push_line(out, pair_line(cut.as_str(), s.value, " (Esc to close)", s.dim));
    }
}

/// The lines of the popup.
pub open spec fn rows(a: GamesAnalysisState, theme: Theme, inner_width: int) -> Seq<Seq<Piece>> {
    let s: Styles = styles_of(theme);
    let width: int = text::max_int(inner_width, 1);
    head_rows(a, s, width) + (match a.summary {
        Some(m) => summary_rows(m, s, width) + (match a.preview {
            Some(p) => preview_rows(p, s, width),
            None => Seq::empty(),
        }),
        None => Seq::empty(),
    })
}

pub fn build_lines(a: &GamesAnalysisState, theme: &Theme, inner_width: u16) -> (r: Vec<Line>)
    ensures
        style::rows(r@) == rows(*a, *theme, inner_width as int),
{
    broadcast use {style::group_lines, style::group_line_lists};

    let s: Styles = styles_of(*theme);
    let width: usize = text::max_of(inner_width as usize, 1);
    let mut out: Vec<Line> = Vec::new();
    push_head(&mut out, a, &s, width);
    if let Some(m) = &a.summary {
        append_summary_section(&mut out, m, &s, width);
        if let Some(p) = &a.preview {
            append_preview_section(&mut out, p, &s, width);
        }
    }
    out
}

proof fn every_match_takes_three_lines(all: Seq<Trajectory>, s: Styles, width: int, n: int)
    requires
        0 <= n <= all.len(),
    ensures
        trajectories(all, s, width, n).len() == 3 * n,
    decreases n,
{
    if n > 0 {
        every_match_takes_three_lines(all, s, width, n - 1);
    }
}

/// The lines are counted as they are drawn.
pub proof fn lines_are_counted(a: GamesAnalysisState, theme: Theme, inner_width: int)
    ensures
        rows(a, theme, inner_width).len() == lines_in(a),
{
    reveal(head_rows);
    reveal(summary_rows);
    reveal(preview_rows);
    if let Some(p) = a.preview {
        every_match_takes_three_lines(
            p.trajectories@,
            styles_of(theme),
            text::max_int(inner_width, 1),
            p.trajectories@.len() as int,
        );
    }
}

/// How many characters a curve of so many values is drawn with.
pub open spec fn sample_count(values: int, width: int) -> int {
    if values <= 0 || width <= 0 {
        0
    } else {
        text::min_int(width, values)
    }
}

/// Where the values of the character at `i` start.
pub open spec fn sample_start(values: int, count: int, i: int) -> int {
    i * values / count
}

/// The places of values as pairs of integers.
pub open spec fn places(v: Seq<(usize, usize)>) -> Seq<(int, int)> {
    Seq::new(v.len(), |i: int| (v[i].0 as int, v[i].1 as int))
}

/// For each character of a curve, from where to where the values go that it stands for.
pub open spec fn sample_places(values: int, width: int) -> Seq<(int, int)> {
    let count: int = sample_count(values, width);
    Seq::new(
        count as nat,
        |i: int| (sample_start(values, count, i), sample_start(values, count, i + 1)),
    )
}

proof fn starts_grow(values: int, count: int, i: int)
    requires
        0 < count <= values,
        0 <= i,
    ensures
        sample_start(values, count, i) + 1 <= sample_start(values, count, i + 1),
{
    assert((i + 1) * values == i * values + values) by (nonlinear_arith);
    div_mod::lemma_div_is_ordered(count + i * values, (i + 1) * values, count);
    div_mod::lemma_div_plus_one(i * values, count);
}

proof fn starts_stay_inside(values: int, count: int, i: int)
    requires
        0 < count <= values,
        0 <= i <= count,
    ensures
        0 <= sample_start(values, count, i) <= values,
        sample_start(values, count, 0) == 0,
        sample_start(values, count, count) == values,
{
    assert(0 <= i * values <= count * values) by (nonlinear_arith)
        requires
            0 < count <= values,
            0 <= i <= count,
    ;
    div_mod::lemma_div_is_ordered(0, i * values, count);
    div_mod::lemma_div_is_ordered(i * values, count * values, count);
    div_mod::lemma_div_multiples_vanish(values, count);
    assert(0int * values == 0) by (nonlinear_arith);
    assert(0int / count == 0) by (nonlinear_arith)
        requires
            count > 0,
    ;
}

/// The characters of a curve stand for all of its values, one behind another: each for at least
/// one, none for a value of the next.
pub proof fn samples_cover_the_values(values: int, width: int, i: int)
    requires
        values > 0,
        width > 0,
        0 <= i < sample_count(values, width),
    ensures
        sample_places(values, width)[0].0 == 0,
        sample_places(values, width).last().1 == values,
        0 <= sample_places(values, width)[i].0 < sample_places(values, width)[i].1 <= values,
        i + 1 < sample_count(values, width) ==> sample_places(values, width)[i].1
            == sample_places(values, width)[i + 1].0,
{
    let count: int = sample_count(values, width);
    starts_grow(values, count, i);
    starts_stay_inside(values, count, i);
    starts_stay_inside(values, count, i + 1);
}

pub fn sparkline_places(values: usize, width: usize) -> (r: Vec<(usize, usize)>)
    ensures
        places(r@) == sample_places(values as int, width as int),
{
    let ghost want: Seq<(int, int)> = sample_places(values as int, width as int);
    let mut out: Vec<(usize, usize)> = Vec::new();
    if values == 0 || width == 0 {
        assert(places(out@) =~= want);
        return out;
    }
    let count: usize = text::min_of(width, values);
    let mut i: usize = 0;
    let mut start: usize = 0;
    proof {
        starts_stay_inside(values as int, count as int, 0);
    }
    assert(places(out@) =~= want.take(0));
    while i < count
        invariant
            i <= count <= values,
            count == sample_count(values as int, width as int),
            0 < count,
            start == sample_start(values as int, count as int, i as int),
            want == sample_places(values as int, width as int),
            places(out@) == want.take(i as int),
        decreases count - i,
    {
        proof {
            starts_stay_inside(values as int, count as int, i + 1);
            assert((i + 1) * values <= u128::MAX) by (nonlinear_arith)
                requires
                    i + 1 <= usize::MAX,
                    values <= usize::MAX,
                    usize::MAX <= 0xffff_ffff_ffff_ffff,
            ;
        }
        let end: usize = (((i + 1) as u128) * (values as u128) / (count as u128)) as usize;
        let ghost before: Seq<(usize, usize)> = out@;
        out.push((start, end));
        start = end;
        i += 1;
        assert(places(out@) =~= places(before).push(want[i - 1]));
        assert(want.take(i as int) =~= want.take(i - 1).push(want[i - 1]));
    }
    assert(want.take(i as int) =~= want);
    out
}

/// The character that stands for a level, of ten.
pub fn level_char(level: usize) -> (r: char)
    requires
        level <= 9,
    ensures
        r == " .:-=+*#%@"@[level as int],
{
    proof {
        reveal_strlit(" .:-=+*#%@");
    }
    match level {
        0 => ' ',
        1 => '.',
        2 => ':',
        3 => '-',
        4 => '=',
        5 => '+',
        6 => '*',
        7 => '#',
        8 => '%',
        _ => '@',
    }
}

/// The popup as it is drawn.
pub struct AnalysisPaint {
    pub title: Line,
    pub border: Style,
    pub inner: Rect,
    pub lines: Vec<Line>,
    pub look: Style,
    pub scroll: usize,
}

/// The popup; nothing where it is not open.
pub fn render(a: &GamesAnalysisState, theme: &Theme, area: Rect) -> (r: Option<AnalysisPaint>)
    ensures
        match r {
            Some(p) => {
                let all: Seq<Seq<Piece>> = rows(*a, *theme, geometry::inside(area).width as int);
                let height: int = geometry::inside(area).height as int;
                &&& a.open
                &&& p.title@ == one(
                    " GAMES ANALYSIS "@,
                    Style::plain().fg(theme.title_focused).bold(),
                )
                &&& p.border == Style::plain().fg(theme.border_focused)
                &&& p.inner == geometry::inside(area)
                &&& p.look == Style::plain().fg(theme.foreground).bg(theme.background)
                &&& p.scroll == frames::scrolled(a.scroll_offset as int, all.len() as int, height)
                &&& style::rows(p.lines@) == frames::window(all, p.scroll as int, height)
            },
            None => !a.open,
        },
{
    if !a.open {
        return None;
    }
    let inner: Rect = geometry::inner(area);
    let all: Vec<Line> = build_lines(a, theme, inner.width);
    assert(style::rows(all@).len() == all@.len());
    let height: usize = inner.height as usize;
    let scroll: usize = frames::clamp_scroll(a.scroll_offset, all.len(), height);
    Some(
        AnalysisPaint {
            title: style::single(
                text::copy(" GAMES ANALYSIS "),
                Style::plain().fg(theme.title_focused).bold(),
            ),
            border: Style::plain().fg(theme.border_focused),
            inner,
            lines: frames::visible_lines(all, scroll, height),
            look: Style::plain().fg(theme.foreground).bg(theme.background),
            scroll,
        },
    )
}

} // verus!
