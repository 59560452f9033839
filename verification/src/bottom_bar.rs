//! The bar at the bottom of the screen.

use vstd::prelude::*;

use crate::geometry;
use crate::geometry::Rect;
use crate::state::AppKind;
use crate::state::RuntimeAcceleratorBackend;
use crate::style;
use crate::style::Line;
use crate::style::Piece;
use crate::style::Span;
use crate::style::Style;
use crate::style::Theme;
use crate::text;

verus! {

/// What the games were asked to be computed on.
#[derive(Clone, Copy, Debug, PartialEq, Eq, Structural)]
pub enum AcceleratorMode {
    Cpu,
    Metal,
    Auto,
}

/// What the games were computed on.
pub struct RuntimeAcceleratorStats {
    pub backend: RuntimeAcceleratorBackend,
    pub requested: AcceleratorMode,
    pub metal_matches: u64,
    pub cpu_matches: u64,
    pub metal_fallbacks: u64,
    pub metal_matches_per_batch: Option<u64>,
    pub metal_inflight_batches: Option<u64>,
    pub metal_policy_source: Option<String>,
}

/// What is known of the graphics processor; the size of its memory as text.
pub struct GpuSummary {
    pub usage_percent: Option<u64>,
    pub mem_total_gb: Option<String>,
    pub name: Option<String>,
}

/// What is known of the machine; the memory in use and in all as texts, if it is known.
pub struct SystemStats {
    pub cpu_percent: u64,
    pub gpu: GpuSummary,
    pub mem: Option<(String, String)>,
}

/// What the bar tells of the workbench.
pub struct BarState {
    pub focus_title: String,
    pub line: usize,
    pub col: usize,
    pub app_kind: AppKind,
    pub games_running: bool,
    pub games_ran: bool,
    pub runtime: RuntimeAcceleratorStats,
}

/// The styles of the bar.
#[derive(Clone, Copy, Debug, PartialEq, Eq, Structural)]
pub struct BarStyles {
    pub label: Style,
    pub sep: Style,
    pub cpu: Style,
    pub gpu: Style,
    pub dim: Style,
    pub mem: Style,
    pub coord: Style,
}

#[verifier::allow_in_spec]
pub fn styles_of(theme: Theme) -> BarStyles
    returns
        (BarStyles {
            label: Style::plain().fg(theme.title),
            sep: Style::plain().fg(theme.border),
            cpu: Style::plain().fg(theme.accent),
            gpu: Style::plain().fg(theme.title_focused),
            dim: Style::plain().fg(theme.border),
            mem: Style::plain().fg(theme.warning),
            coord: Style::plain().fg(theme.foreground),
        }),
{
    BarStyles {
        label: Style::plain().fg(theme.title),
        sep: Style::plain().fg(theme.border),
        cpu: Style::plain().fg(theme.accent),
        gpu: Style::plain().fg(theme.title_focused),
        dim: Style::plain().fg(theme.border),
        mem: Style::plain().fg(theme.warning),
        coord: Style::plain().fg(theme.foreground),
    }
}

pub open spec fn backend_text(r: RuntimeAcceleratorStats) -> Seq<char> {
    match r.backend {
        RuntimeAcceleratorBackend::Metal => "MTL"@,
        RuntimeAcceleratorBackend::Cpu => "CPU"@,
        RuntimeAcceleratorBackend::Other => match r.requested {
            AcceleratorMode::Cpu => "CPU?"@,
            AcceleratorMode::Metal => "MTL?"@,
            AcceleratorMode::Auto => "AUTO"@,
        },
    }
}

pub fn backend_label(r: &RuntimeAcceleratorStats) -> (s: &'static str)
    ensures
        s@ == backend_text(*r),
{
    match r.backend {
        RuntimeAcceleratorBackend::Metal => "MTL",
        RuntimeAcceleratorBackend::Cpu => "CPU",
        RuntimeAcceleratorBackend::Other => match r.requested {
            AcceleratorMode::Cpu => "CPU?",
            AcceleratorMode::Metal => "MTL?",
            AcceleratorMode::Auto => "AUTO",
        },
    }
}

/// How many matches go in a batch, how many batches at a time, and who decided so.
pub open spec fn batch_text(r: RuntimeAcceleratorStats) -> Option<Seq<char>> {
    match (r.metal_matches_per_batch, r.metal_inflight_batches) {
        (Some(batch), Some(inflight)) => {
            let s: Seq<char> = text::decimal(batch as nat) + "bx"@ + text::decimal(
                inflight as nat,
            );
            match r.metal_policy_source {
                Some(source) => Some(s + "/"@ + source@),
                None => Some(s),
            }
        },
        _ => None,
    }
}

pub fn batch_policy_label(r: &RuntimeAcceleratorStats) -> (s: Option<String>)
    ensures
        text::opt_text(s) == batch_text(*r),
{
    match (r.metal_matches_per_batch, r.metal_inflight_batches) {
        (Some(batch), Some(inflight)) => {
            let a: String = text::decimal_u64(batch);
            let b: String = text::decimal_u64(inflight);
            let s: String = text::cat3(a.as_str(), "bx", b.as_str());
            match &r.metal_policy_source {
                Some(source) => Some(text::cat3(s.as_str(), "/", source.as_str())),
                None => Some(s),
            }
        },
        _ => None,
    }
}

/// A count and its sign, where it is not zero.
pub open spec fn count_part(n: u64, suffix: Seq<char>) -> Seq<Seq<char>> {
    if n > 0 {
        seq![text::decimal(n as nat) + suffix]
    } else {
        Seq::empty()
    }
}

fn push_count(out: &mut Vec<String>, n: u64, suffix: &str)
    ensures
        text::texts(final(out)@) == text::texts(old(out)@) + count_part(n, suffix@),
{
    broadcast use {text::group_texts, text::group_line_lists};

    if n > 0 {
        let count: String = text::decimal_u64(n);
        let part: String = text::cat2(count.as_str(), suffix);
        let ghost before: Seq<Seq<char>> = text::texts(out@);
        let ghost more: Seq<char> = part@;
        out.push(part);
        assert(text::texts(out@) =~= before + seq![more]);
    }
}

pub open spec fn detail_text(r: RuntimeAcceleratorStats) -> Seq<char> {
    text::joined(
        count_part(r.metal_matches, "g"@) + count_part(r.cpu_matches, "c"@) + count_part(
            r.metal_fallbacks,
            "fb"@,
        ) + (match batch_text(r) {
            Some(s) => seq![s],
            None => Seq::empty(),
        }),
        "/"@,
    )
}

pub fn accelerator_detail(r: &RuntimeAcceleratorStats) -> (s: String)
    ensures
        s@ == detail_text(*r),
{
    broadcast use {text::group_texts, text::group_line_lists};

    let mut parts: Vec<String> = Vec::new();
    push_count(&mut parts, r.metal_matches, "g");
    assert(text::texts(parts@) =~= count_part(r.metal_matches, "g"@));
    push_count(&mut parts, r.cpu_matches, "c");
    push_count(&mut parts, r.metal_fallbacks, "fb");
    let ghost before: Seq<Seq<char>> = text::texts(parts@);
    if let Some(s) = batch_policy_label(r) {
        let ghost more: Seq<char> = s@;
        parts.push(s);
        assert(text::texts(parts@) =~= before + seq![more]);
    }
    text::join(&parts, "/")
}

/// Whether there is something to tell of what the games were computed on.
pub open spec fn tells_accelerator(b: BarState) -> bool {
    b.app_kind == AppKind::Games && (b.games_running || b.games_ran || b.runtime.metal_matches > 0
        || b.runtime.cpu_matches > 0 || b.runtime.metal_fallbacks > 0)
}

pub open spec fn accelerator_pieces(b: BarState, s: BarStyles) -> Option<Seq<Piece>> {
    let detail: Seq<char> = detail_text(b.runtime);
    if !tells_accelerator(b) {
        None
    } else {
        Some(
            seq![style::piece("ACC "@, s.label), style::piece(backend_text(b.runtime), s.gpu)] + (
            if detail.len() > 0 {
                seq![style::piece(" "@, s.dim), style::piece(detail, s.gpu)]
            } else {
                Seq::empty()
            }),
        )
    }
}

/// Optional pieces as a value.
pub open spec fn opt_pieces(v: Option<Vec<Span>>) -> Option<Seq<Piece>> {
    match v {
        Some(spans) => Some(style::pieces(spans@)),
        None => None,
    }
}

pub fn accelerator_spans(b: &BarState, s: &BarStyles) -> (r: Option<Vec<Span>>)
    ensures
        opt_pieces(r) == accelerator_pieces(*b, *s),
{
    broadcast use {style::group_lines, style::group_piece_lists};

    if b.app_kind != AppKind::Games {
        return None;
    }
    if !(b.games_running || b.games_ran || b.runtime.metal_matches > 0 || b.runtime.cpu_matches > 0
        || b.runtime.metal_fallbacks > 0) {
        return None;
    }
    let detail: String = accelerator_detail(&b.runtime);
    let mut spans: Vec<Span> = vec![
        style::span("ACC ", s.label),
        style::span(backend_label(&b.runtime), s.gpu),
    ];
    if text::length(detail.as_str()) > 0 {
        spans.push(style::span(" ", s.dim));
        spans.push(style::styled(detail, s.gpu));
    }
    assert(style::pieces(spans@) =~= accelerator_pieces(*b, *s).unwrap());
    Some(spans)
}

/// The label and the value that tell of the graphics processor.
pub open spec fn gpu_texts(g: GpuSummary) -> (Seq<char>, Seq<char>) {
    match (g.usage_percent, g.mem_total_gb) {
        (Some(usage), Some(total)) => (
            "GPU "@,
            text::two_digits(usage as nat) + "%/"@ + total@ + "G"@,
        ),
        (Some(usage), None) => ("GPU "@, text::two_digits(usage as nat) + "%"@),
        (None, Some(total)) => ("VRAM "@, total@ + "G"@),
        (None, None) => (
            "GPU "@,
            match g.name {
                Some(name) => name@,
                None => "N/A"@,
            },
        ),
    }
}

pub open spec fn gpu_pieces(g: GpuSummary, label: Style, value: Style) -> Seq<Piece> {
    seq![style::piece(gpu_texts(g).0, label), style::piece(gpu_texts(g).1, value)]
}

pub fn gpu_spans(g: &GpuSummary, label: Style, value: Style) -> (r: Vec<Span>)
    ensures
        style::pieces(r@) == gpu_pieces(*g, label, value),
{
    let (name, told): (&str, String) = match (g.usage_percent, &g.mem_total_gb) {
        (Some(usage), Some(total)) => {
            let u: String = text::two_digits_u64(usage);
            ("GPU ", text::cat4(u.as_str(), "%/", total.as_str(), "G"))
        },
        (Some(usage), None) => {
            let u: String = text::two_digits_u64(usage);
            ("GPU ", text::cat2(u.as_str(), "%"))
        },
        (None, Some(total)) => ("VRAM ", text::cat2(total.as_str(), "G")),
        (None, None) => (
            "GPU ",
            match &g.name {
                Some(name) => name.clone(),
                None => text::copy("N/A"),
            },
        ),
    };
    let r: Vec<Span> = vec![style::span(name, label), style::styled(told, value)];
    assert(style::pieces(r@) =~= gpu_pieces(*g, label, value));
    r
}

/// The processor's load, but at most a hundred.
pub open spec fn load(stats: SystemStats) -> nat {
    text::min_int(stats.cpu_percent as int, 100) as nat
}

/// The numbers of the bar.
pub open spec fn metrics(b: BarState, stats: SystemStats, theme: Theme) -> Seq<Piece> {
    let s: BarStyles = styles_of(theme);
    seq![
        style::piece("Ln "@, s.label),
        style::piece(text::decimal(b.line as nat) + ", "@, s.coord),
        style::piece("Col "@, s.label),
        style::piece(text::decimal(b.col as nat), s.coord),
        style::piece(" | "@, s.sep),
        style::piece("CPU "@, s.label),
        style::piece(text::two_digits(load(stats)) + "%"@, s.cpu),
        style::piece(" | "@, s.sep),
    ] + gpu_pieces(stats.gpu, s.label, s.gpu) + (match accelerator_pieces(b, s) {
        Some(acc) => seq![style::piece(" | "@, s.sep)] + acc,
        None => Seq::empty(),
    }) + (match stats.mem {
        Some(m) => seq![
            style::piece(" | "@, s.sep),
            style::piece("MEM "@, s.label),
            style::piece(m.0@ + "/"@ + m.1@ + "G"@, s.mem),
        ],
        None => Seq::empty(),
    })
}

fn push_spans(out: &mut Vec<Span>, more: Vec<Span>)
    ensures
        style::pieces(final(out)@) == style::pieces(old(out)@) + style::pieces(more@),
{
    let ghost before: Seq<Span> = out@;
    let mut rest: Vec<Span> = more;
    out.append(&mut rest);
    assert(style::pieces(out@) =~= style::pieces(before) + style::pieces(more@));
}

pub fn build_metrics_line(b: &BarState, stats: &SystemStats, theme: &Theme) -> (r: Line)
    ensures
        r@ == metrics(*b, *stats, *theme),
{
    broadcast use style::group_piece_lists;

    let s: BarStyles = styles_of(*theme);
    let line: String = text::decimal_usize(b.line);
    let cpu: String = text::two_digits_u64(
        if stats.cpu_percent > 100 {
            100
        } else {
            stats.cpu_percent
        },
    );
    let mut spans: Vec<Span> = vec![
        style::span("Ln ", s.label),
        style::styled(text::cat2(line.as_str(), ", "), s.coord),
        style::span("Col ", s.label),
        style::styled(text::decimal_usize(b.col), s.coord),
        style::span(" | ", s.sep),
        style::span("CPU ", s.label),
        style::styled(text::cat2(cpu.as_str(), "%"), s.cpu),
        style::span(" | ", s.sep),
    ];
    assert(style::pieces(spans@) =~= seq![
        style::piece("Ln "@, s.label),
        style::piece(text::decimal(b.line as nat) + ", "@, s.coord),
        style::piece("Col "@, s.label),
        style::piece(text::decimal(b.col as nat), s.coord),
        style::piece(" | "@, s.sep),
        style::piece("CPU "@, s.label),
        style::piece(text::two_digits(load(*stats)) + "%"@, s.cpu),
        style::piece(" | "@, s.sep),
    ]);
    push_spans(&mut spans, gpu_spans(&stats.gpu, s.label, s.gpu));
    if let Some(acc) = accelerator_spans(b, &s) {
        let sep: Vec<Span> = vec![style::span(" | ", s.sep)];
        assert(style::pieces(sep@) =~= seq![style::piece(" | "@, s.sep)]);
        push_spans(&mut spans, sep);
        push_spans(&mut spans, acc);
    }
    if let Some(m) = &stats.mem {
        let more: Vec<Span> = vec![
            style::span(" | ", s.sep),
            style::span("MEM ", s.label),
            style::styled(text::cat4(m.0.as_str(), "/", m.1.as_str(), "G"), s.mem),
        ];
        assert(style::pieces(more@) =~= seq![
            style::piece(" | "@, s.sep),
            style::piece("MEM "@, s.label),
            style::piece(m.0@ + "/"@ + m.1@ + "G"@, s.mem),
        ]);
        push_spans(&mut spans, more);
    }
    Line { spans }
}

/// The bar as it is drawn: its frame with a title at each side and, where there is room, a line.
pub struct BarPaint {
    pub left: Line,
    pub right: Line,
    pub border: Style,
    pub look: Style,
    pub inner: Option<(Rect, Line)>,
}

pub fn render(b: &BarState, stats: &SystemStats, theme: &Theme, area: Rect) -> (r: BarPaint)
    ensures
        r.left@ == seq![
            style::piece("FOCUS: "@ + b.focus_title@, Style::plain().fg(theme.foreground).dim()),
        ],
        r.right@ == metrics(*b, *stats, *theme),
        r.border == Style::plain().fg(theme.border),
        r.look == Style::plain().bg(theme.background).fg(theme.foreground),
        match r.inner {
            Some(p) => area.height >= 3 && p.0 == geometry::inside(area) && p.1@ == seq![
                style::piece("FOCUS"@, Style::plain().fg(theme.title_focused).bold()),
            ],
            None => area.height < 3,
        },
{
    let inner: Option<(Rect, Line)> = if area.height < 3 {
        None
    } else {
        Some(
            (
                geometry::inner(area),
                style::single(
                    text::copy("FOCUS"),
                    Style::plain().fg(theme.title_focused).bold(),
                ),
            ),
        )
    };
    BarPaint {
        left: style::single(
            text::cat2("FOCUS: ", b.focus_title.as_str()),
            Style::plain().fg(theme.foreground).dim(),
        ),
        right: build_metrics_line(b, stats, theme),
        border: Style::plain().fg(theme.border),
        look: Style::plain().bg(theme.background).fg(theme.foreground),
        inner,
    }
}

} // verus!
