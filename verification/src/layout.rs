//! How the screen is divided.

use crate::chart::ChartMetric;
use crate::mlx::strs;
use crate::panels::{table_headers_spec, TableMode};
use vstd::prelude::*;

verus! {

/// The heights of the parts of the overview.
#[derive(Clone, Copy, Debug, PartialEq, Eq, Structural)]
pub struct OverviewPlan {
    pub operations: u16,
    pub requests: u16,
    pub charts: u16,
    pub log: bool,
}

pub open spec fn overview_plan_spec(width: u16, height: u16) -> OverviewPlan {
    let operations: u16 = if width < 120 {
        10
    } else {
        12
    };
    let requests: u16 = if width < 120 {
        8
    } else {
        7
    };
    let charts: u16 = if height < 28 {
        6
    } else {
        8
    };
    OverviewPlan { operations, requests, charts, log: height >= operations + requests + charts + 4 }
}

/// How the overview is divided: the log is shown where it fits below the rest.
pub fn overview_plan(width: u16, height: u16) -> (plan: OverviewPlan)
    ensures
        plan == overview_plan_spec(width, height),
{
    let operations: u16 = if width < 120 {
        10
    } else {
        12
    };
    let requests: u16 = if width < 120 {
        8
    } else {
        7
    };
    let charts: u16 = if height < 28 {
        6
    } else {
        8
    };
    OverviewPlan { operations, requests, charts, log: height >= operations + requests + charts + 4 }
}

/// The margin on each side of something that takes a percentage of a width.
pub fn centred_margin(percent: u16) -> (margin: u16)
    requires
        percent <= 100,
    ensures
        margin == (100 - percent) / 2,
        2 * margin + percent <= 100,
{
    (100 - percent) / 2
}

/// What fits on a screen.
#[derive(Clone, Copy, Debug, PartialEq, Eq, Structural)]
pub enum ScreenSize {
    TooSmall,
    Stacked,
    Grid,
}

pub open spec fn screen_size_spec(width: u16, height: u16) -> ScreenSize {
    if width < 72 || height < 24 {
        ScreenSize::TooSmall
    } else if width >= 160 && height >= 34 {
        ScreenSize::Grid
    } else {
        ScreenSize::Stacked
    }
}

/// What fits on a screen; two rows of it go to the header.
pub fn screen_size(width: u16, height: u16) -> (result: ScreenSize)
    ensures
        result == screen_size_spec(width, height),
{
    if width < 72 || height < 24 {
        ScreenSize::TooSmall
    } else if width >= 160 && height >= 34 {
        ScreenSize::Grid
    } else {
        ScreenSize::Stacked
    }
}

/// The share of the screen that the help takes, across and down, in percent.
pub fn help_share(width: u16, height: u16) -> (result: (u16, u16))
    ensures
        result == if width < 120 || height < 36 {
            (94u16, 88u16)
        } else {
            (60u16, 58u16)
        },
{
    if width < 120 || height < 36 {
        (94, 88)
    } else {
        (60, 58)
    }
}

/// The height of an alert's banner, where there is room for it.
pub fn banner_height(width: u16, height: u16) -> (result: Option<u16>)
    ensures
        result == if height == 0 || width < 20 {
            None
        } else {
            Some(
                if height < 3 {
                    height
                } else {
                    3
                },
            )
        },
{
    if height == 0 || width < 20 {
        None
    } else {
        Some(
            if height < 3 {
                height
            } else {
                3
            },
        )
    }
}

pub open spec fn tab_labels_spec(width: u16) -> Seq<Seq<char>> {
    if width < 140 {
        seq!["1 OVR"@, "2 TOP"@, "3 JRN"@]
    } else {
        seq!["◉ Overview"@, "▥ MLX Top"@, "▤ Journal"@]
    }
}

/// The names of the tabs, shorter where the header is narrow.
pub fn tab_labels(width: u16) -> (labels: Vec<&'static str>)
    ensures
        strs(labels@) == tab_labels_spec(width),
{
    let labels: Vec<&'static str> = if width < 140 {
        vec!["1 OVR", "2 TOP", "3 JRN"]
    } else {
        vec!["◉ Overview", "▥ MLX Top", "▤ Journal"]
    };
    assert(strs(labels@) =~= tab_labels_spec(width));
    labels
}

/// The columns of the header that go to the name, to the tabs and to the keys:
/// at least, exactly, and at least.
pub fn header_widths(width: u16) -> (result: (u16, u16, u16))
    ensures
        result == if width < 140 {
            (17u16, 30u16, 18u16)
        } else {
            (25u16, 40u16, 40u16)
        },
{
    if width < 140 {
        (17, 30, 18)
    } else {
        (25, 40, 40)
    }
}

/// Whether an area is wide enough for cards side by side.
pub fn fits_cards(width: u16) -> (result: bool)
    ensures
        result == (width >= 120),
{
    width >= 120
}

/// The breadth of a column.
#[derive(Clone, Copy, Debug, PartialEq, Eq, Structural)]
pub enum Breadth {
    Exactly(u16),
    AtLeast(u16),
}

pub open spec fn table_widths_spec(mode: TableMode) -> Seq<Breadth> {
    match mode {
        TableMode::Wide => seq![
            Breadth::Exactly(8),
            Breadth::AtLeast(26),
            Breadth::Exactly(8),
            Breadth::Exactly(8),
            Breadth::Exactly(13),
            Breadth::Exactly(11),
            Breadth::Exactly(7),
            Breadth::Exactly(12),
            Breadth::AtLeast(22),
        ],
        TableMode::Medium => seq![
            Breadth::Exactly(7),
            Breadth::AtLeast(20),
            Breadth::Exactly(7),
            Breadth::Exactly(12),
            Breadth::Exactly(10),
            Breadth::Exactly(11),
            Breadth::AtLeast(16),
        ],
        TableMode::Narrow => seq![
            Breadth::Exactly(7),
            Breadth::AtLeast(22),
            Breadth::Exactly(7),
            Breadth::Exactly(12),
            Breadth::Exactly(11),
        ],
    }
}

/// The columns of the table of processes.
pub fn table_widths(mode: TableMode) -> (widths: Vec<Breadth>)
    ensures
        widths@ == table_widths_spec(mode),
{
    let widths: Vec<Breadth> = match mode {
        TableMode::Wide => vec![
            Breadth::Exactly(8),
            Breadth::AtLeast(26),
            Breadth::Exactly(8),
            Breadth::Exactly(8),
            Breadth::Exactly(13),
            Breadth::Exactly(11),
            Breadth::Exactly(7),
            Breadth::Exactly(12),
            Breadth::AtLeast(22),
        ],
        TableMode::Medium => vec![
            Breadth::Exactly(7),
            Breadth::AtLeast(20),
            Breadth::Exactly(7),
            Breadth::Exactly(12),
            Breadth::Exactly(10),
            Breadth::Exactly(11),
            Breadth::AtLeast(16),
        ],
        TableMode::Narrow => vec![
            Breadth::Exactly(7),
            Breadth::AtLeast(22),
            Breadth::Exactly(7),
            Breadth::Exactly(12),
            Breadth::Exactly(11),
        ],
    };
    assert(widths@ =~= table_widths_spec(mode));
    widths
}

/// A framed part of the screen.
#[derive(Clone, Copy, Debug, PartialEq, Eq, Structural)]
pub enum Panel {
    Operations,
    RecentJournal,
    ProcessMonitor,
    EventJournal,
    ProcessMemory,
    Queue,
}

pub open spec fn panel_title_spec(panel: Panel) -> Seq<char> {
    match panel {
        Panel::Operations => "LLM OPERATIONS · LIVE IMPACT"@,
        Panel::RecentJournal => "RECENT JOURNAL"@,
        Panel::ProcessMonitor => "PROCESS MONITOR · LIVE LLM WORKLOAD"@,
        Panel::EventJournal => "EVENT JOURNAL · IMPACT TIMELINE"@,
        Panel::ProcessMemory => "process memory"@,
        Panel::Queue => "queue"@,
    }
}

/// What stands above a framed part.
pub fn panel_title(panel: Panel) -> (result: &'static str)
    ensures
        result@ == panel_title_spec(panel),
{
    match panel {
        Panel::Operations => "LLM OPERATIONS · LIVE IMPACT",
        Panel::RecentJournal => "RECENT JOURNAL",
        Panel::ProcessMonitor => "PROCESS MONITOR · LIVE LLM WORKLOAD",
        Panel::EventJournal => "EVENT JOURNAL · IMPACT TIMELINE",
        Panel::ProcessMemory => "process memory",
        Panel::Queue => "queue",
    }
}

pub open spec fn chart_name_spec(metric: ChartMetric, grid: bool) -> Seq<char> {
    match metric {
        ChartMetric::Generation => "generation"@,
        ChartMetric::Prefill => "prefill"@,
        ChartMetric::Cache => "cache"@,
        ChartMetric::Gpu => "GPU"@,
        ChartMetric::Memory => if grid {
            "system memory"@
        } else {
            "memory"@
        },
        ChartMetric::Swap => "paging"@,
    }
}

/// The name of a chart, in the grid or in the strip of charts.
pub fn chart_name(metric: ChartMetric, grid: bool) -> (result: &'static str)
    ensures
        result@ == chart_name_spec(metric, grid),
{
    match metric {
        ChartMetric::Generation => "generation",
        ChartMetric::Prefill => "prefill",
        ChartMetric::Cache => "cache",
        ChartMetric::Gpu => "GPU",
        ChartMetric::Memory => if grid {
            "system memory"
        } else {
            "memory"
        },
        ChartMetric::Swap => "paging",
    }
}

pub open spec fn strip_spec() -> Seq<ChartMetric> {
    seq![
        ChartMetric::Generation,
        ChartMetric::Prefill,
        ChartMetric::Cache,
        ChartMetric::Gpu,
        ChartMetric::Memory,
        ChartMetric::Swap,
    ]
}

/// The charts of the strip, three in a row.
pub fn strip() -> (charts: Vec<ChartMetric>)
    ensures
        charts@ == strip_spec(),
{
    let charts: Vec<ChartMetric> = vec![
        ChartMetric::Generation,
        ChartMetric::Prefill,
        ChartMetric::Cache,
        ChartMetric::Gpu,
        ChartMetric::Memory,
        ChartMetric::Swap,
    ];
    assert(charts@ =~= strip_spec());
    charts
}

/// Every column of the table has its header and its breadth.
pub proof fn every_column_has_a_header(mode: TableMode)
    ensures
        table_widths_spec(mode).len() == table_headers_spec(mode).len(),
{
}


/// A larger screen never shows less: what fits fits on a larger one too, and the
/// smallest that anything fits on is 72 by 24.
pub proof fn larger_screens_never_show_less(width: u16, height: u16, more: u16, higher: u16)
    requires
        width <= more,
        height <= higher,
    ensures
        screen_size_spec(width, height) == ScreenSize::Grid ==> screen_size_spec(more, higher)
            == ScreenSize::Grid,
        screen_size_spec(width, height) == ScreenSize::Stacked ==> screen_size_spec(more, higher)
            != ScreenSize::TooSmall,
        screen_size_spec(width, height) == ScreenSize::TooSmall <==> !(width >= 72 && height >= 24),
        screen_size_spec(width, height) == ScreenSize::Grid <==> width >= 160 && height >= 34,
        overview_plan_spec(width, height).log ==> overview_plan_spec(width, higher).log
            || overview_plan_spec(width, higher).charts > overview_plan_spec(width, height).charts,
{
}

/// The log is shown exactly where room for four lines of it is left under the
/// other parts, and the parts are as high as they need at the breadth.
pub proof fn plans_fit_the_screen(width: u16, height: u16)
    ensures
        ({
            let plan = overview_plan_spec(width, height);
            &&& plan.log <==> height - plan.operations - plan.requests - plan.charts >= 4
            &&& plan.charts == 6 <==> height < 28
            &&& plan.charts == 8 <==> height >= 28
            &&& width < 120 ==> plan.operations == 10 && plan.requests == 8
            &&& width >= 120 ==> plan.operations == 12 && plan.requests == 7
        }),
{
}

/// Every figure has its own chart: the strip shows each of them once, and no two
/// charts have the same name.
pub proof fn every_figure_has_its_own_chart(a: ChartMetric, b: ChartMetric, grid: bool)
    ensures
        strip_spec().contains(a),
        strip_spec().no_duplicates(),
        chart_name_spec(a, grid) == chart_name_spec(b, grid) ==> a == b,
{
    let strip = strip_spec();
    assert(strip[0] == ChartMetric::Generation && strip[1] == ChartMetric::Prefill && strip[2]
        == ChartMetric::Cache && strip[3] == ChartMetric::Gpu && strip[4] == ChartMetric::Memory
        && strip[5] == ChartMetric::Swap);
    reveal_strlit("generation");
    reveal_strlit("prefill");
    reveal_strlit("cache");
    reveal_strlit("GPU");
    reveal_strlit("system memory");
    reveal_strlit("memory");
    reveal_strlit("paging");
    assert("generation"@[0] == 'g' && "prefill"@[0] == 'p' && "cache"@[0] == 'c');
    assert("GPU"@[0] == 'G' && "system memory"@[0] == 's' && "memory"@[0] == 'm');
    assert("paging"@[1] == 'a' && "prefill"@[1] == 'r' && "paging"@[0] == 'p');
}
} // verus!
