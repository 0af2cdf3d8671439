//! Screen geometry: the three bands of the dashboard, computed by ratatui's
//! layout solver, and the rows and legend line inside the tube chart.
use vstd::prelude::*;
use ratatui::layout::{Constraint, Layout, Rect};
use ratatui::widgets::{Block, Borders};

verus! {

/// A rectangle of terminal cells: its top-left column and row, its width
/// and its height.
#[derive(Clone, Copy, Debug, PartialEq, Eq, Structural)]
pub struct Area {
    pub x: u16,
    pub y: u16,
    pub width: u16,
    pub height: u16,
}

/// A size rule for one band of a layout.
#[derive(Clone, Copy, Debug)]
pub enum Extent {
    /// Exactly this many cells.
    Length(u16),
    /// At least this many cells.
    Min(u16),
}

/// `band` lies within the rows of `area`: it keeps the column and width
/// of `area`, starts at or below its top row and ends at or above its
/// bottom edge (`area.y + area.height`, saturating).
pub open spec fn band_within(band: Area, area: Area) -> bool {
    &&& band.x == area.x
    &&& band.width == area.width
    &&& area.y <= band.y
    &&& band.y + band.height <= sat_add(area.y, area.height)
}

/// The number of cells that a size rule names.
pub open spec fn extent_cells(e: Extent) -> u16 {
    match e {
        Extent::Length(n) => n,
        Extent::Min(n) => n,
    }
}

/// The rules are a fixed band, a growing band and a fixed band, and `area`
/// has room for all three at their sizes (and its bottom edge does not
/// overflow).
pub open spec fn roomy_three_bands(area: Area, extents: Seq<Extent>) -> bool {
    &&& extents.len() == 3
    &&& extents[0] is Length
    &&& extents[1] is Min
    &&& extents[2] is Length
    &&& extent_cells(extents[0]) + extent_cells(extents[1]) + extent_cells(extents[2]) <= area.height
    &&& area.y + area.height <= u16::MAX
}

/// `area` cut into a top band of `top` rows, a bottom band of `bottom`
/// rows, and the rows between them, stacked from the top.
pub open spec fn stacked_bands(area: Area, top: u16, bottom: u16) -> Seq<Area> {
    seq![
        Area { height: top, ..area },
        Area { y: (area.y + top) as u16, height: (area.height - top - bottom) as u16, ..area },
        Area { y: (area.y + area.height - bottom) as u16, height: bottom, ..area },
    ]
}

/// The bands of `area` under the size rules `extents`: ratatui's
/// `Layout::vertical(extents).split(area)` (default flex: start). Stated of
/// it: one band per rule, each within `area` (the solver's required
/// constraints keep every band edge between the area's top and bottom, and
/// each band's start at or above its end; the result keeps the area's
/// column and width). And for a fixed, a growing and a fixed band on an
/// area with room for all three: the fixed bands get their lengths at the
/// top and the bottom, and the growing band all rows between (there every
/// strong constraint holds, and the growing band's pull outweighs that of
/// the trailing space, so this is the solver's only optimum). Left unsaid:
/// the rows on a smaller area, where several answers are equally good and
/// the solver's choice can differ from one solve to the next.
#[verifier::external_body]
fn split_vertical(area: Area, extents: &[Extent]) -> (r: Vec<Area>)
    ensures
        r@.len() == extents@.len(),
        forall|i: int| 0 <= i < r@.len() ==> band_within(#[trigger] r@[i], area),
        roomy_three_bands(area, extents@) ==> r@ == stacked_bands(
            area,
            extent_cells(extents@[0]),
            extent_cells(extents@[2]),
        ),
{
    let constraints: Vec<Constraint> = extents.iter().map(|e| match *e {
        Extent::Length(n) => Constraint::Length(n),
        Extent::Min(n) => Constraint::Min(n),
    }).collect();
    let rect = Rect { x: area.x, y: area.y, width: area.width, height: area.height };
    let bands = Layout::vertical(constraints).split(rect);
    bands.iter().map(|b| Area { x: b.x, y: b.y, width: b.width, height: b.height }).collect()
}

/// The dashboard's three bands on a screen of at least 14 rows: the top
/// bar's first 4 rows, the bottom panel's last 5, and the tube chart's rows
/// between them.
pub open spec fn roomy_screen_bands(area: Area) -> Seq<Area> {
    stacked_bands(area, 4, 5)
}

/// The dashboard's three bands of `area`, as ratatui's layout solver cuts
/// them: a top bar of 4 rows, the tube chart of at least 5 rows and a
/// bottom panel of 5 rows, each within `area`; on a screen of at least 14
/// rows, exactly `roomy_screen_bands`.
pub fn screen_areas(area: Area) -> (r: (Area, Area, Area))
    ensures
        band_within(r.0, area),
        band_within(r.1, area),
        band_within(r.2, area),
        area.height >= 14 && area.y + area.height <= u16::MAX ==> r.0 == roomy_screen_bands(area)[0]
            && r.1 == roomy_screen_bands(area)[1] && r.2 == roomy_screen_bands(area)[2],
{
    let extents: [Extent; 3] = [Extent::Length(4), Extent::Min(5), Extent::Length(5)];
    let bands = split_vertical(area, &extents);
    assert(extents@[0] == Extent::Length(4) && extents@[1] == Extent::Min(5) && extents@[2]
        == Extent::Length(5));
    assert(band_within(bands@[0], area));
    assert(band_within(bands@[1], area));
    assert(band_within(bands@[2], area));
    (bands[0], bands[1], bands[2])
}

/// `a + b`, or `u16::MAX` when that overflows.
pub open spec fn sat_add(a: u16, b: u16) -> u16 {
    if a + b > u16::MAX {
        u16::MAX
    } else {
        (a + b) as u16
    }
}

/// `a - b`, or 0 when that underflows.
pub open spec fn sat_sub(a: u16, b: u16) -> u16 {
    if a >= b {
        (a - b) as u16
    } else {
        0
    }
}

/// The inside of a titled block without padding over `area`, whose
/// borders are on the top, right, bottom and left sides as the flags say:
/// each border takes one row or column, and the title takes the top row
/// whether or not there is a top border.
pub open spec fn titled_block_inner(area: Area, top: bool, right: bool, bottom: bool, left: bool) -> Area {
    let x1 = if left {
        let r = sat_add(area.x, area.width);
        let x = sat_add(area.x, 1);
        if x < r { x } else { r }
    } else {
        area.x
    };
    let w1 = if left { sat_sub(area.width, 1) } else { area.width };
    let y1 = {
        let b = sat_add(area.y, area.height);
        let y = sat_add(area.y, 1);
        if y < b { y } else { b }
    };
    let h1 = sat_sub(area.height, 1);
    let w2 = if right { sat_sub(w1, 1) } else { w1 };
    let h2 = if bottom { sat_sub(h1, 1) } else { h1 };
    Area { x: x1, y: y1, width: w2, height: h2 }
}

/// The inside of a block with the borders `borders` (ratatui's `Borders`
/// bits: top 1, right 2, bottom 4, left 8) and the title `title`, over
/// `area`: ratatui's `Block::inner`, which this contract states in full
/// for a block without padding.
#[verifier::external_body]
fn block_inner(area: Area, borders: u8, title: &str) -> (r: Area)
    ensures
        r == titled_block_inner(
            area,
            borders & 1 != 0,
            borders & 2 != 0,
            borders & 4 != 0,
            borders & 8 != 0,
        ),
{
    let block = Block::default().borders(Borders::from_bits_truncate(borders)).title(title);
    let rect = Rect { x: area.x, y: area.y, width: area.width, height: area.height };
    let inner = block.inner(rect);
    Area { x: inner.x, y: inner.y, width: inner.width, height: inner.height }
}

/// Where the tube chart draws inside its band.
pub struct ChartAreas {
    /// Inside the band's block.
    pub inner: Area,
    /// The rows of tubes: all of `inner` but its last row.
    pub rows: Area,
    /// The legend: the row below `rows`.
    pub legend: Area,
}

/// The inside of the tube chart's block (a bottom border and a title).
pub open spec fn chart_inner(band: Area) -> Area {
    titled_block_inner(band, false, false, true, false)
}

/// The areas of the tube chart in its band: inside the block, the rows of
/// tubes take all rows but the last, which holds the legend.
pub fn chart_areas(band: Area) -> (r: ChartAreas)
    requires
        chart_inner(band).y + sat_sub(chart_inner(band).height, 1) <= u16::MAX,
    ensures
        r.inner == chart_inner(band),
        r.rows == (Area { height: sat_sub(r.inner.height, 1), ..r.inner }),
        r.legend == (Area { y: (r.inner.y + sat_sub(r.inner.height, 1)) as u16, height: 1, ..r.inner }),
{
    let inner = block_inner(band, 4u8, " Tubes ");
    assert(4u8 & 1u8 == 0 && 4u8 & 2u8 == 0 && 4u8 & 4u8 != 0 && 4u8 & 8u8 == 0) by (bit_vector);
    let rows_height: u16 = if inner.height >= 1 {
        inner.height - 1
    } else {
        0
    };
    let rows = Area { height: rows_height, ..inner };
    let legend = Area { y: inner.y + rows_height, height: 1, ..inner };
    ChartAreas { inner, rows, legend }
}

/// A band that ends within the screen leaves room for the chart's legend
/// row.
proof fn lemma_chart_fits(band: Area)
    requires
        band.y + band.height <= u16::MAX,
    ensures
        chart_inner(band).y + sat_sub(chart_inner(band).height, 1) <= u16::MAX,
{
}

/// Where everything of the dashboard goes on a screen of `area`.
pub struct Screen {
    /// The top bar's band.
    pub top: Area,
    /// The tube chart's band.
    pub chart: Area,
    /// The tube chart's areas inside its band.
    pub chart_parts: ChartAreas,
    /// The bottom panel's band.
    pub bottom: Area,
}

/// The dashboard's bands of `area`, and the tube chart's areas inside its
/// band.
pub fn screen_layout(area: Area) -> (r: Screen)
    ensures
        band_within(r.top, area),
        band_within(r.chart, area),
        band_within(r.bottom, area),
        area.height >= 14 && area.y + area.height <= u16::MAX ==> r.top == roomy_screen_bands(area)[0]
            && r.chart == roomy_screen_bands(area)[1] && r.bottom == roomy_screen_bands(area)[2],
        r.chart_parts.inner == chart_inner(r.chart),
        r.chart_parts.rows == (Area { height: sat_sub(r.chart_parts.inner.height, 1), ..r.chart_parts.inner }),
        r.chart_parts.legend == (Area {
            y: (r.chart_parts.inner.y + sat_sub(r.chart_parts.inner.height, 1)) as u16,
            height: 1,
            ..r.chart_parts.inner
        }),
{
    let (top, chart, bottom) = screen_areas(area);
    proof {
        lemma_chart_fits(chart);
    }
    let chart_parts = chart_areas(chart);
    Screen { top, chart, chart_parts, bottom }
}

} // verus!
