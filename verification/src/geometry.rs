//! The level-to-geometry mapping: one vertical bar per channel, split into
//! four color bands by five breakpoints, plus six static horizontal grid
//! lines.
//!
//! All vertical positions come from `interp_f` over the window height; the
//! horizontal channel slots come from `interp_i` over the window width.
//! Levels at or above the 0.7 threshold expose the med band, levels at or
//! above the 0.9 threshold expose the high band as well; below 0.7 the bar
//! is a single color. Levels above full scale saturate at the window top.

use vstd::prelude::*;
use crate::interp::{
    interp_f, interp_f_spec, interp_i, interp_i_spec, lemma_interp_f_between,
    lemma_interp_f_monotone, lemma_interp_i_between, lemma_interp_i_partition, COORD_LIMIT,
    LEVEL_SCALE,
};

verus! {

/// Fixed-point level at which the med color band appears (0.7 of full scale).
pub const MED_THRESHOLD: u32 = 7000;

/// Fixed-point level at which the high color band appears (0.9 of full scale).
pub const HIGH_THRESHOLD: u32 = 9000;

/// One channel's bar: its horizontal pixel span and the five vertical
/// breakpoints that separate the background, high, med and low bands.
#[derive(Clone, Copy, PartialEq, Eq, Structural, Debug)]
pub struct BarGeometry {
    pub x_left: u32,
    pub x_right: u32,
    pub y0: u32,
    pub y1: u32,
    pub y2: u32,
    pub y3: u32,
    pub y4: u32,
}

impl BarGeometry {
    /// Breakpoint `i` of the five, top of the window first.
    pub open spec fn y_at(self, i: int) -> u32 {
        if i <= 0 {
            self.y0
        } else if i == 1 {
            self.y1
        } else if i == 2 {
            self.y2
        } else if i == 3 {
            self.y3
        } else {
            self.y4
        }
    }

    /// Well-formed: the span is ordered and the breakpoints never invert.
    pub open spec fn wf(self) -> bool {
        &&& self.x_left <= self.x_right <= COORD_LIMIT
        &&& self.y0 <= self.y1 <= self.y2 <= self.y3 <= self.y4 <= COORD_LIMIT
    }

    /// Breakpoint `i` of the five, top of the window first.
    pub fn breakpoint(&self, i: usize) -> (r: u32)
        requires
            i < 5,
        ensures
            r == self.y_at(i as int),
    {
        if i == 0 {
            self.y0
        } else if i == 1 {
            self.y1
        } else if i == 2 {
            self.y2
        } else if i == 3 {
            self.y3
        } else {
            self.y4
        }
    }
}

/// A level clamped to full scale: levels above 1.0 saturate visually at
/// the top of the bar.
pub open spec fn clamped(level: u32) -> int {
    if level > LEVEL_SCALE {
        LEVEL_SCALE as int
    } else {
        level as int
    }
}

/// The peak row of a bar: the window bottom (`height`) at level 0, the
/// window top (0) at full scale.
pub open spec fn peak_y_spec(height: int, t: int) -> int {
    interp_f_spec(height, 0, t)
}

/// The second breakpoint below the peak: the high-band boundary when the
/// level reaches the high threshold, else collapsed onto the peak.
pub open spec fn band2_y_spec(height: int, t: int) -> int {
    if t >= HIGH_THRESHOLD {
        interp_f_spec(height, 0, HIGH_THRESHOLD as int)
    } else {
        peak_y_spec(height, t)
    }
}

/// The third breakpoint below the peak: the med-band boundary when the
/// level reaches the med threshold, else collapsed onto the peak.
pub open spec fn band3_y_spec(height: int, t: int) -> int {
    if t >= MED_THRESHOLD {
        interp_f_spec(height, 0, MED_THRESHOLD as int)
    } else {
        peak_y_spec(height, t)
    }
}

/// Band breakpoints never invert: for any level in `[0, 1]` the five
/// breakpoints run non-decreasing from the window top to one past its
/// bottom row, so no band has negative height.
pub proof fn lemma_breakpoints_ordered(height: int, t: int)
    requires
        1 <= height <= COORD_LIMIT,
        0 <= t <= LEVEL_SCALE,
    ensures
        0 <= peak_y_spec(height, t),
        peak_y_spec(height, t) <= band2_y_spec(height, t),
        band2_y_spec(height, t) <= band3_y_spec(height, t),
        band3_y_spec(height, t) <= height,
{
    lemma_interp_f_between(height, 0, t);
    lemma_interp_f_between(height, 0, MED_THRESHOLD as int);
    lemma_interp_f_between(height, 0, HIGH_THRESHOLD as int);
    if t >= HIGH_THRESHOLD {
        lemma_interp_f_monotone(height, 0, HIGH_THRESHOLD as int, t);
        lemma_interp_f_monotone(height, 0, MED_THRESHOLD as int, HIGH_THRESHOLD as int);
    } else if t >= MED_THRESHOLD {
        lemma_interp_f_monotone(height, 0, MED_THRESHOLD as int, t);
    }
}

/// The bar the mapper owes channel `index` of `channels` for one level, at
/// one window size.
pub open spec fn bar_spec(level: u32, index: int, channels: int, width: int, height: int)
    -> BarGeometry {
    BarGeometry {
        x_left: interp_i_spec(0, width - 1, index, channels) as u32,
        x_right: interp_i_spec(0, width - 1, index + 1, channels) as u32,
        y0: 0,
        y1: peak_y_spec(height, clamped(level)) as u32,
        y2: band2_y_spec(height, clamped(level)) as u32,
        y3: band3_y_spec(height, clamped(level)) as u32,
        y4: height as u32,
    }
}

/// Every bar the mapper describes is well-formed.
pub proof fn lemma_bar_spec_wf(level: u32, index: int, channels: int, width: int, height: int)
    requires
        0 < channels,
        0 <= index < channels,
        1 <= width <= COORD_LIMIT,
        1 <= height <= COORD_LIMIT,
    ensures
        bar_spec(level, index, channels, width, height).wf(),
{
    lemma_interp_i_between(0, width - 1, index, channels);
    lemma_interp_i_between(0, width - 1, index + 1, channels);
    lemma_interp_i_partition(0, width - 1, index, index + 1, channels);
    lemma_breakpoints_ordered(height, clamped(level));
}

/// The bar for one channel: x span from its slot of the window width,
/// breakpoints from its clamped level against the two color thresholds.
pub fn bar_for_level(level: u32, index: usize, channels: usize, width: u16, height: u16)
    -> (bar: BarGeometry)
    requires
        0 < channels <= u32::MAX,
        index < channels,
        width >= 1,
        height >= 1,
    ensures
        bar == bar_spec(level, index as int, channels as int, width as int, height as int),
        bar.wf(),
{
    proof {
        lemma_bar_spec_wf(level, index as int, channels as int, width as int, height as int);
        lemma_interp_i_between(0, width as int - 1, index as int, channels as int);
        lemma_interp_i_between(0, width as int - 1, index as int + 1, channels as int);
        lemma_breakpoints_ordered(height as int, clamped(level));
    }
    let t = if level > LEVEL_SCALE {
        LEVEL_SCALE
    } else {
        level
    };
    let h = height as u32;
    let x_left = interp_i(0, width as u32 - 1, index, channels);
    let x_right = interp_i(0, width as u32 - 1, index + 1, channels);
    let y1 = interp_f(h, 0, t);
    let y2 = if t >= HIGH_THRESHOLD {
        interp_f(h, 0, HIGH_THRESHOLD)
    } else {
        y1
    };
    let y3 = if t >= MED_THRESHOLD {
        interp_f(h, 0, MED_THRESHOLD)
    } else {
        y1
    };
    BarGeometry { x_left, x_right, y0: 0, y1, y2, y3, y4: h }
}

/// The six static horizontal grid lines, named by the normalized height
/// fraction each sits at. They are drawn in four color groups: 0.25 and
/// 0.50 as the low pair, 0.70 and 0.83 as the first med pair, 0.90 as the
/// second med line, 0.96 as the high line.
#[derive(Clone, Copy, PartialEq, Eq, Structural, Debug)]
pub struct GridLines {
    pub y25: u32,
    pub y50: u32,
    pub y70: u32,
    pub y83: u32,
    pub y90: u32,
    pub y96: u32,
}

/// A grid row: the fraction applied to the window's bottom row
/// (`height - 1`), so the 0.0 fraction would sit on the bottom row and
/// 1.0 on the top row.
pub open spec fn grid_y_spec(height: int, frac: int) -> int {
    interp_f_spec(height - 1, 0, frac)
}

/// The grid for one window height.
pub open spec fn grid_spec(height: int) -> GridLines {
    GridLines {
        y25: grid_y_spec(height, 2500) as u32,
        y50: grid_y_spec(height, 5000) as u32,
        y70: grid_y_spec(height, 7000) as u32,
        y83: grid_y_spec(height, 8300) as u32,
        y90: grid_y_spec(height, 9000) as u32,
        y96: grid_y_spec(height, 9600) as u32,
    }
}

/// The six grid lines for a window height; independent of the levels, so
/// they need recomputing only when the height changes.
pub fn grid_lines(height: u16) -> (g: GridLines)
    requires
        height >= 1,
    ensures
        g == grid_spec(height as int),
{
    let top = height as u32 - 1;
    proof {
        lemma_interp_f_between(top as int, 0, 2500);
        lemma_interp_f_between(top as int, 0, 5000);
        lemma_interp_f_between(top as int, 0, 7000);
        lemma_interp_f_between(top as int, 0, 8300);
        lemma_interp_f_between(top as int, 0, 9000);
        lemma_interp_f_between(top as int, 0, 9600);
    }
    GridLines {
        y25: interp_f(top, 0, 2500),
        y50: interp_f(top, 0, 5000),
        y70: interp_f(top, 0, 7000),
        y83: interp_f(top, 0, 8300),
        y90: interp_f(top, 0, 9000),
        y96: interp_f(top, 0, 9600),
    }
}

/// The bar list the mapper owes for these levels at this window size.
pub open spec fn bars_spec(levels: Seq<u32>, width: int, height: int) -> Seq<BarGeometry> {
    Seq::new(levels.len(), |i: int| bar_spec(levels[i], i, levels.len() as int, width, height))
}

/// Map drained levels and the window size to per-channel bar geometry and
/// the grid lines. Both components are pinned to functions of the
/// arguments alone, so identical inputs always give identical outputs.
pub fn map(levels: &Vec<u32>, width: u16, height: u16) -> (r: (Vec<BarGeometry>, GridLines))
    requires
        0 < levels@.len() <= u32::MAX,
        width >= 1,
        height >= 1,
    ensures
        r.0@ == bars_spec(levels@, width as int, height as int),
        forall|i: int| 0 <= i < levels@.len() ==> (#[trigger] r.0@[i]).wf(),
        r.1 == grid_spec(height as int),
{
    let n = levels.len();
    let mut bars: Vec<BarGeometry> = Vec::new();
    let mut i: usize = 0;
    while i < n
        invariant
            i <= n,
            n == levels@.len(),
            0 < n <= u32::MAX,
            width >= 1,
            height >= 1,
            bars@.len() == i,
            forall|j: int|
                0 <= j < i ==> #[trigger] bars@[j] == bar_spec(
                    levels@[j],
                    j,
                    n as int,
                    width as int,
                    height as int,
                ),
            forall|j: int| 0 <= j < i ==> (#[trigger] bars@[j]).wf(),
        decreases n - i,
    {
        let bar = bar_for_level(levels[i], i, n, width, height);
        bars.push(bar);
        i = i + 1;
    }
    proof {
        assert(bars@ =~= bars_spec(levels@, width as int, height as int));
    }
    let grid = grid_lines(height);
    (bars, grid)
}

/// An axis-aligned pixel rectangle.
#[derive(Clone, Copy, PartialEq, Eq, Structural, Debug)]
pub struct Rect {
    pub x: u32,
    pub y: u32,
    pub width: u32,
    pub height: u32,
}

/// The rectangle with corners `(x0, y0)` and `(x1, y1)` inclusive, or
/// `None` when either extent would be negative.
pub open spec fn rect_spec(x0: int, x1: int, y0: int, y1: int) -> Option<Rect> {
    if x0 <= x1 && y0 <= y1 {
        Some(
            Rect {
                x: x0 as u32,
                y: y0 as u32,
                width: (x1 - x0 + 1) as u32,
                height: (y1 - y0 + 1) as u32,
            },
        )
    } else {
        None
    }
}

/// The rectangle spanning `(x0, y0)` to `(x1, y1)` inclusive, if both
/// extents are non-negative.
pub fn rect(x0: u32, x1: u32, y0: u32, y1: u32) -> (r: Option<Rect>)
    requires
        x1 <= COORD_LIMIT,
        y1 <= COORD_LIMIT,
    ensures
        r == rect_spec(x0 as int, x1 as int, y0 as int, y1 as int),
{
    if x1 >= x0 && y1 >= y0 {
        Some(Rect { x: x0, y: y0, width: x1 - x0 + 1, height: y1 - y0 + 1 })
    } else {
        None
    }
}

/// The filled rectangle of one color band of one bar, if the band has any
/// rows: band `k` covers the rows from breakpoint `k` down to one row
/// above breakpoint `k + 1`.
pub open spec fn band_rect_spec(bar: BarGeometry, band: int) -> Option<Rect> {
    rect_spec(
        bar.x_left as int,
        bar.x_right as int,
        bar.y_at(band) as int,
        bar.y_at(band + 1) - 1,
    )
}

/// The rectangles of one color band, one per channel where that band has
/// any rows, in channel order.
pub open spec fn band_rects_spec(bars: Seq<BarGeometry>, band: int) -> Seq<Rect>
    decreases bars.len(),
{
    if bars.len() == 0 {
        Seq::empty()
    } else {
        band_rects_spec(bars.drop_last(), band) + match band_rect_spec(bars.last(), band) {
            Some(r) => seq![r],
            None => Seq::empty(),
        }
    }
}

/// The fill rectangles of color band `band` (0 background, 1 high, 2 med,
/// 3 low) over all channels, in channel order; a channel contributes one
/// rectangle exactly when the band has at least one row there.
pub fn band_rects(bars: &Vec<BarGeometry>, band: usize) -> (r: Vec<Rect>)
    requires
        band < 4,
        forall|i: int| 0 <= i < bars@.len() ==> (#[trigger] bars@[i]).wf(),
    ensures
        r@ == band_rects_spec(bars@, band as int),
{
    let mut out: Vec<Rect> = Vec::new();
    let mut i: usize = 0;
    while i < bars.len()
        invariant
            i <= bars@.len(),
            band < 4,
            forall|j: int| 0 <= j < bars@.len() ==> (#[trigger] bars@[j]).wf(),
            out@ == band_rects_spec(bars@.take(i as int), band as int),
        decreases bars@.len() - i,
    {
        let bar = bars[i];
        let top = bar.breakpoint(band);
        let bot = bar.breakpoint(band + 1);
        if bot > top {
            out.push(
                Rect {
                    x: bar.x_left,
                    y: top,
                    width: bar.x_right - bar.x_left + 1,
                    height: bot - top,
                },
            );
        }
        proof {
            assert(bars@.take(i + 1).drop_last() =~= bars@.take(i as int));
            assert(bars@.take(i + 1).last() == bars@[i as int]);
        }
        i = i + 1;
    }
    proof {
        assert(bars@.take(bars@.len() as int) =~= bars@);
    }
    out
}

} // verus!
