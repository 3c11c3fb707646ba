//! Redundant-redraw suppression and the consumer's per-tick sequence.
//!
//! The frame pacer fires unconditionally, even during silence; without a
//! filter every tick would force a full redraw. `RedrawFilter` remembers
//! the last frame actually drawn and lets a request through exactly when
//! it carries an external reason (a resize or an explicit repaint) or when
//! the levels or the geometry changed. `render_tick` runs one redraw
//! opportunity in the order the consumer owes: drain, map, filter.

use vstd::prelude::*;
use crate::geometry::{bars_spec, grid_spec, BarGeometry, GridLines};
use crate::peak::{zero_levels, PeakBuffer};

verus! {

/// Last-rendered levels and bar geometry, used only to suppress redundant
/// pacer-triggered redraws; overwritten whenever a frame is actually
/// drawn.
pub struct RedrawFilter {
    prev_levels: Vec<u32>,
    prev_bars: Vec<BarGeometry>,
}

/// Whether a request must be drawn: it carries an external reason, or the
/// levels or the geometry differ from the last drawn frame.
pub open spec fn must_draw(
    filter: RedrawFilter,
    levels: Seq<u32>,
    bars: Seq<BarGeometry>,
    reasoned: bool,
) -> bool {
    reasoned || levels != filter.last_levels() || bars != filter.last_bars()
}

/// The suppression rule in both directions: a request that carries an
/// external reason is never suppressed, and a bare pacer tick is
/// suppressed exactly when both the levels and the geometry match the
/// last drawn frame.
pub proof fn lemma_suppression_rule(filter: RedrawFilter, levels: Seq<u32>, bars: Seq<BarGeometry>)
    ensures
        must_draw(filter, levels, bars, true),
        !must_draw(filter, levels, bars, false) <==> (levels == filter.last_levels()
            && bars == filter.last_bars()),
{
}

fn levels_eq(a: &Vec<u32>, b: &Vec<u32>) -> (r: bool)
    ensures
        r == (a@ == b@),
{
    if a.len() != b.len() {
        return false;
    }
    let mut i: usize = 0;
    while i < a.len()
        invariant
            i <= a@.len(),
            a@.len() == b@.len(),
            forall|j: int| 0 <= j < i ==> a@[j] == b@[j],
        decreases a@.len() - i,
    {
        if a[i] != b[i] {
            return false;
        }
        i = i + 1;
    }
    proof {
        assert(a@ =~= b@);
    }
    true
}

fn bars_eq(a: &Vec<BarGeometry>, b: &Vec<BarGeometry>) -> (r: bool)
    ensures
        r == (a@ == b@),
{
    if a.len() != b.len() {
        return false;
    }
    let mut i: usize = 0;
    while i < a.len()
        invariant
            i <= a@.len(),
            a@.len() == b@.len(),
            forall|j: int| 0 <= j < i ==> a@[j] == b@[j],
        decreases a@.len() - i,
    {
        if !(a[i] == b[i]) {
            return false;
        }
        i = i + 1;
    }
    proof {
        assert(a@ =~= b@);
    }
    true
}

fn copy_levels(v: &Vec<u32>) -> (r: Vec<u32>)
    ensures
        r@ == v@,
{
    let mut out: Vec<u32> = Vec::new();
    let mut i: usize = 0;
    while i < v.len()
        invariant
            i <= v@.len(),
            out@ == v@.take(i as int),
        decreases v@.len() - i,
    {
        out.push(v[i]);
        proof {
            assert(v@.take(i + 1) =~= v@.take(i as int).push(v@[i as int]));
        }
        i = i + 1;
    }
    proof {
        assert(v@.take(v@.len() as int) =~= v@);
    }
    out
}

fn copy_bars(v: &Vec<BarGeometry>) -> (r: Vec<BarGeometry>)
    ensures
        r@ == v@,
{
    let mut out: Vec<BarGeometry> = Vec::new();
    let mut i: usize = 0;
    while i < v.len()
        invariant
            i <= v@.len(),
            out@ == v@.take(i as int),
        decreases v@.len() - i,
    {
        out.push(v[i]);
        proof {
            assert(v@.take(i + 1) =~= v@.take(i as int).push(v@[i as int]));
        }
        i = i + 1;
    }
    proof {
        assert(v@.take(v@.len() as int) =~= v@);
    }
    out
}

impl RedrawFilter {
    /// The levels of the last frame that was actually drawn.
    pub closed spec fn last_levels(self) -> Seq<u32> {
        self.prev_levels@
    }

    /// The bar geometry of the last frame that was actually drawn.
    pub closed spec fn last_bars(self) -> Seq<BarGeometry> {
        self.prev_bars@
    }

    /// A filter that has drawn nothing yet, so the first request always
    /// passes (a real level vector is never empty).
    pub fn new() -> (r: RedrawFilter)
        ensures
            r.last_levels() == Seq::<u32>::empty(),
            r.last_bars() == Seq::<BarGeometry>::empty(),
    {
        RedrawFilter { prev_levels: Vec::new(), prev_bars: Vec::new() }
    }

    /// Decide one redraw request: drawing is owed exactly when the request
    /// carries an external reason or when the levels or the geometry
    /// changed since the last drawn frame. When drawing is owed the new
    /// frame is remembered; a suppressed request changes nothing.
    pub fn submit(
        &mut self,
        levels: &Vec<u32>,
        bars: &Vec<BarGeometry>,
        reasoned: bool,
    ) -> (draw: bool)
        ensures
            draw == must_draw(*old(self), levels@, bars@, reasoned),
            draw ==> final(self).last_levels() == levels@ && final(self).last_bars() == bars@,
            !draw ==> *final(self) == *old(self),
    {
        let unchanged = levels_eq(levels, &self.prev_levels) && bars_eq(bars, &self.prev_bars);
        if reasoned || !unchanged {
            self.prev_levels = copy_levels(levels);
            self.prev_bars = copy_bars(bars);
            true
        } else {
            false
        }
    }
}

/// One consumer tick's verified output: the peaks drained from the shared
/// buffer, the geometry mapped from them, and the grid.
pub struct Frame {
    pub levels: Vec<u32>,
    pub bars: Vec<BarGeometry>,
    pub grid: GridLines,
}

/// One redraw opportunity, strictly in the order the consumer owes:
/// drain the shared peaks, map them to geometry, then filter. Returns the
/// frame to draw, or `None` when a bare pacer tick found nothing changed
/// since the last drawn frame. The buffer is reset to zero either way, so
/// the next tick reports only what arrives after this one.
pub fn render_tick(
    buf: &mut PeakBuffer,
    filter: &mut RedrawFilter,
    width: u16,
    height: u16,
    reasoned: bool,
) -> (frame: Option<Frame>)
    requires
        0 < old(buf)@.len() <= u32::MAX,
        width >= 1,
        height >= 1,
    ensures
        final(buf)@ == zero_levels(old(buf)@.len()),
        frame is Some <==> must_draw(
            *old(filter),
            old(buf)@,
            bars_spec(old(buf)@, width as int, height as int),
            reasoned,
        ),
        frame matches Some(f) ==> {
            &&& f.levels@ == old(buf)@
            &&& f.bars@ == bars_spec(old(buf)@, width as int, height as int)
            &&& forall|i: int| 0 <= i < f.bars@.len() ==> (#[trigger] f.bars@[i]).wf()
            &&& f.grid == grid_spec(height as int)
            &&& final(filter).last_levels() == f.levels@
            &&& final(filter).last_bars() == f.bars@
        },
        frame is None ==> *final(filter) == *old(filter),
{
    let levels = buf.drain();
    let (bars, grid) = crate::geometry::map(&levels, width, height);
    let draw = filter.submit(&levels, &bars, reasoned);
    if draw {
        Some(Frame { levels, bars, grid })
    } else {
        None
    }
}

} // verus!
