use vumeter::geometry::map as map_levels;
use vumeter::peak::PeakBuffer;
use vumeter::redraw::{render_tick, RedrawFilter};

#[test]
fn first_pacer_tick_draws_and_second_is_suppressed() {
    // Scenario: two consecutive pacer ticks with no accumulation between
    // them and no resize; the second produces no drawing at all.
    let mut buf = PeakBuffer::new(2);
    let mut filter = RedrawFilter::new();
    let first = render_tick(&mut buf, &mut filter, 108, 204, false);
    assert!(first.is_some());
    let second = render_tick(&mut buf, &mut filter, 108, 204, false);
    assert!(second.is_none());
}

#[test]
fn accumulation_between_ticks_forces_a_redraw() {
    let mut buf = PeakBuffer::new(2);
    let mut filter = RedrawFilter::new();
    assert!(render_tick(&mut buf, &mut filter, 108, 204, false).is_some());
    buf.accumulate(&vec![4000, 0]);
    let frame = render_tick(&mut buf, &mut filter, 108, 204, false).unwrap();
    assert_eq!(frame.levels, vec![4000, 0]);
    // The tick drained the buffer, so the one after is silent again and,
    // being a bare pacer tick, suppressed.
    assert!(render_tick(&mut buf, &mut filter, 108, 204, false).is_some());
    assert!(render_tick(&mut buf, &mut filter, 108, 204, false).is_none());
}

#[test]
fn externally_reasoned_requests_are_never_suppressed() {
    let mut buf = PeakBuffer::new(2);
    let mut filter = RedrawFilter::new();
    assert!(render_tick(&mut buf, &mut filter, 108, 204, true).is_some());
    // Nothing changed, but a resize/expose reason must still draw.
    assert!(render_tick(&mut buf, &mut filter, 108, 204, true).is_some());
    assert!(render_tick(&mut buf, &mut filter, 108, 204, true).is_some());
}

#[test]
fn submit_suppresses_only_unchanged_unreasoned_frames() {
    let mut filter = RedrawFilter::new();
    let levels = vec![1000u32, 2000];
    let (bars, _grid) = map_levels(&levels, 108, 204);

    // First frame: the remembered state is empty, so it differs.
    assert!(filter.submit(&levels, &bars, false));
    // Same frame again, bare pacer tick: suppressed.
    assert!(!filter.submit(&levels, &bars, false));
    // Same frame with an external reason: drawn.
    assert!(filter.submit(&levels, &bars, true));

    // Changed levels change the geometry too: drawn, then suppressed again.
    let louder = vec![9000u32, 2000];
    let (loud_bars, _grid) = map_levels(&louder, 108, 204);
    assert!(filter.submit(&louder, &loud_bars, false));
    assert!(!filter.submit(&louder, &loud_bars, false));
}

#[test]
fn suppressed_submit_keeps_the_remembered_frame() {
    let mut filter = RedrawFilter::new();
    let levels = vec![500u32];
    let (bars, _grid) = map_levels(&levels, 100, 200);
    assert!(filter.submit(&levels, &bars, false));

    // A suppressed request must not update the remembered frame: after
    // one, the original frame is still what suppression compares against.
    assert!(!filter.submit(&levels, &bars, false));
    assert!(!filter.submit(&levels, &bars, false));

    let other = vec![600u32];
    let (other_bars, _grid) = map_levels(&other, 100, 200);
    assert!(filter.submit(&other, &other_bars, false));
}

#[test]
fn bare_tick_with_changed_geometry_still_draws() {
    // Levels unchanged, but the window size changed between two bare
    // pacer ticks: the geometry differs, so suppression must not apply.
    let mut buf = PeakBuffer::new(2);
    let mut filter = RedrawFilter::new();
    assert!(render_tick(&mut buf, &mut filter, 108, 204, false).is_some());
    assert!(render_tick(&mut buf, &mut filter, 216, 204, false).is_some());
    assert!(render_tick(&mut buf, &mut filter, 216, 204, false).is_none());
}

#[test]
fn render_tick_resets_the_buffer() {
    let mut buf = PeakBuffer::new(3);
    let mut filter = RedrawFilter::new();
    buf.accumulate(&vec![100, 200, 300]);
    let frame = render_tick(&mut buf, &mut filter, 108, 204, false).unwrap();
    assert_eq!(frame.levels, vec![100, 200, 300]);
    assert_eq!(buf.drain(), vec![0, 0, 0]);
}

#[test]
fn frame_carries_the_mapped_geometry() {
    let mut buf = PeakBuffer::new(1);
    let mut filter = RedrawFilter::new();
    buf.accumulate(&vec![9500]);
    let frame = render_tick(&mut buf, &mut filter, 100, 200, false).unwrap();
    let (bars, grid) = map_levels(&vec![9500], 100, 200);
    assert_eq!(frame.bars, bars);
    assert_eq!(frame.grid, grid);
}
