use iced_aksel::axis::{
    label_order, label_priority, should_render, AxisDisplay, CursorResult, LabelDecision, Orientation,
    PolicyKind, Position,
};
use iced_aksel::font::GeometricFont;
use iced_aksel::radii::Radii;
use iced_aksel::shape::{EndTreatment, LineEnds};
use iced_aksel::text::{TextTessellationCache, GLYPH_CACHE_CAPACITY};

#[test]
fn radii_arithmetic_is_component_wise() {
    let a = Radii::new(6i32, 9);
    let b = Radii::uniform(3i32);
    assert_eq!(b, Radii::new(3, 3));
    assert_eq!(a + b, Radii::new(9, 12));
    assert_eq!(a - b, Radii::new(3, 6));
    assert_eq!(a * b, Radii::new(18, 27));
    assert_eq!(a / b, Radii::new(2, 3));
    assert_eq!(a + 1, Radii::new(7, 10));
    assert_eq!(a - 1, Radii::new(5, 8));
    assert_eq!(a * 2, Radii::new(12, 18));
    assert_eq!(a / 3, Radii::new(2, 3));
}

#[test]
fn positions_have_orientations() {
    assert_eq!(Position::Top.orientation(), Orientation::Horizontal);
    assert_eq!(Position::Bottom.orientation(), Orientation::Horizontal);
    assert_eq!(Position::Left.orientation(), Orientation::Vertical);
    assert_eq!(Position::Right.orientation(), Orientation::Vertical);
}

#[test]
fn axis_display_switches() {
    let d = AxisDisplay::new(Position::Left);
    assert!(d.is_visible() && d.draws_grid());
    assert!(d.draws_cursor(true, true));
    assert!(!d.draws_cursor(false, true));
    assert!(!d.draws_cursor(true, false));
    let hidden = d.invisible();
    assert!(!hidden.is_visible());
    assert!(hidden.draws_grid());
    assert!(!hidden.draws_cursor(true, true));
    assert!(!d.without_grid().draws_grid());
    assert_eq!(d.orientation(), Orientation::Vertical);
}

#[test]
fn labels_are_laid_out_by_priority_stably() {
    assert_eq!(label_order(&vec![2, 0, 1, 0, 2]), vec![1, 3, 2, 0, 4]);
    assert_eq!(label_order(&vec![]), Vec::<usize>::new());
    assert_eq!(label_order(&vec![255, 0]), vec![1, 0]);
    assert_eq!(label_priority(Some(4), 0), 4);
    assert_eq!(label_priority(None, 2), 2);
}

#[test]
fn cursor_result_builders() {
    let r: CursorResult<u8> = CursorResult::empty();
    assert!(r.label.is_none() && r.style.is_none());
    let r = r.label("1.5".to_string()).style(3);
    assert_eq!(r.label.as_deref(), Some("1.5"));
    assert_eq!(r.style, Some(3));
}

#[test]
fn line_ends_extension_overrides_arrow() {
    let e = LineEnds::new();
    assert!(e.is_simple_line());
    assert_eq!(e.start(), EndTreatment::Plain);
    let e = e.arrows(true);
    assert!(!e.is_simple_line());
    assert_eq!(e.start(), EndTreatment::Arrow);
    assert_eq!(e.end(), EndTreatment::Arrow);
    let e = e.extend_end(true);
    assert_eq!(e.end(), EndTreatment::Extend);
    assert_eq!(e.start(), EndTreatment::Arrow);
    let e = LineEnds::new().infinite();
    assert_eq!((e.start(), e.end()), (EndTreatment::Extend, EndTreatment::Extend));
    assert!(!LineEnds::new().extend_start(true).is_simple_line());
    assert!(!LineEnds::new().arrow_end(true).is_simple_line());
    assert!(LineEnds::new().arrow_start(true).arrow_start(false).is_simple_line());
}

#[test]
fn glyph_cache_reuses_slots() {
    let mut cache = TextTessellationCache::new();
    assert_eq!(cache.get((0, 1)), None);
    assert_eq!(cache.insert((0, 1)), 0);
    assert_eq!(cache.insert((0, 2)), 1);
    assert_eq!(cache.insert((1, 1)), 2);
    assert_eq!(cache.insert((0, 1)), 0);
    assert_eq!(cache.get((0, 2)), Some(1));
    cache.clear();
    assert_eq!(cache.get((0, 2)), None);
    assert_eq!(cache.insert((5, 5)), 0);
}

#[test]
fn glyph_cache_evicts_least_recently_used() {
    let mut cache = TextTessellationCache::new();
    for g in 0..GLYPH_CACHE_CAPACITY {
        assert_eq!(cache.insert((0, g as u16)), g as u32);
    }
    // Touch glyph 0 so that glyph 1 becomes the least recently used.
    assert_eq!(cache.get((0, 0)), Some(0));
    let slot = cache.insert((1, 0));
    assert_eq!(slot, 1);
    assert_eq!(cache.get((0, 1)), None);
    assert_eq!(cache.get((0, 0)), Some(0));
    assert_eq!(cache.get((1, 0)), Some(1));
}

#[test]
fn malformed_font_data_is_rejected() {
    assert!(GeometricFont::new(&[]).is_none());
    assert!(GeometricFont::new(&[0u8; 64]).is_none());
}

#[test]
fn label_policy_decisions() {
    let clear = vec![false, false, false];
    let blocked = vec![false, true, false];
    assert!(should_render(PolicyKind::All, &blocked, LabelDecision::Skip));
    assert!(should_render(PolicyKind::SkipOverlapping, &clear, LabelDecision::Skip));
    assert!(!should_render(PolicyKind::SkipOverlapping, &blocked, LabelDecision::Render));
    assert!(should_render(PolicyKind::SkipOverlapping, &Vec::new(), LabelDecision::Skip));
    assert!(should_render(PolicyKind::Custom, &blocked, LabelDecision::Render));
    assert!(!should_render(PolicyKind::Custom, &clear, LabelDecision::Skip));
}
