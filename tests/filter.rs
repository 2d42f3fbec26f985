use arducam_tof::codec::WirePoint;
use arducam_tof::filter::{
    sample_lt, shade_of, ConfidenceRange, FilterState, FilterUpdate, Shade, StyledPoint,
};

fn at_depth(z: f32, c: f32) -> WirePoint {
    WirePoint { x: 0, y: 0, z: z.to_bits(), confidence: Some(c.to_bits()) }
}

fn range(low: f32, high: f32) -> Option<ConfidenceRange> {
    Some(ConfidenceRange { low: low.to_bits(), high: high.to_bits() })
}

#[test]
fn sample_order_matches_float_order() {
    let values = [
        f32::NEG_INFINITY, -3.5, -1.0, -0.0, 0.0, 1e-30, 0.5, 1.0, 2.0, 1e30, f32::INFINITY,
    ];
    for a in values {
        for b in values {
            assert_eq!(sample_lt(a.to_bits(), b.to_bits()), a < b, "{a} < {b}");
        }
    }
}

#[test]
fn nan_is_never_less_or_greater() {
    let nan = f32::NAN.to_bits();
    let neg_nan = (-f32::NAN).to_bits();
    for v in [0.0f32, 1.0, -1.0, f32::INFINITY] {
        assert!(!sample_lt(nan, v.to_bits()));
        assert!(!sample_lt(v.to_bits(), nan));
        assert!(!sample_lt(neg_nan, v.to_bits()));
    }
}

#[test]
fn max_and_min_depth_drop_points_outside() {
    let mut state = FilterState::new();
    state.apply(FilterUpdate::SetMaxDepth(Some(2.0f32.to_bits())));
    state.apply(FilterUpdate::SetMinDepth(Some(0.5f32.to_bits())));
    let batch = vec![
        at_depth(0.4, 0.0),
        at_depth(0.5, 0.0),
        at_depth(1.0, 0.0),
        at_depth(2.0, 0.0),
        at_depth(2.1, 0.0),
    ];
    let kept = state.filter_points(&batch);
    assert_eq!(kept, vec![batch[1], batch[2], batch[3]]);
}

#[test]
fn no_filter_keeps_everything() {
    let state = FilterState::new();
    let batch = vec![at_depth(0.0, 0.0), at_depth(100.0, 1.0), at_depth(-1.0, 0.5)];
    assert_eq!(state.filter_points(&batch), batch);
}

#[test]
fn filtering_twice_is_filtering_once() {
    let mut state = FilterState::new();
    state.apply(FilterUpdate::SetMaxDepth(Some(1.5f32.to_bits())));
    state.apply(FilterUpdate::SetMinDepth(Some(0.2f32.to_bits())));
    let batch: Vec<WirePoint> =
        [0.1f32, 0.3, 1.4, 1.6, 0.2, 1.5, 3.0].iter().map(|z| at_depth(*z, 0.0)).collect();
    let once = state.filter_points(&batch);
    let twice = state.filter_points(&once);
    assert_eq!(once, twice);
    assert_eq!(once.len(), 4);
}

#[test]
fn confidence_coloring_in_order_range() {
    let r = range(0.2, 0.8);
    assert_eq!(shade_of(r, Some(0.0f32.to_bits())), Shade::Red);
    assert_eq!(shade_of(r, Some(1.0f32.to_bits())), Shade::Green);
    assert_eq!(shade_of(r, Some(0.5f32.to_bits())), Shade::Blend);
    assert_eq!(shade_of(r, Some(0.2f32.to_bits())), Shade::Blend);
    assert_eq!(shade_of(r, Some(0.8f32.to_bits())), Shade::Blend);
}

#[test]
fn confidence_coloring_inverted_range_flips_directions() {
    // With low >= high the comparisons run the other way.
    let r = range(0.8, 0.2);
    assert_eq!(shade_of(r, Some(0.9f32.to_bits())), Shade::Red);
    assert_eq!(shade_of(r, Some(0.1f32.to_bits())), Shade::Green);
    assert_eq!(shade_of(r, Some(0.5f32.to_bits())), Shade::Blend);
}

#[test]
fn coloring_without_range_is_neutral() {
    assert_eq!(shade_of(None, Some(0.5f32.to_bits())), Shade::Neutral);
    assert_eq!(shade_of(range(0.2, 0.8), None), Shade::Neutral);
}

#[test]
fn render_batch_filters_then_colors() {
    let mut state = FilterState::new();
    state.apply(FilterUpdate::SetConfidenceRange(range(0.2, 0.8)));
    state.apply(FilterUpdate::SetMaxDepth(Some(3.0f32.to_bits())));
    let batch = vec![at_depth(1.0, 0.0), at_depth(5.0, 0.5), at_depth(2.0, 1.0), at_depth(2.5, 0.5)];
    let drawn = state.render_batch(&batch);
    assert_eq!(
        drawn,
        vec![
            StyledPoint { point: batch[0], shade: Shade::Red },
            StyledPoint { point: batch[2], shade: Shade::Green },
            StyledPoint { point: batch[3], shade: Shade::Blend },
        ]
    );
}

#[test]
fn updates_touch_one_field() {
    let mut state = FilterState::new();
    state.apply(FilterUpdate::SetMaxDepth(Some(7)));
    state.apply(FilterUpdate::SetConfidenceRange(Some(ConfidenceRange { low: 1, high: 2 })));
    state.apply(FilterUpdate::SetMinDepth(Some(3)));
    state.apply(FilterUpdate::SetMaxDepth(None));
    assert_eq!(
        state,
        FilterState {
            max_depth: None,
            min_depth: Some(3),
            confidence_range: Some(ConfidenceRange { low: 1, high: 2 }),
        }
    );
}
