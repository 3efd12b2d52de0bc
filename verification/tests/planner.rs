use overlay_pipeline::errors::InputError;
use overlay_pipeline::plan::{plan, Segment, SENTINEL_END_MS};

#[test]
fn plan_empty_timeline_is_rejected() {
    let r = plan(&vec![], 200, Some((0, 0)));
    assert_eq!(r.unwrap_err(), InputError::EmptyInput);
}

#[test]
fn plan_yields_one_pair_per_timestamp() {
    let timestamps: Vec<i64> = vec![100, 900, 1700, 2500, 4000];
    let (overlay, background, _) = plan(&timestamps, 350, None).unwrap();
    assert_eq!(overlay.len(), 5);
    assert_eq!(background.len(), 5);
    for seg in &overlay {
        assert!(seg.end_ms > seg.start_ms);
    }
}

#[test]
fn plan_two_moves_reference_values() {
    // timestamps 1.0s and 3.0s, half a second per move
    let timestamps: Vec<i64> = vec![1000, 3000];
    let (overlay, background, offset) = plan(&timestamps, 500, Some((0, 0))).unwrap();
    assert_eq!(
        overlay,
        vec![
            Segment { start_ms: 0, end_ms: 500 },
            Segment { start_ms: 500, end_ms: 1000 },
        ]
    );
    // first background segment start-shifted back to its own timestamp,
    // second runs to the fixed terminal boundary
    assert_eq!(
        background,
        vec![
            Segment { start_ms: 1000, end_ms: 3000 },
            Segment { start_ms: 2500, end_ms: 7000 },
        ]
    );
    assert_eq!(offset, (0, 0));
}

#[test]
fn plan_last_background_segment_ends_at_sentinel() {
    let timestamps: Vec<i64> = vec![400];
    let (_, background, _) = plan(&timestamps, 200, None).unwrap();
    assert_eq!(background.last().unwrap().end_ms, SENTINEL_END_MS);
    assert_eq!(SENTINEL_END_MS, 7000);
}

#[test]
fn plan_missing_offset_defaults_to_zero() {
    let timestamps: Vec<i64> = vec![500];
    let (_, _, offset) = plan(&timestamps, 200, None).unwrap();
    assert_eq!(offset, (0, 0));
    let (_, _, offset2) = plan(&timestamps, 200, Some((10, -4))).unwrap();
    assert_eq!(offset2, (10, -4));
}

#[test]
fn plan_is_deterministic() {
    let timestamps: Vec<i64> = vec![250, 750];
    let a = plan(&timestamps, 250, Some((3, 4))).unwrap();
    let b = plan(&timestamps, 250, Some((3, 4))).unwrap();
    assert_eq!(a.0, b.0);
    assert_eq!(a.1, b.1);
    assert_eq!(a.2, b.2);
}
