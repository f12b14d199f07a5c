use scene_frames::layout::{
    DIAL_RADIUS, DRIFT_OFFSET_X, DRIFT_OFFSET_Y, DRIFT_TEXT_OFFSET, MARKER_RADIUS, PLATE_PADDING,
    PLATE_WIDTH, TIME_HEIGHT, TIME_OFFSET_X, TIME_OFFSET_Y, TIME_TEXT_OFFSET, VIEW_PADDING,
};

fn units(tenths: u32) -> f32 {
    tenths as f32 / 10.0
}

#[test]
fn measures_in_scene_units() {
    assert_eq!(units(VIEW_PADDING), 0.2);
    assert_eq!(units(MARKER_RADIUS), 0.1);
    assert_eq!(units(DIAL_RADIUS), 0.6);
    assert_eq!(units(PLATE_PADDING), 0.1);
    assert_eq!(units(PLATE_WIDTH), 4.0);
}

#[test]
fn time_plate_in_scene_units() {
    assert_eq!(units(TIME_OFFSET_X), 16.2);
    assert_eq!(units(TIME_OFFSET_Y), 0.0);
    assert_eq!(units(TIME_HEIGHT), 1.0);
    assert_eq!(units(TIME_TEXT_OFFSET), 0.2);
}

#[test]
fn drift_plate_in_scene_units() {
    assert_eq!(units(DRIFT_OFFSET_X), 1.0);
    assert_eq!(units(DRIFT_OFFSET_Y), 1.0);
    assert_eq!(units(DRIFT_TEXT_OFFSET), 0.3);
}
