use scene_frames::palette::{Palette, Rgb};
use scene_frames::render::{DrawCommand, RenderError, Renderer, TRAIL_DEPTH};
use scene_frames::scene::{
    HeadingWithVelocity, Point, Pose, PoseWithVelocity, Scene, StampedPoses,
};

fn object(n: u32) -> PoseWithVelocity<u32> {
    PoseWithVelocity { pose: Pose { position: Point { x: n, y: n }, heading: 0 }, velocity: 0 }
}

fn scene(counts: &[u32]) -> Scene<u32> {
    Scene {
        motion_sequences: counts
            .iter()
            .map(|&n| StampedPoses { timestamp: 0, poses: (0..n).map(object).collect() })
            .collect(),
        obstacles: Vec::new(),
        leeway: None,
    }
}

fn renderer(counts: &[u32]) -> Renderer<u32> {
    match Renderer::new(scene(counts), Palette::standard()) {
        Ok(r) => r,
        Err(e) => panic!("{e:?}"),
    }
}

fn shade(object: usize, recency: usize) -> Rgb {
    Palette::standard().pick(object, recency).unwrap()
}

fn trail(object: usize, from_frame: usize, f: usize) -> DrawCommand {
    DrawCommand::Trail {
        object,
        from_frame,
        to_frame: from_frame + 1,
        colour: shade(object, f - from_frame),
    }
}

fn marker(object: usize, frame: usize) -> DrawCommand {
    DrawCommand::Marker { object, frame, colour: shade(object, 0) }
}

#[test]
fn five_objects_are_too_many() {
    let r = Renderer::new(scene(&[5]), Palette::standard());
    assert_eq!(
        r.err(),
        Some(RenderError::TooManyObjects { sequence: 0, count: 5, supported: 4 })
    );
}

#[test]
fn four_objects_fit() {
    let r = renderer(&[4, 4, 4]);
    assert_eq!(r.frame_count(), 3);
    assert_eq!(r.scene().motion_sequences.len(), 3);
    assert_eq!(r.palette().len(), 4);
}

#[test]
fn too_many_objects_in_a_later_slice() {
    let r = Renderer::new(scene(&[2, 2, 7, 9]), Palette::standard());
    assert_eq!(
        r.err(),
        Some(RenderError::TooManyObjects { sequence: 2, count: 7, supported: 4 })
    );
}

#[test]
fn object_counts_must_agree() {
    let r = Renderer::new(scene(&[3, 3, 2, 3]), Palette::standard());
    assert_eq!(
        r.err(),
        Some(RenderError::ObjectCountMismatch { sequence: 2, expected: 3, found: 2 })
    );
    let r = Renderer::new(scene(&[1, 2]), Palette::standard());
    assert_eq!(
        r.err(),
        Some(RenderError::ObjectCountMismatch { sequence: 1, expected: 1, found: 2 })
    );
    let r = Renderer::new(scene(&[0, 1]), Palette::standard());
    assert_eq!(
        r.err(),
        Some(RenderError::ObjectCountMismatch { sequence: 1, expected: 0, found: 1 })
    );
}

#[test]
fn the_first_slice_that_does_not_fit_is_named() {
    let r = Renderer::new(scene(&[2, 1, 6]), Palette::standard());
    assert_eq!(
        r.err(),
        Some(RenderError::ObjectCountMismatch { sequence: 1, expected: 2, found: 1 })
    );
    let r = Renderer::new(scene(&[2, 6, 1]), Palette::standard());
    assert_eq!(
        r.err(),
        Some(RenderError::TooManyObjects { sequence: 1, count: 6, supported: 4 })
    );
}

#[test]
fn a_smaller_palette_supports_fewer_objects() {
    let mut palette = Palette::standard();
    palette.rows.truncate(1);
    let r = Renderer::new(scene(&[2]), palette.clone());
    assert_eq!(
        r.err(),
        Some(RenderError::TooManyObjects { sequence: 0, count: 2, supported: 1 })
    );
    assert!(Renderer::new(scene(&[1, 1]), palette).is_ok());
    assert!(Renderer::new(scene(&[0, 0]), Palette { rows: Vec::new() }).is_ok());
    assert!(Renderer::new(scene(&[]), Palette { rows: Vec::new() }).is_ok());
}

#[test]
fn no_frame_beyond_the_last() {
    let r = renderer(&[1, 1]);
    assert!(r.frame(0).is_some());
    assert!(r.frame(1).is_some());
    assert_eq!(r.frame(2), None);
    assert_eq!(r.frame(usize::MAX), None);
    let empty = renderer(&[]);
    assert_eq!(empty.frame_count(), 0);
    assert_eq!(empty.frame(0), None);
}

#[test]
fn first_frame_has_no_trails() {
    let r = renderer(&[2, 2]);
    assert_eq!(
        r.frame(0).unwrap(),
        vec![
            marker(0, 0),
            marker(1, 0),
            DrawCommand::TimePlate,
            DrawCommand::TimeLabel { frame: 0 },
        ]
    );
}

#[test]
fn second_frame_has_one_step_of_trail() {
    let r = renderer(&[2, 2]);
    assert_eq!(
        r.frame(1).unwrap(),
        vec![
            trail(0, 0, 1),
            trail(1, 0, 1),
            marker(0, 1),
            marker(1, 1),
            DrawCommand::TimePlate,
            DrawCommand::TimeLabel { frame: 1 },
        ]
    );
}

#[test]
fn layers_come_in_order() {
    let mut s = scene(&[1, 1, 1]);
    s.obstacles.push(vec![Point { x: 0, y: 0 }, Point { x: 1, y: 0 }, Point { x: 1, y: 1 }]);
    s.obstacles.push(Vec::new());
    s.leeway = Some(HeadingWithVelocity { heading: 90, velocity: 10 });
    let r = Renderer::new(s, Palette::standard()).unwrap();
    let green = |t: u8| Rgb { red: t, green: 0xff, blue: t };
    assert_eq!(
        r.frame(2).unwrap(),
        vec![
            DrawCommand::Obstacle { index: 0 },
            DrawCommand::Obstacle { index: 1 },
            DrawCommand::Trail { object: 0, from_frame: 0, to_frame: 1, colour: green(0x88) },
            DrawCommand::Trail { object: 0, from_frame: 1, to_frame: 2, colour: green(0x33) },
            DrawCommand::Marker { object: 0, frame: 2, colour: green(0x00) },
            DrawCommand::TimePlate,
            DrawCommand::TimeLabel { frame: 2 },
            DrawCommand::DriftPlate,
            DrawCommand::DriftArrow,
            DrawCommand::DriftLabel,
            DrawCommand::DriftDial,
        ]
    );
}

#[test]
fn obstacles_and_drift_are_the_same_in_every_frame() {
    let mut s = scene(&[1, 1, 1, 1]);
    s.obstacles.push(vec![Point { x: 0, y: 0 }, Point { x: 1, y: 0 }, Point { x: 1, y: 1 }]);
    s.leeway = Some(HeadingWithVelocity { heading: 90, velocity: 10 });
    let r = Renderer::new(s, Palette::standard()).unwrap();
    for f in 0..4 {
        let list = r.frame(f).unwrap();
        assert_eq!(list[0], DrawCommand::Obstacle { index: 0 });
        assert_eq!(
            list[list.len() - 4..],
            [
                DrawCommand::DriftPlate,
                DrawCommand::DriftArrow,
                DrawCommand::DriftLabel,
                DrawCommand::DriftDial,
            ]
        );
        let obstacles = list.iter().filter(|c| matches!(c, DrawCommand::Obstacle { .. })).count();
        assert_eq!(obstacles, 1);
    }
}

#[test]
fn trails_reach_four_steps_back() {
    assert_eq!(TRAIL_DEPTH, 4);
    let r = renderer(&[1; 10]);
    let expected = |f: usize, reach: usize| {
        let mut list: Vec<DrawCommand> = (f - reach..f).map(|s| trail(0, s, f)).collect();
        list.push(marker(0, f));
        list.push(DrawCommand::TimePlate);
        list.push(DrawCommand::TimeLabel { frame: f });
        list
    };
    assert_eq!(r.frame(3).unwrap(), expected(3, 3));
    assert_eq!(r.frame(4).unwrap(), expected(4, 4));
    assert_eq!(r.frame(5).unwrap(), expected(5, 4));
    assert_eq!(r.frame(9).unwrap(), expected(9, 4));
}

#[test]
fn trail_steps_join_neighbouring_frames_not_long_ago() {
    let r = renderer(&[3; 12]);
    for f in 0..12 {
        let list = r.frame(f).unwrap();
        let mut steps = 0;
        for command in list {
            if let DrawCommand::Trail { object, from_frame, to_frame, colour } = command {
                steps += 1;
                assert_eq!(to_frame, from_frame + 1);
                assert!(to_frame <= f);
                assert!(from_frame + 4 >= f);
                assert!(object < 3);
                assert_eq!(colour, shade(object, f - from_frame));
            }
        }
        assert_eq!(steps, 3 * f.min(4));
    }
}

#[test]
fn older_steps_are_drawn_first_and_fade() {
    let r = renderer(&[2; 6]);
    let list = r.frame(5).unwrap();
    assert_eq!(
        list[..8],
        [
            trail(0, 1, 5),
            trail(1, 1, 5),
            trail(0, 2, 5),
            trail(1, 2, 5),
            trail(0, 3, 5),
            trail(1, 3, 5),
            trail(0, 4, 5),
            trail(1, 4, 5),
        ]
    );
    assert_eq!(
        list[0],
        DrawCommand::Trail {
            object: 0,
            from_frame: 1,
            to_frame: 2,
            colour: Rgb { red: 0xee, green: 0xff, blue: 0xee },
        }
    );
    assert_eq!(
        list[7],
        DrawCommand::Trail {
            object: 1,
            from_frame: 4,
            to_frame: 5,
            colour: Rgb { red: 0xff, green: 0x33, blue: 0x33 },
        }
    );
}

#[test]
fn a_scene_without_objects_still_has_frames() {
    let r = renderer(&[0, 0]);
    assert_eq!(
        r.frame(1).unwrap(),
        vec![DrawCommand::TimePlate, DrawCommand::TimeLabel { frame: 1 }]
    );
}
