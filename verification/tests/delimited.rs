use scene_frames::delimited::{decode_delimited, split_bytes};
use scene_frames::error::DecodeError;
use scene_frames::palette::Palette;
use scene_frames::render::{DrawCommand, Renderer};
use scene_frames::schedule::{advance, begin, Step};

fn number(field: &[u8]) -> f32 {
    std::str::from_utf8(field).unwrap().parse().unwrap()
}

fn pieces(text: &str, separator: u8) -> Vec<String> {
    split_bytes(text.as_bytes(), separator)
        .into_iter()
        .map(|p| String::from_utf8(p).unwrap())
        .collect()
}

#[test]
fn two_slices_of_one_object() {
    let input = b"SP;0.0;1.0;2.0;90.0;0.5\nSP;1.0;1.5;2.0;90.0;0.5\n";
    let scene = decode_delimited(input).unwrap();
    assert_eq!(scene.motion_sequences.len(), 2);
    assert!(scene.obstacles.is_empty());
    assert!(scene.leeway.is_none());
    let expected = [(0.0, 1.0), (1.0, 1.5)];
    for (slice, (time, x)) in scene.motion_sequences.iter().zip(expected) {
        assert_eq!(number(&slice.timestamp), time);
        assert_eq!(slice.poses.len(), 1);
        let object = &slice.poses[0];
        assert_eq!(number(&object.pose.position.x), x);
        assert_eq!(number(&object.pose.position.y), 2.0);
        assert_eq!(number(&object.pose.heading), 90.0);
        assert_eq!(number(&object.velocity), 0.5);
    }
    assert_eq!(scene.motion_sequences[0].timestamp, b"0.0".to_vec());
    assert_eq!(scene.motion_sequences[1].poses[0].pose.position.x, b"1.5".to_vec());

    let renderer = Renderer::new(scene, Palette::standard()).unwrap();
    let frames = renderer.frame_count();
    let mut artifacts = 0;
    let mut step = begin(frames);
    while let Step::Draw(f) = step {
        assert!(renderer.frame(f).is_some());
        artifacts += 1;
        step = advance(frames, step, true);
    }
    assert_eq!(artifacts, 2);
}

#[test]
fn an_obstacle_of_three_vertices() {
    let scene = decode_delimited(b"OBS;0.0;0.0;1.0;0.0;1.0;1.0").unwrap();
    assert!(scene.motion_sequences.is_empty());
    assert_eq!(scene.obstacles.len(), 1);
    let vertices: Vec<(f32, f32)> =
        scene.obstacles[0].iter().map(|p| (number(&p.x), number(&p.y))).collect();
    assert_eq!(vertices, vec![(0.0, 0.0), (1.0, 0.0), (1.0, 1.0)]);
}

#[test]
fn an_obstacle_is_drawn_in_every_frame() {
    let input = b"OBS;0.0;0.0;1.0;0.0;1.0;1.0\nSP;0;1;1;0;0\nSP;1;2;2;0;0\nSP;2;3;3;0;0";
    let scene = decode_delimited(input).unwrap();
    let renderer = Renderer::new(scene, Palette::standard()).unwrap();
    assert_eq!(renderer.frame_count(), 3);
    for f in 0..3 {
        let list = renderer.frame(f).unwrap();
        assert_eq!(list[0], DrawCommand::Obstacle { index: 0 });
        assert!(!matches!(list[1], DrawCommand::Obstacle { .. }));
    }
}

#[test]
fn a_drift_record() {
    let scene = decode_delimited(b"LW;90;10\n").unwrap();
    let drift = scene.leeway.unwrap();
    assert_eq!(number(&drift.heading), 90.0);
    assert_eq!(number(&drift.velocity), 10.0);
}

#[test]
fn a_later_drift_takes_the_place_of_an_earlier_one() {
    let scene = decode_delimited(b"LW;90;10\nLW;45;3;ignored\n").unwrap();
    let drift = scene.leeway.unwrap();
    assert_eq!(drift.heading, b"45".to_vec());
    assert_eq!(drift.velocity, b"3".to_vec());
}

#[test]
fn records_keep_their_order() {
    let input = b"SP;0;1;2;3;4;5;6;7;8\nOBS;1;2\nLW;1;2\nOBS;3;4;5;6\nSP;1;9;8;7;6;5;4;3;2\n";
    let scene = decode_delimited(input).unwrap();
    assert_eq!(scene.motion_sequences.len(), 2);
    assert_eq!(scene.motion_sequences[0].poses.len(), 2);
    assert_eq!(scene.motion_sequences[0].poses[1].pose.position.x, b"5".to_vec());
    assert_eq!(scene.motion_sequences[0].poses[1].pose.position.y, b"6".to_vec());
    assert_eq!(scene.motion_sequences[0].poses[1].pose.heading, b"7".to_vec());
    assert_eq!(scene.motion_sequences[0].poses[1].velocity, b"8".to_vec());
    assert_eq!(scene.motion_sequences[1].timestamp, b"1".to_vec());
    assert_eq!(scene.motion_sequences[1].poses[0].pose.position.x, b"9".to_vec());
    assert_eq!(scene.obstacles.len(), 2);
    assert_eq!(scene.obstacles[0].len(), 1);
    assert_eq!(scene.obstacles[1].len(), 2);
    assert_eq!(scene.obstacles[1][1].x, b"5".to_vec());
    assert_eq!(scene.obstacles[1][1].y, b"6".to_vec());
    assert!(scene.leeway.is_some());
}

#[test]
fn empty_trailing_fields_are_passed_over() {
    let scene = decode_delimited(b"SP;0;1;2;3;4;\nOBS;1;2;\nSP;1;1;2;3;4;;;;;\n").unwrap();
    assert_eq!(scene.motion_sequences.len(), 2);
    assert_eq!(scene.motion_sequences[0].poses.len(), 1);
    assert_eq!(scene.motion_sequences[1].poses.len(), 1);
    assert_eq!(scene.obstacles[0].len(), 1);
}

#[test]
fn a_group_that_starts_empty_is_passed_over() {
    let scene = decode_delimited(b"SP;0;;a;b;c;1;2;3;4\nOBS;;x;5;6").unwrap();
    assert_eq!(scene.motion_sequences[0].poses.len(), 1);
    assert_eq!(scene.motion_sequences[0].poses[0].pose.position.x, b"1".to_vec());
    assert_eq!(scene.obstacles[0].len(), 1);
    assert_eq!(scene.obstacles[0][0].x, b"5".to_vec());
}

#[test]
fn a_slice_without_objects() {
    let scene = decode_delimited(b"SP;3.5").unwrap();
    assert_eq!(scene.motion_sequences.len(), 1);
    assert_eq!(scene.motion_sequences[0].timestamp, b"3.5".to_vec());
    assert!(scene.motion_sequences[0].poses.is_empty());
    let scene = decode_delimited(b"OBS").unwrap();
    assert_eq!(scene.obstacles.len(), 1);
    assert!(scene.obstacles[0].is_empty());
}

#[test]
fn other_lines_are_passed_over() {
    let scene = decode_delimited(b"# comment\n\nsp;0;1;2;3;4\nSPX;1\n;SP\nOB;1;2\n").unwrap();
    assert!(scene.motion_sequences.is_empty());
    assert!(scene.obstacles.is_empty());
    assert!(scene.leeway.is_none());
    let scene = decode_delimited(b"").unwrap();
    assert!(scene.motion_sequences.is_empty());
}

#[test]
fn fields_are_handed_on_as_written() {
    let scene = decode_delimited(b"SP; 1 ;abc;-2e3;+.5;\xc3\xa9\r\n").unwrap();
    let slice = &scene.motion_sequences[0];
    assert_eq!(slice.timestamp, b" 1 ".to_vec());
    assert_eq!(slice.poses[0].pose.position.x, b"abc".to_vec());
    assert_eq!(slice.poses[0].pose.position.y, b"-2e3".to_vec());
    assert_eq!(slice.poses[0].pose.heading, b"+.5".to_vec());
    assert_eq!(slice.poses[0].velocity, "\u{e9}\r".as_bytes().to_vec());
}

#[test]
fn a_slice_needs_its_time() {
    assert_eq!(decode_delimited(b"SP").err(), Some(DecodeError::MissingField { line: 0 }));
    assert!(decode_delimited(b"SP;").is_ok());
}

#[test]
fn an_object_needs_four_fields() {
    assert_eq!(
        decode_delimited(b"SP;0;1;2;3;4\nSP;1;1;2;3\n").err(),
        Some(DecodeError::MissingField { line: 1 })
    );
    assert_eq!(
        decode_delimited(b"SP;0;1;2;3;4;5").err(),
        Some(DecodeError::MissingField { line: 0 })
    );
    assert!(decode_delimited(b"SP;0;1;2;3;").is_ok());
}

#[test]
fn a_drift_needs_two_fields() {
    assert_eq!(decode_delimited(b"\nLW;90").err(), Some(DecodeError::MissingField { line: 1 }));
    assert_eq!(decode_delimited(b"LW").err(), Some(DecodeError::MissingField { line: 0 }));
    assert!(decode_delimited(b"LW;;").is_ok());
}

#[test]
fn a_vertex_needs_two_fields() {
    assert_eq!(
        decode_delimited(b"OBS;1;2\nOBS;1;2;3\nOBS;1").err(),
        Some(DecodeError::MissingField { line: 1 })
    );
}

#[test]
fn the_first_line_that_lacks_a_field_is_named() {
    assert_eq!(
        decode_delimited(b"x\ny\nLW;1\nSP\n").err(),
        Some(DecodeError::MissingField { line: 2 })
    );
}

#[test]
fn split_cuts_at_every_separator() {
    assert_eq!(pieces("", b';'), vec![""]);
    assert_eq!(pieces("a", b';'), vec!["a"]);
    assert_eq!(pieces(";", b';'), vec!["", ""]);
    assert_eq!(pieces("a;b", b';'), vec!["a", "b"]);
    assert_eq!(pieces("a;;b;", b';'), vec!["a", "", "b", ""]);
    assert_eq!(pieces(";a", b';'), vec!["", "a"]);
    assert_eq!(pieces("a;b\nc;d\n", b'\n'), vec!["a;b", "c;d", ""]);
}

#[test]
fn split_agrees_with_split_of_strings() {
    for text in ["", "SP;0.0;1.0", ";;;", "a\nb;c\n\n;d", "no separator", "\u{e9};\u{4e16}\u{754c};x"] {
        for separator in [b';', b'\n'] {
            let expected: Vec<String> =
                text.split(separator as char).map(|p| p.to_string()).collect();
            assert_eq!(pieces(text, separator), expected);
        }
    }
}
