use scene_frames::schedule::{advance, artifact_name, begin, drift_label, time_label, Step};

fn run(frames: usize) -> Vec<usize> {
    let mut written = Vec::new();
    let mut step = begin(frames);
    while let Step::Draw(f) = step {
        written.push(f);
        step = advance(frames, step, true);
    }
    assert_eq!(step, Step::Done);
    written
}

#[test]
fn no_frames_no_artifacts() {
    assert_eq!(begin(0), Step::Done);
    assert_eq!(run(0), Vec::<usize>::new());
}

#[test]
fn one_artifact_per_frame_in_order() {
    assert_eq!(run(1), vec![0]);
    assert_eq!(run(2), vec![0, 1]);
    assert_eq!(run(7), vec![0, 1, 2, 3, 4, 5, 6]);
}

#[test]
fn steps_of_a_run_over_two_frames() {
    let first = begin(2);
    assert_eq!(first, Step::Draw(0));
    let second = advance(2, first, true);
    assert_eq!(second, Step::Draw(1));
    let third = advance(2, second, true);
    assert_eq!(third, Step::Done);
    assert_eq!(advance(2, third, true), Step::Done);
}

#[test]
fn a_failed_write_ends_the_run() {
    let first = begin(3);
    let second = advance(3, first, true);
    let failed = advance(3, second, false);
    assert_eq!(failed, Step::Failed(1));
    assert_eq!(advance(3, failed, true), Step::Failed(1));
    assert_eq!(advance(3, failed, false), Step::Failed(1));
    assert_eq!(advance(3, begin(3), false), Step::Failed(0));
}

#[test]
fn a_run_that_is_done_stays_done() {
    assert_eq!(advance(0, Step::Done, true), Step::Done);
    assert_eq!(advance(5, Step::Done, false), Step::Done);
}

#[test]
fn the_last_frame_is_followed_by_done() {
    assert_eq!(advance(4, Step::Draw(3), true), Step::Done);
    assert_eq!(advance(4, Step::Draw(2), true), Step::Draw(3));
    assert_eq!(advance(4, Step::Draw(9), true), Step::Done);
    assert_eq!(advance(usize::MAX, Step::Draw(usize::MAX), true), Step::Done);
    assert_eq!(advance(usize::MAX, Step::Draw(usize::MAX - 1), true), Step::Done);
    assert_eq!(advance(usize::MAX, Step::Draw(usize::MAX - 2), true), Step::Draw(usize::MAX - 1));
}

#[test]
fn artifact_names_count_from_zero() {
    assert_eq!(artifact_name(0), "result0.svg");
    assert_eq!(artifact_name(1), "result1.svg");
    assert_eq!(artifact_name(9), "result9.svg");
    assert_eq!(artifact_name(10), "result10.svg");
    assert_eq!(artifact_name(12), "result12.svg");
    assert_eq!(artifact_name(100), "result100.svg");
    assert_eq!(artifact_name(9075), "result9075.svg");
    assert_eq!(artifact_name(usize::MAX), format!("result{}.svg", usize::MAX));
}

#[test]
fn time_label_frames_the_time() {
    assert_eq!(time_label("0"), "t = 0 min");
    assert_eq!(time_label("1.5"), "t = 1.5 min");
    assert_eq!(time_label(""), "t =  min");
    assert_eq!(time_label(&0.0f32.to_string()), "t = 0 min");
    assert_eq!(time_label(&12.25f32.to_string()), "t = 12.25 min");
}

#[test]
fn drift_label_names_the_unit() {
    assert_eq!(drift_label("10"), "10 kts");
    assert_eq!(drift_label(&10.0f32.to_string()), "10 kts");
    assert_eq!(drift_label(&0.5f32.to_string()), "0.5 kts");
}
