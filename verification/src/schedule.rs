//! The order of work: which frame is drawn next, under which name it is
//! written, and when the run is over.

use vstd::prelude::*;

verus! {

/// What a run has to do next.
#[derive(Clone, Copy, Debug, PartialEq, Eq, Structural)]
pub enum Step {
    /// Draw the frame of this index and write it.
    Draw(usize),
    /// Every frame has been written.
    Done,
    /// Writing the frame of this index failed: the run is over, and the frames
    /// written before it stay.
    Failed(usize),
}

/// The first step of a run over `frames` frames.
pub open spec fn first_step(frames: usize) -> Step {
    if frames == 0 {
        Step::Done
    } else {
        Step::Draw(0)
    }
}

/// The step that follows `step`, once the frame that it asked for has been
/// written (`written`) or could not be (`!written`). A run that is over stays
/// over.
pub open spec fn next_step(frames: usize, step: Step, written: bool) -> Step {
    match step {
        Step::Draw(f) => if !written {
            Step::Failed(f)
        } else if f + 1 < frames {
            Step::Draw((f + 1) as usize)
        } else {
            Step::Done
        },
        Step::Done => Step::Done,
        Step::Failed(f) => Step::Failed(f),
    }
}

/// The step that a run over `frames` frames has reached once `written` frames
/// in a row have been written.
pub open spec fn step_after(frames: usize, written: nat) -> Step
    decreases written,
{
    if written == 0 {
        first_step(frames)
    } else {
        next_step(frames, step_after(frames, (written - 1) as nat), true)
    }
}

/// The first step of a run over `frames` frames.
pub fn begin(frames: usize) -> (r: Step)
    ensures
        r == first_step(frames),
{
    if frames == 0 {
        Step::Done
    } else {
        Step::Draw(0)
    }
}

/// The step that follows `step`; `written` says whether the frame that `step`
/// asked for has been written.
pub fn advance(frames: usize, step: Step, written: bool) -> (r: Step)
    ensures
        r == next_step(frames, step, written),
{
    match step {
        Step::Draw(f) => {
            if !written {
                Step::Failed(f)
            } else if f < frames && f + 1 < frames {
                Step::Draw(f + 1)
            } else {
                Step::Done
            }
        },
        Step::Done => Step::Done,
        Step::Failed(f) => Step::Failed(f),
    }
}

/// A run writes one artifact per frame, in frame order, and then stops: while
/// fewer artifacts than frames have been written the next step draws the frame
/// whose index is the number written so far, and from then on the run is done.
/// A scene without frames is done at once.
pub proof fn lemma_one_artifact_per_frame(frames: usize, written: nat)
    ensures
        written < frames ==> step_after(frames, written) == Step::Draw(written as usize),
        written >= frames ==> step_after(frames, written) == Step::Done,
    decreases written,
{
    if written > 0 {
        lemma_one_artifact_per_frame(frames, (written - 1) as nat);
    }
}

/// The decimal digit of `d`, for `d` below 10.
pub open spec fn digit_char(d: int) -> char {
    if d == 0 {
        '0'
    } else if d == 1 {
        '1'
    } else if d == 2 {
        '2'
    } else if d == 3 {
        '3'
    } else if d == 4 {
        '4'
    } else if d == 5 {
        '5'
    } else if d == 6 {
        '6'
    } else if d == 7 {
        '7'
    } else if d == 8 {
        '8'
    } else {
        '9'
    }
}

/// `n` in decimal, without leading zeros.
pub open spec fn decimal(n: nat) -> Seq<char>
    decreases n,
{
    if n < 10 {
        seq![digit_char(n as int)]
    } else {
        decimal(n / 10).push(digit_char((n % 10) as int))
    }
}

/// The name of the artifact that holds frame `f`.
pub open spec fn artifact_name_text(f: usize) -> Seq<char> {
    "result"@ + decimal(f as nat) + ".svg"@
}

/// The name of the artifact that holds frame `f`: `result`, the index in
/// decimal, `.svg`.
pub fn artifact_name(f: usize) -> (r: String)
    ensures
        r@ == artifact_name_text(f),
{
    let mut name = String::from_str("result");
    push_decimal(&mut name, f);
    name.append(".svg");
    name
}

/// The text of the time label, for a time that reads `time`.
pub fn time_label(time: &str) -> (r: String)
    ensures
        r@ == "t = "@ + time@ + " min"@,
{
    let mut label = String::from_str("t = ");
    label.append(time);
    label.append(" min");
    label
}

/// The text of the drift label, for a speed that reads `speed`.
pub fn drift_label(speed: &str) -> (r: String)
    ensures
        r@ == speed@ + " kts"@,
{
    let mut label = String::from_str(speed);
    label.append(" kts");
    label
}

fn digit(d: usize) -> (r: &'static str)
    requires
        d < 10,
    ensures
        r@ == seq![digit_char(d as int)],
{
    proof {
        reveal_strlit("0");
        reveal_strlit("1");
        reveal_strlit("2");
        reveal_strlit("3");
        reveal_strlit("4");
        reveal_strlit("5");
        reveal_strlit("6");
        reveal_strlit("7");
        reveal_strlit("8");
        reveal_strlit("9");
    }
    let r = match d {
        0 => "0",
        1 => "1",
        2 => "2",
        3 => "3",
        4 => "4",
        5 => "5",
        6 => "6",
        7 => "7",
        8 => "8",
        _ => "9",
    };
    assert(r@ =~= seq![digit_char(d as int)]);
    r
}

fn push_decimal(text: &mut String, n: usize)
    ensures
        final(text)@ == old(text)@ + decimal(n as nat),
    decreases n,
{
    if n >= 10 {
        push_decimal(text, n / 10);
    }
    text.append(digit(n % 10));
    assert(text@ =~= old(text)@ + decimal(n as nat));
}

} // verus!
