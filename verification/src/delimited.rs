//! Scenes as delimited text.
//!
//! One record per line, fields parted by semicolons, the first field a tag:
//!
//! - `SP;time;x;y;heading;velocity;...` is a time slice, with four fields for
//!   each object;
//! - `LW;heading;velocity` is the drift of the scene;
//! - `OBS;x;y;...` is an obstacle, with two fields for each vertex.
//!
//! A group whose first field is empty is passed over, and so is a line with any
//! other tag. What stands in a numeric field is handed on as written.

use crate::error::DecodeError;
use crate::scene::{
    points_view, poses_view, HeadingWithVelocity, Point, Pose, PoseWithVelocity, Scene, SceneView,
    StampedPoses, StampedPosesView,
};
use vstd::prelude::*;
use vstd::slice::{slice_subrange, slice_to_vec};

verus! {

/// The byte that ends a record.
pub const NEWLINE: u8 = 0x0a;

/// The byte that ends a field.
pub const SEMICOLON: u8 = 0x3b;

/// The tag of a time slice: `SP`.
pub open spec fn slice_tag() -> Seq<u8> {
    seq![0x53u8, 0x50u8]
}

/// The tag of the drift: `LW`.
pub open spec fn drift_tag() -> Seq<u8> {
    seq![0x4cu8, 0x57u8]
}

/// The tag of an obstacle: `OBS`.
pub open spec fn obstacle_tag() -> Seq<u8> {
    seq![0x4fu8, 0x42u8, 0x53u8]
}

/// The pieces of `text` between one `separator` and the next, in order. There
/// is always one piece more than there are separators.
pub open spec fn split(text: Seq<u8>, separator: u8) -> Seq<Seq<u8>>
    decreases text.len(),
{
    if text.len() == 0 {
        seq![Seq::empty()]
    } else {
        let before = split(text.drop_last(), separator);
        if text.last() == separator {
            before.push(Seq::empty())
        } else {
            before.update(before.len() - 1, before.last().push(text.last()))
        }
    }
}

/// The pieces put together again, with `separator` between neighbours.
pub open spec fn join(pieces: Seq<Seq<u8>>, separator: u8) -> Seq<u8>
    decreases pieces.len(),
{
    if pieces.len() == 0 {
        Seq::empty()
    } else if pieces.len() == 1 {
        pieces[0]
    } else {
        join(pieces.drop_last(), separator).push(separator) + pieces.last()
    }
}

/// Splitting loses nothing and cuts at every separator: no piece holds the
/// separator, and the pieces joined by it are the text again.
pub proof fn lemma_split_join(text: Seq<u8>, separator: u8)
    ensures
        split(text, separator).len() >= 1,
        forall|i: int, j: int|
            0 <= i < split(text, separator).len() && 0 <= j < split(text, separator)[i].len()
                ==> split(text, separator)[i][j] != separator,
        join(split(text, separator), separator) == text,
    decreases text.len(),
{
    if text.len() > 0 {
        let shorter = text.drop_last();
        let before = split(shorter, separator);
        lemma_split_join(shorter, separator);
        if text.last() == separator {
            let pieces = before.push(Seq::empty());
            assert(pieces.drop_last() =~= before);
            assert(join(pieces, separator) =~= shorter.push(separator));
            assert(shorter.push(separator) =~= text);
        } else {
            let grown = before.last().push(text.last());
            let pieces = before.update(before.len() - 1, grown);
            if before.len() == 1 {
                assert(before[0] == shorter);
                assert(grown =~= text);
            } else {
                assert(pieces.drop_last() =~= before.drop_last());
                assert(join(pieces, separator) =~= join(before, separator).push(text.last()));
                assert(shorter.push(text.last()) =~= text);
            }
        }
    }
}

/// The models of `fields`, place by place.
pub open spec fn fields_view(fields: Seq<Vec<u8>>) -> Seq<Seq<u8>> {
    Seq::new(fields.len(), |i: int| fields[i]@)
}

/// The object that the four fields from `at` on describe.
pub open spec fn pose_at(fields: Seq<Seq<u8>>, at: int) -> PoseWithVelocity<Seq<u8>> {
    PoseWithVelocity {
        pose: Pose {
            position: Point { x: fields[at], y: fields[at + 1] },
            heading: fields[at + 2],
        },
        velocity: fields[at + 3],
    }
}

/// The vertex that the two fields from `at` on describe.
pub open spec fn point_at(fields: Seq<Seq<u8>>, at: int) -> Point<Seq<u8>> {
    Point { x: fields[at], y: fields[at + 1] }
}

/// Whether every group of `width` fields that starts at `at` or later, and
/// whose first field is not empty, has all its fields.
pub open spec fn groups_complete(fields: Seq<Seq<u8>>, at: int, width: int) -> bool
    decreases fields.len() + width - at,
{
    if at < 0 || width <= 0 || at >= fields.len() {
        true
    } else {
        &&& fields[at].len() > 0 ==> at + width <= fields.len()
        &&& groups_complete(fields, at + width, width)
    }
}

/// The objects of the groups of four fields that start at `at` or later,
/// without the groups whose first field is empty.
pub open spec fn poses_from(fields: Seq<Seq<u8>>, at: int) -> Seq<PoseWithVelocity<Seq<u8>>>
    decreases fields.len() + 4 - at,
{
    if at < 0 || at >= fields.len() {
        Seq::empty()
    } else if fields[at].len() == 0 {
        poses_from(fields, at + 4)
    } else {
        seq![pose_at(fields, at)] + poses_from(fields, at + 4)
    }
}

/// The vertices of the groups of two fields that start at `at` or later,
/// without the groups whose first field is empty.
pub open spec fn points_from(fields: Seq<Seq<u8>>, at: int) -> Seq<Point<Seq<u8>>>
    decreases fields.len() + 2 - at,
{
    if at < 0 || at >= fields.len() {
        Seq::empty()
    } else if fields[at].len() == 0 {
        points_from(fields, at + 2)
    } else {
        seq![point_at(fields, at)] + points_from(fields, at + 2)
    }
}

/// Whether a record has every field that its tag asks for. A record with
/// another tag asks for nothing.
pub open spec fn record_complete(fields: Seq<Seq<u8>>) -> bool {
    if fields.len() == 0 {
        true
    } else if fields[0] == slice_tag() {
        fields.len() >= 2 && groups_complete(fields, 2, 4)
    } else if fields[0] == drift_tag() {
        fields.len() >= 3
    } else if fields[0] == obstacle_tag() {
        groups_complete(fields, 1, 2)
    } else {
        true
    }
}

/// The scene with a complete record taken in: a time slice and an obstacle are
/// added after those that are there, and a drift takes the place of an
/// earlier one.
pub open spec fn with_record(scene: SceneView<Seq<u8>>, fields: Seq<Seq<u8>>) -> SceneView<
    Seq<u8>,
> {
    if fields.len() == 0 {
        scene
    } else if fields[0] == slice_tag() {
        SceneView {
            motion_sequences: scene.motion_sequences.push(
                StampedPosesView { timestamp: fields[1], poses: poses_from(fields, 2) },
            ),
            ..scene
        }
    } else if fields[0] == drift_tag() {
        SceneView {
            leeway: Some(HeadingWithVelocity { heading: fields[1], velocity: fields[2] }),
            ..scene
        }
    } else if fields[0] == obstacle_tag() {
        SceneView { obstacles: scene.obstacles.push(points_from(fields, 1)), ..scene }
    } else {
        scene
    }
}

/// The scene that the first `count` of `lines` make up.
pub open spec fn scene_of_lines(lines: Seq<Seq<u8>>, count: int) -> SceneView<Seq<u8>>
    decreases count,
{
    if count <= 0 {
        SceneView::empty()
    } else {
        with_record(scene_of_lines(lines, count - 1), split(lines[count - 1], SEMICOLON))
    }
}

/// Whether line `i` has every field that its tag asks for.
pub open spec fn line_complete(lines: Seq<Seq<u8>>, i: int) -> bool {
    record_complete(split(lines[i], SEMICOLON))
}

/// Cuts `text` at every `separator`.
pub fn split_bytes(text: &[u8], separator: u8) -> (r: Vec<Vec<u8>>)
    ensures
        fields_view(r@) == split(text@, separator),
{
    let mut pieces: Vec<Vec<u8>> = Vec::new();
    let mut start: usize = 0;
    let mut i: usize = 0;
    assert(text@.take(0) =~= Seq::empty());
    while i < text.len()
        invariant
            start <= i <= text@.len(),
            fields_view(pieces@).push(text@.subrange(start as int, i as int)) == split(
                text@.take(i as int),
                separator,
            ),
        decreases text@.len() - i,
    {
        let ghost before = split(text@.take(i as int), separator);
        assert(text@.take(i + 1).drop_last() =~= text@.take(i as int));
        if text[i] == separator {
            let piece = slice_to_vec(slice_subrange(text, start, i));
            let ghost done = fields_view(pieces@);
            pieces.push(piece);
            assert(fields_view(pieces@) =~= done.push(piece@));
            start = i + 1;
            assert(text@.subrange(start as int, start as int) =~= Seq::empty());
        } else {
            assert(before.last().push(text@[i as int]) =~= text@.subrange(
                start as int,
                i + 1,
            ));
            assert(fields_view(pieces@).push(text@.subrange(start as int, i + 1)) =~= before.update(
                before.len() - 1,
                before.last().push(text@[i as int]),
            ));
        }
        i += 1;
    }
    let piece = slice_to_vec(slice_subrange(text, start, i));
    let ghost done = fields_view(pieces@);
    pieces.push(piece);
    assert(fields_view(pieces@) =~= done.push(piece@));
    assert(text@.take(i as int) =~= text@);
    pieces
}

/// Decodes a scene from delimited text. The numerals of the scene are the
/// fields as written. Decoding fails at the first line that lacks a field.
pub fn decode_delimited(input: &[u8]) -> (r: Result<Scene<Vec<u8>>, DecodeError>)
    ensures
        match r {
            Ok(scene) => {
                let lines = split(input@, NEWLINE);
                &&& forall|i: int| 0 <= i < lines.len() ==> line_complete(lines, i)
                &&& scene@ == scene_of_lines(lines, lines.len() as int)
            },
            Err(error) => {
                let lines = split(input@, NEWLINE);
                &&& error matches DecodeError::MissingField { line }
                &&& line < lines.len()
                &&& !line_complete(lines, line as int)
                &&& forall|j: int| 0 <= j < line ==> line_complete(lines, j)
            },
        },
{
    let lines = split_bytes(input, NEWLINE);
    let ghost texts = fields_view(lines@);
    let mut scene: Scene<Vec<u8>> = Scene::new();
    assert(scene@.motion_sequences =~= Seq::empty());
    assert(scene@.obstacles =~= Seq::empty());
    let mut i: usize = 0;
    while i < lines.len()
        invariant
            texts == fields_view(lines@),
            texts == split(input@, NEWLINE),
            i <= lines@.len(),
            forall|j: int| 0 <= j < i ==> line_complete(texts, j),
            scene@ == scene_of_lines(texts, i as int),
        decreases lines@.len() - i,
    {
        let fields = split_bytes(lines[i].as_slice(), SEMICOLON);
        assert(fields_view(fields@) == split(texts[i as int], SEMICOLON));
        if !take_record(&mut scene, &fields) {
            assert(!line_complete(texts, i as int));
            return Err(DecodeError::MissingField { line: i });
        }
        i += 1;
    }
    Ok(scene)
}

/// Takes one record into `scene`, if it is complete.
fn take_record(scene: &mut Scene<Vec<u8>>, fields: &Vec<Vec<u8>>) -> (complete: bool)
    ensures
        complete == record_complete(fields_view(fields@)),
        complete ==> final(scene)@ == with_record(old(scene)@, fields_view(fields@)),
{
    let ghost model = fields_view(fields@);
    let ghost before = scene@;
    if fields.len() == 0 {
        return true;
    }
    if is_tag(&fields[0], 0x53, 0x50, None) {
        assert(model[0] =~= slice_tag());
        if fields.len() < 2 {
            return false;
        }
        match read_poses(fields) {
            None => false,
            Some(poses) => {
                let slice = StampedPoses { timestamp: copy_field(fields, 1), poses };
                scene.motion_sequences.push(slice);
                assert(scene@.motion_sequences =~= before.motion_sequences.push(slice@));
                assert(scene@.obstacles =~= before.obstacles);
                true
            },
        }
    } else if is_tag(&fields[0], 0x4c, 0x57, None) {
        assert(model[0] =~= drift_tag());
        assert(model[0] != slice_tag());
        if fields.len() < 3 {
            return false;
        }
        scene.leeway = Some(
            HeadingWithVelocity { heading: copy_field(fields, 1), velocity: copy_field(fields, 2) },
        );
        assert(scene@.motion_sequences =~= before.motion_sequences);
        assert(scene@.obstacles =~= before.obstacles);
        true
    } else if is_tag(&fields[0], 0x4f, 0x42, Some(0x53)) {
        assert(model[0] =~= obstacle_tag());
        assert(model[0] != slice_tag());
        assert(model[0] != drift_tag());
        match read_points(fields) {
            None => false,
            Some(points) => {
                scene.obstacles.push(points);
                assert(scene@.motion_sequences =~= before.motion_sequences);
                assert(scene@.obstacles =~= before.obstacles.push(points_view(points@)));
                true
            },
        }
    } else {
        assert(model[0] != slice_tag());
        assert(model[0] != drift_tag());
        assert(model[0] != obstacle_tag());
        true
    }
}

/// Whether `field` is exactly the two or three bytes given.
fn is_tag(field: &Vec<u8>, first: u8, second: u8, third: Option<u8>) -> (r: bool)
    ensures
        r == (field@ == match third {
            Some(last) => seq![first, second, last],
            None => seq![first, second],
        }),
{
    let r = match third {
        Some(last) => field.len() == 3 && field[0] == first && field[1] == second && field[2]
            == last,
        None => field.len() == 2 && field[0] == first && field[1] == second,
    };
    proof {
        let tag = match third {
            Some(last) => seq![first, second, last],
            None => seq![first, second],
        };
        if r {
            assert(field@ =~= tag);
        } else if field@ == tag {
            assert(field@.len() == tag.len());
            assert(field@[0] == tag[0]);
            assert(field@[1] == tag[1]);
            if third is Some {
                assert(field@[2] == tag[2]);
            }
        }
    }
    r
}

/// A copy of field `i`.
fn copy_field(fields: &Vec<Vec<u8>>, i: usize) -> (r: Vec<u8>)
    requires
        i < fields@.len(),
    ensures
        r@ == fields@[i as int]@,
{
    slice_to_vec(fields[i].as_slice())
}

/// The objects of a time slice, unless a group is cut short.
fn read_poses(fields: &Vec<Vec<u8>>) -> (r: Option<Vec<PoseWithVelocity<Vec<u8>>>>)
    ensures
        r is Some <==> groups_complete(fields_view(fields@), 2, 4),
        r is Some ==> poses_view(r->Some_0@) == poses_from(fields_view(fields@), 2),
{
    let ghost model = fields_view(fields@);
    let count: usize = fields.len();
    let mut poses: Vec<PoseWithVelocity<Vec<u8>>> = Vec::new();
    let mut at: usize = 2;
    assert(poses_view(poses@) =~= Seq::empty());
    while at < count
        invariant
            model == fields_view(fields@),
            count == fields@.len(),
            2 <= at,
            groups_complete(model, 2, 4) == groups_complete(model, at as int, 4),
            poses_from(model, 2) == poses_view(poses@) + poses_from(model, at as int),
        decreases count - at,
    {
        if fields[at].len() > 0 {
            if count - at < 4 {
                return None;
            }
            let pose = PoseWithVelocity {
                pose: Pose {
                    position: Point { x: copy_field(fields, at), y: copy_field(fields, at + 1) },
                    heading: copy_field(fields, at + 2),
                },
                velocity: copy_field(fields, at + 3),
            };
            let ghost done = poses_view(poses@);
            poses.push(pose);
            assert(pose@ == pose_at(model, at as int));
            assert(poses_view(poses@) =~= done.push(pose_at(model, at as int)));
            assert(poses_view(poses@) + poses_from(model, at + 4) =~= done + poses_from(
                model,
                at as int,
            ));
        }
        if count - at <= 4 {
            assert(poses_from(model, at + 4) =~= poses_from(model, count as int));
            assert(groups_complete(model, at + 4, 4) == groups_complete(model, count as int, 4));
            at = count;
        } else {
            at += 4;
        }
    }
    assert(poses_view(poses@) + Seq::empty() =~= poses_view(poses@));
    Some(poses)
}

/// The vertices of an obstacle, unless a group is cut short.
fn read_points(fields: &Vec<Vec<u8>>) -> (r: Option<Vec<Point<Vec<u8>>>>)
    requires
        fields@.len() >= 1,
    ensures
        r is Some <==> groups_complete(fields_view(fields@), 1, 2),
        r is Some ==> points_view(r->Some_0@) == points_from(fields_view(fields@), 1),
{
    let ghost model = fields_view(fields@);
    let count: usize = fields.len();
    let mut points: Vec<Point<Vec<u8>>> = Vec::new();
    let mut at: usize = 1;
    assert(points_view(points@) =~= Seq::empty());
    while at < count
        invariant
            model == fields_view(fields@),
            count == fields@.len(),
            1 <= at,
            groups_complete(model, 1, 2) == groups_complete(model, at as int, 2),
            points_from(model, 1) == points_view(points@) + points_from(model, at as int),
        decreases count - at,
    {
        if fields[at].len() > 0 {
            if count - at < 2 {
                return None;
            }
            let point = Point { x: copy_field(fields, at), y: copy_field(fields, at + 1) };
            let ghost done = points_view(points@);
            points.push(point);
            assert(point@ == point_at(model, at as int));
            assert(points_view(points@) =~= done.push(point_at(model, at as int)));
            assert(points_view(points@) + points_from(model, at + 2) =~= done + points_from(
                model,
                at as int,
            ));
        }
        if count - at <= 2 {
            assert(points_from(model, at + 2) =~= points_from(model, count as int));
            assert(groups_complete(model, at + 2, 2) == groups_complete(model, count as int, 2));
            at = count;
        } else {
            at += 2;
        }
    }
    assert(points_view(points@) + Seq::empty() =~= points_view(points@));
    Some(points)
}

} // verus!
