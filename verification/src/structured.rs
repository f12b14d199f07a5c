//! Scenes as structured text.
//!
//! The root of the document is an object with up to three members:
//!
//! - `motion_sequences`, an array of time slices, each with a `timestamp` and
//!   an array `poses` of objects; an object holds its `velocity` and, under
//!   `pose`, its `heading` and its `position`, with `x` and `y`;
//! - `leeway`, the drift of the scene, with `heading` and `velocity`;
//! - `obstacles`, an array of arrays of vertices, each with `x` and `y`.
//!
//! A member that is missing, or that is no array where one is looked for,
//! stands for nothing. A number that is missing is a fault.

use crate::document::{document_of, parse_document, Decimal, Node};
use crate::error::DecodeError;
use crate::scene::{
    obstacles_view, points_view, poses_view, slices_view, HeadingWithVelocity, Point, Pose,
    PoseWithVelocity, Scene, SceneView, StampedPoses, StampedPosesView,
};
use vstd::prelude::*;

verus! {

/// The number under `key`, where there is one.
pub open spec fn number_under(node: Node, key: Seq<char>) -> Option<Decimal> {
    node.entry(key).number()
}

/// Whether `node` holds the two numbers of a vertex.
pub open spec fn point_complete(node: Node) -> bool {
    number_under(node, "x"@) is Some && number_under(node, "y"@) is Some
}

/// The vertex that `node` holds.
pub open spec fn point_of(node: Node) -> Point<Decimal> {
    Point { x: number_under(node, "x"@)->Some_0, y: number_under(node, "y"@)->Some_0 }
}

/// Whether `node` holds the four numbers of an object.
pub open spec fn pose_complete(node: Node) -> bool {
    &&& point_complete(node.entry("pose"@).entry("position"@))
    &&& number_under(node.entry("pose"@), "heading"@) is Some
    &&& number_under(node, "velocity"@) is Some
}

/// The object that `node` holds.
pub open spec fn pose_of(node: Node) -> PoseWithVelocity<Decimal> {
    PoseWithVelocity {
        pose: Pose {
            position: point_of(node.entry("pose"@).entry("position"@)),
            heading: number_under(node.entry("pose"@), "heading"@)->Some_0,
        },
        velocity: number_under(node, "velocity"@)->Some_0,
    }
}

/// Whether `node` holds the time of a slice and every number of its objects.
pub open spec fn slice_complete(node: Node) -> bool {
    &&& number_under(node, "timestamp"@) is Some
    &&& forall|k: int|
        0 <= k < node.entry("poses"@).items().len() ==> pose_complete(
            #[trigger] node.entry("poses"@).items()[k],
        )
}

/// The time slice that `node` holds.
pub open spec fn slice_of(node: Node) -> StampedPosesView<Decimal> {
    StampedPosesView {
        timestamp: number_under(node, "timestamp"@)->Some_0,
        poses: Seq::new(
            node.entry("poses"@).items().len(),
            |k: int| pose_of(node.entry("poses"@).items()[k]),
        ),
    }
}

/// Whether `node` holds the two numbers of a drift.
pub open spec fn drift_complete(node: Node) -> bool {
    number_under(node, "heading"@) is Some && number_under(node, "velocity"@) is Some
}

/// The drift that `node` holds.
pub open spec fn drift_of(node: Node) -> HeadingWithVelocity<Decimal> {
    HeadingWithVelocity {
        heading: number_under(node, "heading"@)->Some_0,
        velocity: number_under(node, "velocity"@)->Some_0,
    }
}

/// Whether every item of `node` holds the two numbers of a vertex.
pub open spec fn obstacle_complete(node: Node) -> bool {
    forall|i: int| 0 <= i < node.items().len() ==> point_complete(#[trigger] node.items()[i])
}

/// The obstacle that `node` holds.
pub open spec fn obstacle_of(node: Node) -> Seq<Point<Decimal>> {
    Seq::new(node.items().len(), |i: int| point_of(node.items()[i]))
}

/// Whether the document has a drift: a member `leeway` that is not blank.
pub open spec fn drift_present(root: Node) -> bool {
    !root.entry("leeway"@).blank()
}

/// Whether every number that the scene needs is there.
pub open spec fn document_complete(root: Node) -> bool {
    &&& forall|s: int|
        0 <= s < root.entry("motion_sequences"@).items().len() ==> slice_complete(
            #[trigger] root.entry("motion_sequences"@).items()[s],
        )
    &&& drift_present(root) ==> drift_complete(root.entry("leeway"@))
    &&& forall|i: int|
        0 <= i < root.entry("obstacles"@).items().len() ==> obstacle_complete(
            #[trigger] root.entry("obstacles"@).items()[i],
        )
}

/// The scene that a complete document holds.
pub open spec fn document_scene(root: Node) -> SceneView<Decimal> {
    SceneView {
        motion_sequences: Seq::new(
            root.entry("motion_sequences"@).items().len(),
            |s: int| slice_of(root.entry("motion_sequences"@).items()[s]),
        ),
        obstacles: Seq::new(
            root.entry("obstacles"@).items().len(),
            |i: int| obstacle_of(root.entry("obstacles"@).items()[i]),
        ),
        leeway: if drift_present(root) {
            Some(drift_of(root.entry("leeway"@)))
        } else {
            None
        },
    }
}

/// What decoding a document gives: its scene where it is complete, and a
/// fault where it is not.
pub open spec fn decoded(root: Node, r: Result<Scene<Decimal>, DecodeError>) -> bool {
    match r {
        Ok(scene) => document_complete(root) && scene@ == document_scene(root),
        Err(error) => !document_complete(root) && error == DecodeError::MissingNumber,
    }
}

/// Decodes a scene from structured text. The numerals of the scene are the
/// numbers of the document, taken apart. Text that holds no document is a
/// fault of syntax.
pub fn decode_structured(text: &str) -> (r: Result<Scene<Decimal>, DecodeError>)
    ensures
        match document_of(text@) {
            Some(root) => decoded(root, r),
            None => r == Err::<Scene<Decimal>, DecodeError>(DecodeError::Syntax),
        },
{
    match parse_document(text) {
        Some(root) => scene_from_document(&root),
        None => Err(DecodeError::Syntax),
    }
}

/// Decodes a scene from a document.
pub fn scene_from_document(root: &Node) -> (r: Result<Scene<Decimal>, DecodeError>)
    ensures
        decoded(*root, r),
{
    let mut scene: Scene<Decimal> = Scene::new();
    let ghost slice_nodes = root.entry("motion_sequences"@).items();
    let ghost obstacle_nodes = root.entry("obstacles"@).items();
    if let Some(slices) = items_under(root, "motion_sequences") {
        let mut s: usize = 0;
        while s < slices.len()
            invariant
                slice_nodes == root.entry("motion_sequences"@).items(),
                slices@ == slice_nodes,
                s <= slices@.len(),
                forall|j: int| 0 <= j < s ==> slice_complete(#[trigger] slice_nodes[j]),
                scene.motion_sequences@.len() == s,
                forall|j: int|
                    0 <= j < s ==> (#[trigger] scene.motion_sequences@[j])@ == slice_of(
                        slice_nodes[j],
                    ),
                scene.obstacles@.len() == 0,
                scene.leeway is None,
            decreases slices@.len() - s,
        {
            match read_slice(&slices[s]) {
                Some(slice) => scene.motion_sequences.push(slice),
                None => {
                    assert(!slice_complete(slice_nodes[s as int]));
                    return Err(DecodeError::MissingNumber);
                },
            }
            s += 1;
        }
    }
    if let Some(drift) = root.get("leeway") {
        if !drift.is_empty() {
            match read_drift(drift) {
                Some(found) => {
                    scene.leeway = Some(found);
                },
                None => {
                    return Err(DecodeError::MissingNumber);
                },
            }
        }
    }
    if let Some(obstacles) = items_under(root, "obstacles") {
        let mut i: usize = 0;
        while i < obstacles.len()
            invariant
                obstacle_nodes == root.entry("obstacles"@).items(),
                obstacles@ == obstacle_nodes,
                i <= obstacles@.len(),
                forall|j: int| 0 <= j < i ==> obstacle_complete(#[trigger] obstacle_nodes[j]),
                scene.obstacles@.len() == i,
                forall|j: int|
                    0 <= j < i ==> points_view((#[trigger] scene.obstacles@[j])@) == obstacle_of(
                        obstacle_nodes[j],
                    ),
                slices_view(scene.motion_sequences@) == document_scene(*root).motion_sequences,
                scene@.leeway == document_scene(*root).leeway,
            decreases obstacles@.len() - i,
        {
            match read_obstacle(&obstacles[i]) {
                Some(points) => scene.obstacles.push(points),
                None => {
                    assert(!obstacle_complete(obstacle_nodes[i as int]));
                    return Err(DecodeError::MissingNumber);
                },
            }
            i += 1;
        }
    }
    assert(scene@.motion_sequences =~= document_scene(*root).motion_sequences);
    assert(scene@.obstacles =~= document_scene(*root).obstacles);
    Ok(scene)
}

/// The items of the array under `key`, where there is one.
fn items_under<'a>(node: &'a Node, key: &str) -> (r: Option<&'a Vec<Node>>)
    ensures
        match r {
            Some(items) => items@ == node.entry(key@).items(),
            None => node.entry(key@).items() == Seq::<Node>::empty(),
        },
{
    match node.get(key) {
        Some(child) => child.members(),
        None => None,
    }
}

/// The number under `key`, where there is one.
fn read_number(node: &Node, key: &str) -> (r: Option<Decimal>)
    ensures
        r == number_under(*node, key@),
{
    match node.get(key) {
        Some(child) => child.as_number(),
        None => None,
    }
}

/// What stands under `key`, null where nothing does.
fn child_or_null<'a>(node: &'a Node, key: &str, null: &'a Node) -> (r: &'a Node)
    requires
        *null == Node::Null,
    ensures
        *r == node.entry(key@),
{
    match node.get(key) {
        Some(child) => child,
        None => null,
    }
}

fn read_point(node: &Node) -> (r: Option<Point<Decimal>>)
    ensures
        r is Some <==> point_complete(*node),
        r is Some ==> r->Some_0 == point_of(*node),
{
    let x = read_number(node, "x");
    let y = read_number(node, "y");
    match (x, y) {
        (Some(x), Some(y)) => Some(Point { x, y }),
        _ => None,
    }
}

fn read_pose(node: &Node) -> (r: Option<PoseWithVelocity<Decimal>>)
    ensures
        r is Some <==> pose_complete(*node),
        r is Some ==> r->Some_0 == pose_of(*node),
{
    let null = Node::Null;
    let pose = child_or_null(node, "pose", &null);
    let position = read_point(child_or_null(pose, "position", &null));
    let heading = read_number(pose, "heading");
    let velocity = read_number(node, "velocity");
    match (position, heading, velocity) {
        (Some(position), Some(heading), Some(velocity)) => Some(
            PoseWithVelocity { pose: Pose { position, heading }, velocity },
        ),
        _ => None,
    }
}

fn read_drift(node: &Node) -> (r: Option<HeadingWithVelocity<Decimal>>)
    ensures
        r is Some <==> drift_complete(*node),
        r is Some ==> r->Some_0 == drift_of(*node),
{
    let heading = read_number(node, "heading");
    let velocity = read_number(node, "velocity");
    match (heading, velocity) {
        (Some(heading), Some(velocity)) => Some(HeadingWithVelocity { heading, velocity }),
        _ => None,
    }
}

fn read_slice(node: &Node) -> (r: Option<StampedPoses<Decimal>>)
    ensures
        r is Some <==> slice_complete(*node),
        r is Some ==> r->Some_0@ == slice_of(*node),
{
    let ghost nodes = node.entry("poses"@).items();
    let mut poses: Vec<PoseWithVelocity<Decimal>> = Vec::new();
    if let Some(items) = items_under(node, "poses") {
        let mut k: usize = 0;
        while k < items.len()
            invariant
                nodes == node.entry("poses"@).items(),
                items@ == nodes,
                k <= items@.len(),
                forall|j: int| 0 <= j < k ==> pose_complete(#[trigger] nodes[j]),
                poses@.len() == k,
                forall|j: int| 0 <= j < k ==> (#[trigger] poses@[j]) == pose_of(nodes[j]),
            decreases items@.len() - k,
        {
            match read_pose(&items[k]) {
                Some(pose) => poses.push(pose),
                None => {
                    assert(!pose_complete(nodes[k as int]));
                    return None;
                },
            }
            k += 1;
        }
    }
    match read_number(node, "timestamp") {
        Some(timestamp) => {
            let slice = StampedPoses { timestamp, poses };
            assert(slice@.poses =~= slice_of(*node).poses);
            Some(slice)
        },
        None => None,
    }
}

fn read_obstacle(node: &Node) -> (r: Option<Vec<Point<Decimal>>>)
    ensures
        r is Some <==> obstacle_complete(*node),
        r is Some ==> points_view(r->Some_0@) == obstacle_of(*node),
{
    let ghost nodes = node.items();
    let mut points: Vec<Point<Decimal>> = Vec::new();
    if let Some(items) = node.members() {
        let mut i: usize = 0;
        while i < items.len()
            invariant
                nodes == node.items(),
                items@ == nodes,
                i <= items@.len(),
                forall|j: int| 0 <= j < i ==> point_complete(#[trigger] nodes[j]),
                points@.len() == i,
                forall|j: int| 0 <= j < i ==> (#[trigger] points@[j]) == point_of(nodes[j]),
            decreases items@.len() - i,
        {
            match read_point(&items[i]) {
                Some(point) => points.push(point),
                None => {
                    assert(!point_complete(nodes[i as int]));
                    return None;
                },
            }
            i += 1;
        }
    }
    assert(points_view(points@) =~= obstacle_of(*node));
    Some(points)
}

} // verus!
