//! The box that bounds where the objects of a scene go.
//!
//! Obstacles do not count: the box is that of the object positions alone. It
//! starts as the first position of the first time slice, or as the origin
//! where there is none, and grows by every position that lies outside it.

use crate::scalar::Scalar;
use crate::scene::{Point, PoseWithVelocity, Scene, StampedPoses};
use vstd::prelude::*;

verus! {

/// An axis-aligned box.
#[derive(Clone, Copy, Debug, PartialEq, Eq, Structural)]
pub struct Bounds {
    pub min_x: Scalar,
    pub min_y: Scalar,
    pub max_x: Scalar,
    pub max_y: Scalar,
}

/// The origin: both coordinates positive zero.
pub open spec fn origin() -> Point<Scalar> {
    Point { x: Scalar { bits: 0 }, y: Scalar { bits: 0 } }
}

/// Whether both coordinates of `p` are numbers.
pub open spec fn numeric(p: Point<Scalar>) -> bool {
    !p.x.nan() && !p.y.nan()
}

impl Bounds {
    /// The box that holds `p` and nothing else.
    pub open spec fn around(p: Point<Scalar>) -> Bounds {
        Bounds { min_x: p.x, min_y: p.y, max_x: p.x, max_y: p.y }
    }

    /// The box grown to hold `p`: a side moves only if `p` lies beyond it.
    pub open spec fn widened(self, p: Point<Scalar>) -> Bounds {
        Bounds {
            min_x: if p.x.below(self.min_x) {
                p.x
            } else {
                self.min_x
            },
            min_y: if p.y.below(self.min_y) {
                p.y
            } else {
                self.min_y
            },
            max_x: if self.max_x.below(p.x) {
                p.x
            } else {
                self.max_x
            },
            max_y: if self.max_y.below(p.y) {
                p.y
            } else {
                self.max_y
            },
        }
    }

    /// Whether `p` lies in the box, sides included.
    pub open spec fn holds(self, p: Point<Scalar>) -> bool {
        &&& self.min_x.at_most(p.x)
        &&& p.x.at_most(self.max_x)
        &&& self.min_y.at_most(p.y)
        &&& p.y.at_most(self.max_y)
    }

    /// Whether every side is a number.
    pub open spec fn numeric(self) -> bool {
        !self.min_x.nan() && !self.min_y.nan() && !self.max_x.nan() && !self.max_y.nan()
    }

    /// Whether the box reaches at least as far as `inner` on every side.
    pub open spec fn encloses(self, inner: Bounds) -> bool {
        &&& self.min_x.rank() <= inner.min_x.rank()
        &&& self.min_y.rank() <= inner.min_y.rank()
        &&& inner.max_x.rank() <= self.max_x.rank()
        &&& inner.max_y.rank() <= self.max_y.rank()
    }

    /// The box grown to hold `p`.
    pub fn widen(&mut self, p: &Point<Scalar>)
        ensures
            *final(self) == old(self).widened(*p),
    {
        if p.x.gt(&self.max_x) {
            self.max_x = p.x;
        }
        if p.y.gt(&self.max_y) {
            self.max_y = p.y;
        }
        if p.x.lt(&self.min_x) {
            self.min_x = p.x;
        }
        if p.y.lt(&self.min_y) {
            self.min_y = p.y;
        }
    }
}

/// `start` grown by the first `count` of `poses`, in order.
pub open spec fn widened_by_poses(
    start: Bounds,
    poses: Seq<PoseWithVelocity<Scalar>>,
    count: int,
) -> Bounds
    decreases count,
{
    if count <= 0 {
        start
    } else {
        widened_by_poses(start, poses, count - 1).widened(poses[count - 1].pose.position)
    }
}

/// `start` grown by every pose of the first `count` of `slices`, in order.
pub open spec fn widened_by_slices(
    start: Bounds,
    slices: Seq<StampedPoses<Scalar>>,
    count: int,
) -> Bounds
    decreases count,
{
    if count <= 0 {
        start
    } else {
        widened_by_poses(
            widened_by_slices(start, slices, count - 1),
            slices[count - 1].poses@,
            slices[count - 1].poses@.len() as int,
        )
    }
}

impl Scene<Scalar> {
    /// Where the box starts: the first position of the first time slice, or
    /// the origin where there is none.
    pub open spec fn seed(&self) -> Point<Scalar> {
        if self.has_object(0, 0) {
            self.position(0, 0)
        } else {
            origin()
        }
    }

    /// The box of the scene: its seed, grown by every position of every time
    /// slice.
    pub open spec fn bounding_box(&self) -> Bounds {
        widened_by_slices(
            Bounds::around(self.seed()),
            self.motion_sequences@,
            self.motion_sequences@.len() as int,
        )
    }

    /// Whether every coordinate of every position is a number.
    pub open spec fn numeric(&self) -> bool {
        forall|s: int, k: int| self.has_object(s, k) ==> numeric(#[trigger] self.position(s, k))
    }

    /// Whether `x` is the first coordinate of the seed or of a position.
    pub open spec fn has_x(&self, x: Scalar) -> bool {
        x == self.seed().x || exists|s: int, k: int|
            self.has_object(s, k) && #[trigger] self.position(s, k).x == x
    }

    /// Whether `y` is the second coordinate of the seed or of a position.
    pub open spec fn has_y(&self, y: Scalar) -> bool {
        y == self.seed().y || exists|s: int, k: int|
            self.has_object(s, k) && #[trigger] self.position(s, k).y == y
    }

    /// The box of the scene. Where every coordinate is a number, the box holds
    /// every position, and each of its sides goes through the seed or through a
    /// position: no smaller box holds them all.
    pub fn bounds(&self) -> (r: Bounds)
        ensures
            r == self.bounding_box(),
            self.numeric() ==> forall|s: int, k: int|
                self.has_object(s, k) ==> r.holds(#[trigger] self.position(s, k)),
            self.has_x(r.min_x) && self.has_x(r.max_x),
            self.has_y(r.min_y) && self.has_y(r.max_y),
    {
        let mut seed = Point { x: Scalar::zero(), y: Scalar::zero() };
        if self.motion_sequences.len() > 0 {
            if self.motion_sequences[0].poses.len() > 0 {
                seed = self.motion_sequences[0].poses[0].pose.position;
            }
        }
        let mut b = Bounds { min_x: seed.x, min_y: seed.y, max_x: seed.x, max_y: seed.y };
        let frames: usize = self.motion_sequences.len();
        let mut s: usize = 0;
        while s < frames
            invariant
                frames == self.motion_sequences@.len(),
                s <= frames,
                b == widened_by_slices(Bounds::around(self.seed()), self.motion_sequences@, s as int),
            decreases frames - s,
        {
            let poses = &self.motion_sequences[s].poses;
            let objects: usize = poses.len();
            let mut k: usize = 0;
            while k < objects
                invariant
                    objects == poses@.len(),
                    k <= objects,
                    b == widened_by_poses(
                        widened_by_slices(
                            Bounds::around(self.seed()),
                            self.motion_sequences@,
                            s as int,
                        ),
                        poses@,
                        k as int,
                    ),
                decreases objects - k,
            {
                b.widen(&poses[k].pose.position);
                k += 1;
            }
            s += 1;
        }
        proof {
            lemma_box_holds_positions(*self);
            lemma_box_is_tight(*self);
        }
        b
    }
}

/// Growing a box by numeric points keeps its sides numbers, never shrinks it,
/// and makes it hold each of the points.
proof fn lemma_widened_by_poses(start: Bounds, poses: Seq<PoseWithVelocity<Scalar>>, count: int)
    requires
        0 <= count <= poses.len(),
        start.numeric(),
        forall|k: int| 0 <= k < count ==> numeric(#[trigger] poses[k].pose.position),
    ensures
        widened_by_poses(start, poses, count).numeric(),
        widened_by_poses(start, poses, count).encloses(start),
        forall|k: int|
            0 <= k < count ==> widened_by_poses(start, poses, count).holds(
                #[trigger] poses[k].pose.position,
            ),
    decreases count,
{
    if count > 0 {
        lemma_widened_by_poses(start, poses, count - 1);
        assert(numeric(poses[count - 1].pose.position));
    }
}

/// Growing a box by the numeric points of several time slices keeps its sides
/// numbers, never shrinks it, and makes it hold each of the points.
proof fn lemma_widened_by_slices(start: Bounds, slices: Seq<StampedPoses<Scalar>>, count: int)
    requires
        0 <= count <= slices.len(),
        start.numeric(),
        forall|s: int, k: int|
            0 <= s < count && 0 <= k < slices[s].poses@.len() ==> numeric(
                #[trigger] slices[s].poses@[k].pose.position,
            ),
    ensures
        widened_by_slices(start, slices, count).numeric(),
        widened_by_slices(start, slices, count).encloses(start),
        forall|s: int, k: int|
            0 <= s < count && 0 <= k < slices[s].poses@.len() ==> widened_by_slices(
                start,
                slices,
                count,
            ).holds(#[trigger] slices[s].poses@[k].pose.position),
    decreases count,
{
    if count > 0 {
        lemma_widened_by_slices(start, slices, count - 1);
        let before = widened_by_slices(start, slices, count - 1);
        let poses = slices[count - 1].poses@;
        assert forall|k: int| 0 <= k < poses.len() implies numeric(
            #[trigger] poses[k].pose.position,
        ) by {
            assert(numeric(slices[count - 1].poses@[k].pose.position));
        }
        lemma_widened_by_poses(before, poses, poses.len() as int);
        let after = widened_by_slices(start, slices, count);
        assert forall|s: int, k: int|
            0 <= s < count && 0 <= k < slices[s].poses@.len() implies after.holds(
            #[trigger] slices[s].poses@[k].pose.position,
        ) by {
            if s < count - 1 {
                assert(before.holds(slices[s].poses@[k].pose.position));
            } else {
                assert(after.holds(poses[k].pose.position));
            }
        }
    }
}

/// The box of a scene holds every position of every time slice, provided that
/// every coordinate is a number.
pub proof fn lemma_box_holds_positions(scene: Scene<Scalar>)
    ensures
        scene.numeric() ==> forall|s: int, k: int|
            scene.has_object(s, k) ==> scene.bounding_box().holds(
                #[trigger] scene.position(s, k),
            ),
{
    if scene.numeric() {
        let slices = scene.motion_sequences@;
        if scene.has_object(0, 0) {
            assert(numeric(scene.position(0, 0)));
        }
        assert forall|s: int, k: int|
            0 <= s < slices.len() && 0 <= k < slices[s].poses@.len() implies numeric(
            #[trigger] slices[s].poses@[k].pose.position,
        ) by {
            assert(scene.has_object(s, k));
            assert(numeric(scene.position(s, k)));
        }
        lemma_widened_by_slices(Bounds::around(scene.seed()), slices, slices.len() as int);
        assert forall|s: int, k: int| scene.has_object(s, k) implies scene.bounding_box().holds(
            #[trigger] scene.position(s, k),
        ) by {
            assert(scene.bounding_box().holds(slices[s].poses@[k].pose.position));
        }
    }
}

/// Whether `x` is a first coordinate that the box may take from `start` or
/// from the first `count` of `poses`.
spec fn drawn_x(x: Scalar, start: Bounds, poses: Seq<PoseWithVelocity<Scalar>>, count: int) -> bool {
    x == start.min_x || x == start.max_x || exists|k: int|
        0 <= k < count && #[trigger] poses[k].pose.position.x == x
}

/// Whether `y` is a second coordinate that the box may take from `start` or
/// from the first `count` of `poses`.
spec fn drawn_y(y: Scalar, start: Bounds, poses: Seq<PoseWithVelocity<Scalar>>, count: int) -> bool {
    y == start.min_y || y == start.max_y || exists|k: int|
        0 <= k < count && #[trigger] poses[k].pose.position.y == y
}

/// Each side of a grown box is a side of the box it grew from or goes through
/// one of the points.
proof fn lemma_sides_from_poses(start: Bounds, poses: Seq<PoseWithVelocity<Scalar>>, count: int)
    requires
        0 <= count <= poses.len(),
    ensures
        drawn_x(widened_by_poses(start, poses, count).min_x, start, poses, count),
        drawn_x(widened_by_poses(start, poses, count).max_x, start, poses, count),
        drawn_y(widened_by_poses(start, poses, count).min_y, start, poses, count),
        drawn_y(widened_by_poses(start, poses, count).max_y, start, poses, count),
    decreases count,
{
    if count > 0 {
        lemma_sides_from_poses(start, poses, count - 1);
        let before = widened_by_poses(start, poses, count - 1);
        let p = poses[count - 1].pose.position;
        assert(poses[count - 1].pose.position.x == p.x);
        assert(poses[count - 1].pose.position.y == p.y);
        assert(forall|x: Scalar|
            drawn_x(x, start, poses, count - 1) ==> drawn_x(x, start, poses, count));
        assert(forall|y: Scalar|
            drawn_y(y, start, poses, count - 1) ==> drawn_y(y, start, poses, count));
    }
}

/// Each side of the box of a scene goes through the seed or through a
/// position.
pub proof fn lemma_box_is_tight(scene: Scene<Scalar>)
    ensures
        scene.has_x(scene.bounding_box().min_x),
        scene.has_x(scene.bounding_box().max_x),
        scene.has_y(scene.bounding_box().min_y),
        scene.has_y(scene.bounding_box().max_y),
{
    lemma_sides_from_slices(scene, scene.motion_sequences@.len() as int);
}

/// Each side of the box after the first `count` time slices goes through the
/// seed or through a position.
proof fn lemma_sides_from_slices(scene: Scene<Scalar>, count: int)
    requires
        0 <= count <= scene.motion_sequences@.len(),
    ensures
        ({
            let b = widened_by_slices(
                Bounds::around(scene.seed()),
                scene.motion_sequences@,
                count,
            );
            &&& scene.has_x(b.min_x)
            &&& scene.has_x(b.max_x)
            &&& scene.has_y(b.min_y)
            &&& scene.has_y(b.max_y)
        }),
    decreases count,
{
    if count > 0 {
        lemma_sides_from_slices(scene, count - 1);
        let start = Bounds::around(scene.seed());
        let before = widened_by_slices(start, scene.motion_sequences@, count - 1);
        let poses = scene.motion_sequences@[count - 1].poses@;
        lemma_sides_from_poses(before, poses, poses.len() as int);
        assert forall|x: Scalar| drawn_x(x, before, poses, poses.len() as int) implies scene.has_x(
            x,
        ) by {
            if x != before.min_x && x != before.max_x {
                let k = choose|k: int|
                    0 <= k < poses.len() && #[trigger] poses[k].pose.position.x == x;
                assert(scene.has_object(count - 1, k));
                assert(scene.position(count - 1, k).x == x);
            }
        }
        assert forall|y: Scalar| drawn_y(y, before, poses, poses.len() as int) implies scene.has_y(
            y,
        ) by {
            if y != before.min_y && y != before.max_y {
                let k = choose|k: int|
                    0 <= k < poses.len() && #[trigger] poses[k].pose.position.y == y;
                assert(scene.has_object(count - 1, k));
                assert(scene.position(count - 1, k).y == y);
            }
        }
    }
}

} // verus!
