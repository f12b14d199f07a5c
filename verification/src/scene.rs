//! The scene model: poses of moving objects over time, obstacles, drift.
//!
//! Every type is generic in how a number is held, so that the same structure
//! serves a scene as decoded (numerals as written) and a scene ready to be
//! bounded (bit patterns).

use vstd::prelude::*;

verus! {

/// A planar coordinate.
#[derive(Clone, Copy, Debug, PartialEq, Eq)]
pub struct Point<N> {
    pub x: N,
    pub y: N,
}

/// A positioned, oriented point. The heading is in degrees, clockwise from the
/// vertical axis.
#[derive(Clone, Copy, Debug, PartialEq, Eq)]
pub struct Pose<N> {
    pub position: Point<N>,
    pub heading: N,
}

/// The state of one moving object at one instant.
#[derive(Clone, Copy, Debug, PartialEq, Eq)]
pub struct PoseWithVelocity<N> {
    pub pose: Pose<N>,
    pub velocity: N,
}

/// One time slice. The place of a pose in `poses` names the object: the same
/// place in every slice of a scene is the same object.
#[derive(Clone, Debug, PartialEq, Eq)]
pub struct StampedPoses<N> {
    pub timestamp: N,
    pub poses: Vec<PoseWithVelocity<N>>,
}

/// An ambient drift that applies to the whole scene.
#[derive(Clone, Copy, Debug, PartialEq, Eq)]
pub struct HeadingWithVelocity<N> {
    pub heading: N,
    pub velocity: N,
}

/// Everything there is to draw. The place of a slice in `motion_sequences` is
/// its frame. Each obstacle is a closed polygon.
#[derive(Clone, Debug, PartialEq, Eq)]
pub struct Scene<N> {
    pub motion_sequences: Vec<StampedPoses<N>>,
    pub obstacles: Vec<Vec<Point<N>>>,
    pub leeway: Option<HeadingWithVelocity<N>>,
}

/// The model of a time slice.
pub struct StampedPosesView<M> {
    pub timestamp: M,
    pub poses: Seq<PoseWithVelocity<M>>,
}

/// The model of a scene.
pub struct SceneView<M> {
    pub motion_sequences: Seq<StampedPosesView<M>>,
    pub obstacles: Seq<Seq<Point<M>>>,
    pub leeway: Option<HeadingWithVelocity<M>>,
}

impl<N: View> View for Point<N> {
    type V = Point<N::V>;

    open spec fn view(&self) -> Point<N::V> {
        Point { x: self.x@, y: self.y@ }
    }
}

impl<N: View> View for Pose<N> {
    type V = Pose<N::V>;

    open spec fn view(&self) -> Pose<N::V> {
        Pose { position: self.position@, heading: self.heading@ }
    }
}

impl<N: View> View for PoseWithVelocity<N> {
    type V = PoseWithVelocity<N::V>;

    open spec fn view(&self) -> PoseWithVelocity<N::V> {
        PoseWithVelocity { pose: self.pose@, velocity: self.velocity@ }
    }
}

impl<N: View> View for HeadingWithVelocity<N> {
    type V = HeadingWithVelocity<N::V>;

    open spec fn view(&self) -> HeadingWithVelocity<N::V> {
        HeadingWithVelocity { heading: self.heading@, velocity: self.velocity@ }
    }
}

impl<N: View> View for StampedPoses<N> {
    type V = StampedPosesView<N::V>;

    open spec fn view(&self) -> StampedPosesView<N::V> {
        StampedPosesView { timestamp: self.timestamp@, poses: poses_view(self.poses@) }
    }
}

impl<N: View> View for Scene<N> {
    type V = SceneView<N::V>;

    open spec fn view(&self) -> SceneView<N::V> {
        SceneView {
            motion_sequences: slices_view(self.motion_sequences@),
            obstacles: obstacles_view(self.obstacles@),
            leeway: match self.leeway {
                Some(leeway) => Some(leeway@),
                None => None,
            },
        }
    }
}

/// The models of `poses`, place by place.
pub open spec fn poses_view<N: View>(poses: Seq<PoseWithVelocity<N>>) -> Seq<
    PoseWithVelocity<N::V>,
> {
    Seq::new(poses.len(), |k: int| poses[k]@)
}

/// The models of `points`, place by place.
pub open spec fn points_view<N: View>(points: Seq<Point<N>>) -> Seq<Point<N::V>> {
    Seq::new(points.len(), |i: int| points[i]@)
}

/// The models of `slices`, place by place.
pub open spec fn slices_view<N: View>(slices: Seq<StampedPoses<N>>) -> Seq<
    StampedPosesView<N::V>,
> {
    Seq::new(slices.len(), |s: int| slices[s]@)
}

/// The models of `obstacles`, place by place.
pub open spec fn obstacles_view<N: View>(obstacles: Seq<Vec<Point<N>>>) -> Seq<Seq<Point<N::V>>> {
    Seq::new(obstacles.len(), |i: int| points_view(obstacles[i]@))
}

impl<M> SceneView<M> {
    /// The scene with nothing in it.
    pub open spec fn empty() -> SceneView<M> {
        SceneView { motion_sequences: Seq::empty(), obstacles: Seq::empty(), leeway: None }
    }
}

impl<N> Scene<N> {
    /// The number of frames: one per time slice.
    pub open spec fn frames(&self) -> nat {
        self.motion_sequences@.len()
    }

    /// The number of objects that slice `s` holds.
    pub open spec fn objects_in(&self, s: int) -> nat {
        self.motion_sequences@[s].poses@.len()
    }

    /// Whether slice `s` holds an object at place `k`.
    pub open spec fn has_object(&self, s: int, k: int) -> bool {
        0 <= s < self.frames() && 0 <= k < self.objects_in(s)
    }

    /// Where the object at place `k` of slice `s` is.
    pub open spec fn position(&self, s: int, k: int) -> Point<N> {
        self.motion_sequences@[s].poses@[k].pose.position
    }

    /// The number of objects of the scene: that of its first slice.
    pub open spec fn objects(&self) -> nat {
        if self.frames() == 0 {
            0
        } else {
            self.objects_in(0)
        }
    }

    /// Whether every slice holds as many objects as the first.
    pub open spec fn uniform(&self) -> bool {
        forall|s: int| 0 <= s < self.frames() ==> self.objects_in(s) == self.objects()
    }

    /// A scene with nothing in it.
    pub fn new() -> (r: Scene<N>)
        ensures
            r.motion_sequences@.len() == 0,
            r.obstacles@.len() == 0,
            r.leeway is None,
    {
        Scene { motion_sequences: Vec::new(), obstacles: Vec::new(), leeway: None }
    }
}

} // verus!
