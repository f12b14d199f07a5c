//! What each frame draws, and in which order.
//!
//! A frame is a list of drawing commands. The commands name what to draw by
//! place in the scene; a backend looks the coordinates up and puts the shapes
//! on its canvas, first command first.

use crate::palette::{Palette, Rgb, SHADES};
use crate::scene::Scene;
use vstd::prelude::*;

verus! {

/// How many steps back a trail reaches.
pub const TRAIL_DEPTH: usize = 4;

/// One thing to put on the canvas.
#[derive(Clone, Copy, Debug, PartialEq, Eq, Structural)]
pub enum DrawCommand {
    /// The obstacle at place `index`, as a closed and filled polygon.
    Obstacle { index: usize },
    /// One step of a trail: a line from where `object` was in frame
    /// `from_frame` to where it was in frame `to_frame`.
    Trail { object: usize, from_frame: usize, to_frame: usize, colour: Rgb },
    /// A small circle where `object` is in frame `frame`.
    Marker { object: usize, frame: usize, colour: Rgb },
    /// The plate behind the time label.
    TimePlate,
    /// The time of frame `frame`, as text.
    TimeLabel { frame: usize },
    /// The plate behind the drift dial.
    DriftPlate,
    /// The arrow of the drift dial, pointing where the scene drifts.
    DriftArrow,
    /// The speed of the drift, as text.
    DriftLabel,
    /// The circle of the drift dial.
    DriftDial,
}

/// What a line or an area is painted with.
#[derive(Clone, Copy, Debug, PartialEq, Eq, Structural)]
pub enum Paint {
    /// Nothing: the area stays open.
    Clear,
    /// Black.
    Black,
    /// The colour given.
    Colour(Rgb),
}

/// How a shape is drawn. The width of the line is in tenths of a point.
#[derive(Clone, Copy, Debug, PartialEq, Eq, Structural)]
pub struct Style {
    pub edge: Paint,
    pub face: Paint,
    pub line_width: u32,
}

impl Paint {
    /// The paint as drawing backends name it.
    pub open spec fn name_text(self) -> Seq<char> {
        match self {
            Paint::Clear => "None"@,
            Paint::Black => "black"@,
            Paint::Colour(colour) => colour.hex_text(),
        }
    }

    /// The paint as drawing backends name it: `None`, `black`, or `#rrggbb`.
    pub fn name(&self) -> (r: String)
        ensures
            r@ == self.name_text(),
    {
        match self {
            Paint::Clear => String::from_str("None"),
            Paint::Black => String::from_str("black"),
            Paint::Colour(colour) => colour.hex(),
        }
    }
}

impl DrawCommand {
    /// How the shape of a command is drawn; nothing for a label, which is
    /// text. Obstacles are dark with a heavy black outline, trails and markers
    /// are lines in the colour of the command, plates are light with a thin
    /// black outline, and the dial is a black circle.
    pub open spec fn style_model(self) -> Option<Style> {
        match self {
            DrawCommand::Obstacle { .. } => Some(
                Style {
                    edge: Paint::Black,
                    face: Paint::Colour(Rgb { red: 0x44, green: 0x44, blue: 0x44 }),
                    line_width: 30,
                },
            ),
            DrawCommand::Trail { colour, .. } => Some(
                Style { edge: Paint::Colour(colour), face: Paint::Clear, line_width: 20 },
            ),
            DrawCommand::Marker { colour, .. } => Some(
                Style { edge: Paint::Colour(colour), face: Paint::Clear, line_width: 20 },
            ),
            DrawCommand::TimePlate => Some(
                Style {
                    edge: Paint::Black,
                    face: Paint::Colour(Rgb { red: 0xff, green: 0xff, blue: 0xff }),
                    line_width: 5,
                },
            ),
            DrawCommand::DriftPlate => Some(
                Style {
                    edge: Paint::Black,
                    face: Paint::Colour(Rgb { red: 0xee, green: 0xee, blue: 0xee }),
                    line_width: 5,
                },
            ),
            DrawCommand::DriftArrow => Some(
                Style {
                    edge: Paint::Black,
                    face: Paint::Colour(Rgb { red: 0xee, green: 0xee, blue: 0xee }),
                    line_width: 5,
                },
            ),
            DrawCommand::DriftDial => Some(
                Style { edge: Paint::Black, face: Paint::Clear, line_width: 20 },
            ),
            DrawCommand::TimeLabel { .. } => None,
            DrawCommand::DriftLabel => None,
        }
    }

    /// How the shape of the command is drawn; nothing for a label.
    pub fn style(&self) -> (r: Option<Style>)
        ensures
            r == self.style_model(),
    {
        let light = Paint::Colour(Rgb { red: 0xee, green: 0xee, blue: 0xee });
        match self {
            DrawCommand::Obstacle { .. } => Some(
                Style {
                    edge: Paint::Black,
                    face: Paint::Colour(Rgb { red: 0x44, green: 0x44, blue: 0x44 }),
                    line_width: 30,
                },
            ),
            DrawCommand::Trail { colour, .. } | DrawCommand::Marker { colour, .. } => Some(
                Style { edge: Paint::Colour(*colour), face: Paint::Clear, line_width: 20 },
            ),
            DrawCommand::TimePlate => Some(
                Style {
                    edge: Paint::Black,
                    face: Paint::Colour(Rgb { red: 0xff, green: 0xff, blue: 0xff }),
                    line_width: 5,
                },
            ),
            DrawCommand::DriftPlate | DrawCommand::DriftArrow => Some(
                Style { edge: Paint::Black, face: light, line_width: 5 },
            ),
            DrawCommand::DriftDial => Some(
                Style { edge: Paint::Black, face: Paint::Clear, line_width: 20 },
            ),
            DrawCommand::TimeLabel { .. } | DrawCommand::DriftLabel => None,
        }
    }
}

/// Why a scene cannot be drawn.
#[derive(Clone, Copy, Debug, PartialEq, Eq, Structural)]
pub enum RenderError {
    /// Slice `sequence` holds `count` objects, and the palette has rows for
    /// `supported` only.
    TooManyObjects { sequence: usize, count: usize, supported: usize },
    /// Slice `sequence` holds `found` objects where the first slice holds
    /// `expected`.
    ObjectCountMismatch { sequence: usize, expected: usize, found: usize },
}

impl RenderError {
    /// The slice that the error is about.
    pub open spec fn sequence(self) -> usize {
        match self {
            RenderError::TooManyObjects { sequence, .. } => sequence,
            RenderError::ObjectCountMismatch { sequence, .. } => sequence,
        }
    }
}

/// Whether slice `s` can be drawn: the palette has a row for each of its
/// objects, and it holds as many as the first slice.
pub open spec fn slice_fits<N>(scene: &Scene<N>, capacity: nat, s: int) -> bool {
    scene.objects_in(s) <= capacity && scene.objects_in(s) == scene.objects()
}

/// Whether every slice can be drawn.
pub open spec fn drawable<N>(scene: &Scene<N>, capacity: nat) -> bool {
    forall|s: int| 0 <= s < scene.frames() ==> slice_fits(scene, capacity, s)
}

/// What is wrong with slice `s`, given that it does not fit: too many objects
/// comes before a count that differs.
pub open spec fn misfit<N>(scene: &Scene<N>, capacity: nat, s: int) -> RenderError {
    if scene.objects_in(s) > capacity {
        RenderError::TooManyObjects {
            sequence: s as usize,
            count: scene.objects_in(s) as usize,
            supported: capacity as usize,
        }
    } else {
        RenderError::ObjectCountMismatch {
            sequence: s as usize,
            expected: scene.objects() as usize,
            found: scene.objects_in(s) as usize,
        }
    }
}

/// The first frame that the trails of frame `f` start from.
pub open spec fn oldest_step(f: int) -> int {
    if f > TRAIL_DEPTH {
        f - TRAIL_DEPTH
    } else {
        0
    }
}

/// Every obstacle, in scene order.
pub open spec fn obstacle_layer(obstacles: nat) -> Seq<DrawCommand> {
    Seq::new(obstacles, |i: int| DrawCommand::Obstacle { index: i as usize })
}

/// The step from frame `s` to the next of every object's trail, as frame `f`
/// shows it: the older the step, the later the shade.
pub open spec fn trail_step(palette: &Palette, objects: nat, f: int, s: int) -> Seq<DrawCommand> {
    Seq::new(
        objects,
        |k: int|
            DrawCommand::Trail {
                object: k as usize,
                from_frame: s as usize,
                to_frame: (s + 1) as usize,
                colour: palette.shade(k, f - s),
            },
    )
}

/// The trail steps that start in frames `from` up to, not including, `to`,
/// oldest first.
pub open spec fn trail_steps(palette: &Palette, objects: nat, f: int, from: int, to: int) -> Seq<
    DrawCommand,
>
    decreases to - from,
{
    if to <= from {
        Seq::empty()
    } else {
        trail_steps(palette, objects, f, from, to - 1) + trail_step(palette, objects, f, to - 1)
    }
}

/// The trails of frame `f`: the last steps that led to it, four at most.
pub open spec fn trail_layer(palette: &Palette, objects: nat, f: int) -> Seq<DrawCommand> {
    trail_steps(palette, objects, f, oldest_step(f), f)
}

/// Where every object is in frame `f`, in its freshest shade.
pub open spec fn marker_layer(palette: &Palette, objects: nat, f: int) -> Seq<DrawCommand> {
    Seq::new(
        objects,
        |k: int|
            DrawCommand::Marker { object: k as usize, frame: f as usize, colour: palette.shade(k, 0) },
    )
}

/// The annotations: the time of frame `f`, then the drift dial where the scene
/// has a drift.
pub open spec fn overlay_layer(f: int, drift: bool) -> Seq<DrawCommand> {
    let time = seq![DrawCommand::TimePlate, DrawCommand::TimeLabel { frame: f as usize }];
    if drift {
        time + seq![
            DrawCommand::DriftPlate,
            DrawCommand::DriftArrow,
            DrawCommand::DriftLabel,
            DrawCommand::DriftDial,
        ]
    } else {
        time
    }
}

/// Everything that frame `f` of `scene` shows, bottom layer first: obstacles,
/// trails, markers, annotations.
pub open spec fn display_list<N>(scene: &Scene<N>, palette: &Palette, f: int) -> Seq<DrawCommand> {
    obstacle_layer(scene.obstacles@.len()) + trail_layer(palette, scene.objects(), f)
        + marker_layer(palette, scene.objects(), f) + overlay_layer(f, scene.leeway is Some)
}

/// Whether `command` is a step of a trail that frame `f` may show: it leads
/// from one frame to the next, starts no more than four frames before `f` and
/// not before the first frame, ends no later than `f`, belongs to one of the
/// `objects`, and has the shade of its age.
pub open spec fn recent_step(command: DrawCommand, palette: &Palette, objects: nat, f: int) -> bool {
    match command {
        DrawCommand::Trail { object, from_frame, to_frame, colour } => {
            &&& object < objects
            &&& 0 <= from_frame
            &&& f - TRAIL_DEPTH <= from_frame
            &&& to_frame == from_frame + 1
            &&& to_frame <= f
            &&& colour == palette.shade(object as int, f - from_frame)
        },
        _ => false,
    }
}

/// The trail steps that start in frames `from` up to `to` are `objects` for
/// each frame, and each is a step that frame `f` may show.
proof fn lemma_trail_steps(palette: &Palette, objects: nat, f: int, from: int, to: int)
    requires
        objects <= usize::MAX,
        0 <= from <= to <= f <= usize::MAX,
        f - TRAIL_DEPTH <= from,
    ensures
        trail_steps(palette, objects, f, from, to).len() == (to - from) * objects,
        forall|i: int|
            0 <= i < trail_steps(palette, objects, f, from, to).len() ==> recent_step(
                #[trigger] trail_steps(palette, objects, f, from, to)[i],
                palette,
                objects,
                f,
            ),
    decreases to - from,
{
    if from < to {
        lemma_trail_steps(palette, objects, f, from, to - 1);
        assert((to - from) * objects == (to - 1 - from) * objects + objects) by (nonlinear_arith);
    } else {
        assert((to - from) * objects == 0) by (nonlinear_arith)
            requires
                to - from == 0,
        ;
    }
}

/// Trails are short and unbroken. Every trail command among those of frame
/// `f` leads from a frame to the very next one, and both frames lie between
/// the fourth before `f`, or the first frame where there are fewer, and `f`
/// itself. Nothing but the trail layer holds trail commands.
pub proof fn lemma_trails_are_recent<N>(scene: &Scene<N>, palette: &Palette, f: int, i: int)
    requires
        0 <= f < scene.frames(),
        0 <= i < display_list(scene, palette, f).len(),
        display_list(scene, palette, f)[i] is Trail,
    ensures
        recent_step(display_list(scene, palette, f)[i], palette, scene.objects(), f),
        oldest_step(f) <= display_list(scene, palette, f)[i]->from_frame,
        display_list(scene, palette, f)[i]->to_frame <= f,
        display_list(scene, palette, f)[i]->to_frame == display_list(scene, palette, f)[i]->from_frame
            + 1,
{
    let objects = scene.objects();
    let obstacles = obstacle_layer(scene.obstacles@.len());
    let trails = trail_layer(palette, objects, f);
    let markers = marker_layer(palette, objects, f);
    let overlay = overlay_layer(f, scene.leeway is Some);
    assert(scene.motion_sequences.len() == scene.frames());
    assert(scene.motion_sequences@[0].poses.len() == objects);
    lemma_trail_steps(palette, objects, f, oldest_step(f), f);
    if i < obstacles.len() {
        assert(display_list(scene, palette, f)[i] == obstacles[i]);
    } else if i < obstacles.len() + trails.len() {
        assert(display_list(scene, palette, f)[i] == trails[i - obstacles.len()]);
    } else if i < obstacles.len() + trails.len() + markers.len() {
        assert(display_list(scene, palette, f)[i] == markers[i - obstacles.len() - trails.len()]);
    } else {
        assert(display_list(scene, palette, f)[i] == overlay[i - obstacles.len() - trails.len()
            - markers.len()]);
    }
}

/// A scene together with the palette it is drawn in. Every slice of the scene
/// holds the same number of objects, and the palette has a row for each.
pub struct Renderer<N> {
    scene: Scene<N>,
    palette: Palette,
}

impl<N> Renderer<N> {
    #[verifier::type_invariant]
    spec fn fits(&self) -> bool {
        drawable(&self.scene, self.palette.capacity())
    }

    /// The scene that is drawn.
    pub closed spec fn scene_model(&self) -> Scene<N> {
        self.scene
    }

    /// The palette that it is drawn in.
    pub closed spec fn palette_model(&self) -> Palette {
        self.palette
    }

    /// Pairs `scene` with `palette`, if the scene can be drawn in it. Where it
    /// cannot, the error is about the first slice that does not fit.
    pub fn new(scene: Scene<N>, palette: Palette) -> (r: Result<Renderer<N>, RenderError>)
        ensures
            match r {
                Ok(renderer) => {
                    &&& drawable(&scene, palette.capacity())
                    &&& renderer.scene_model() == scene
                    &&& renderer.palette_model() == palette
                },
                Err(error) => {
                    let s = error.sequence() as int;
                    &&& 0 <= s < scene.frames()
                    &&& !slice_fits(&scene, palette.capacity(), s)
                    &&& forall|j: int| 0 <= j < s ==> slice_fits(&scene, palette.capacity(), j)
                    &&& error == misfit(&scene, palette.capacity(), s)
                },
            },
    {
        let frames: usize = scene.motion_sequences.len();
        let supported: usize = palette.rows.len();
        let mut s: usize = 0;
        while s < frames
            invariant
                frames == scene.frames(),
                supported == palette.capacity(),
                s <= frames,
                forall|j: int| 0 <= j < s ==> slice_fits(&scene, supported as nat, j),
            decreases frames - s,
        {
            let found: usize = scene.motion_sequences[s].poses.len();
            let expected: usize = scene.motion_sequences[0].poses.len();
            if found > supported {
                return Err(RenderError::TooManyObjects { sequence: s, count: found, supported });
            }
            if found != expected {
                return Err(RenderError::ObjectCountMismatch { sequence: s, expected, found });
            }
            s += 1;
        }
        Ok(Renderer { scene, palette })
    }

    /// The scene that is drawn.
    pub fn scene(&self) -> (r: &Scene<N>)
        ensures
            *r == self.scene_model(),
    {
        &self.scene
    }

    /// The palette that it is drawn in.
    pub fn palette(&self) -> (r: &Palette)
        ensures
            *r == self.palette_model(),
    {
        &self.palette
    }

    /// The number of frames: one per time slice of the scene.
    pub fn frame_count(&self) -> (r: usize)
        ensures
            r == self.scene_model().frames(),
    {
        self.scene.motion_sequences.len()
    }

    /// What frame `f` shows, first command first; nothing where the scene has
    /// no such frame.
    pub fn frame(&self, f: usize) -> (r: Option<Vec<DrawCommand>>)
        ensures
            f >= self.scene_model().frames() ==> r is None,
            f < self.scene_model().frames() ==> r is Some && r->Some_0@ == display_list(
                &self.scene_model(),
                &self.palette_model(),
                f as int,
            ),
    {
        proof {
            use_type_invariant(self);
        }
        if f >= self.scene.motion_sequences.len() {
            return None;
        }
        let objects: usize = self.scene.motion_sequences[0].poses.len();
        assert(slice_fits(&self.scene, self.palette.capacity(), 0));
        let mut list: Vec<DrawCommand> = Vec::new();
        self.push_obstacles(&mut list);
        self.push_trails(&mut list, objects, f);
        self.push_markers(&mut list, objects, f);
        list.push(DrawCommand::TimePlate);
        list.push(DrawCommand::TimeLabel { frame: f });
        if self.scene.leeway.is_some() {
            list.push(DrawCommand::DriftPlate);
            list.push(DrawCommand::DriftArrow);
            list.push(DrawCommand::DriftLabel);
            list.push(DrawCommand::DriftDial);
        }
        assert(list@ =~= display_list(&self.scene, &self.palette, f as int));
        Some(list)
    }

    fn push_obstacles(&self, list: &mut Vec<DrawCommand>)
        ensures
            final(list)@ == old(list)@ + obstacle_layer(self.scene.obstacles@.len()),
    {
        let count: usize = self.scene.obstacles.len();
        let mut i: usize = 0;
        while i < count
            invariant
                count == self.scene.obstacles@.len(),
                i <= count,
                list@ == old(list)@ + obstacle_layer(i as nat),
            decreases count - i,
        {
            list.push(DrawCommand::Obstacle { index: i });
            i += 1;
            assert(list@ =~= old(list)@ + obstacle_layer(i as nat));
        }
    }

    fn push_trails(&self, list: &mut Vec<DrawCommand>, objects: usize, f: usize)
        requires
            objects <= self.palette.capacity(),
        ensures
            final(list)@ == old(list)@ + trail_layer(&self.palette, objects as nat, f as int),
    {
        let oldest: usize = if f > TRAIL_DEPTH { f - TRAIL_DEPTH } else { 0 };
        let mut s: usize = oldest;
        while s < f
            invariant
                objects <= self.palette.capacity(),
                oldest == oldest_step(f as int),
                oldest <= s <= f,
                list@ == old(list)@ + trail_steps(
                    &self.palette,
                    objects as nat,
                    f as int,
                    oldest as int,
                    s as int,
                ),
            decreases f - s,
        {
            let ghost before = list@;
            let mut k: usize = 0;
            while k < objects
                invariant
                    objects <= self.palette.capacity(),
                    oldest <= s < f,
                    f - s <= TRAIL_DEPTH,
                    k <= objects,
                    list@ == before + trail_step(
                        &self.palette,
                        objects as nat,
                        f as int,
                        s as int,
                    ).take(k as int),
                decreases objects - k,
            {
                let colour = self.palette.rows[k][f - s];
                list.push(
                    DrawCommand::Trail { object: k, from_frame: s, to_frame: s + 1, colour },
                );
                k += 1;
                assert(list@ =~= before + trail_step(
                    &self.palette,
                    objects as nat,
                    f as int,
                    s as int,
                ).take(k as int));
            }
            s += 1;
            assert(list@ =~= old(list)@ + trail_steps(
                &self.palette,
                objects as nat,
                f as int,
                oldest as int,
                s as int,
            ));
        }
    }

    fn push_markers(&self, list: &mut Vec<DrawCommand>, objects: usize, f: usize)
        requires
            objects <= self.palette.capacity(),
        ensures
            final(list)@ == old(list)@ + marker_layer(&self.palette, objects as nat, f as int),
    {
        let mut k: usize = 0;
        while k < objects
            invariant
                objects <= self.palette.capacity(),
                k <= objects,
                list@ == old(list)@ + marker_layer(&self.palette, objects as nat, f as int).take(
                    k as int,
                ),
            decreases objects - k,
        {
            let colour = self.palette.rows[k][0];
            list.push(DrawCommand::Marker { object: k, frame: f, colour });
            k += 1;
            assert(list@ =~= old(list)@ + marker_layer(
                &self.palette,
                objects as nat,
                f as int,
            ).take(k as int));
        }
    }
}

} // verus!
