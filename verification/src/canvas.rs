//! What the renderer asks of the canvas: the operations of one frame, in the
//! order in which they are to be carried out.

use crate::draw_data::{Color, Point};
use vstd::prelude::*;

verus! {

/// A vertex of the canvas: position in framebuffer pixels, color, normalized
/// texture coordinate.
#[derive(Clone, Copy, Debug, PartialEq, Eq, Structural)]
pub struct Vertex {
    pub position: Point,
    pub color: Color,
    pub tex_coord: Point,
}

/// A clip rectangle in whole framebuffer pixels.
#[derive(Clone, Copy, Debug, PartialEq, Eq, Structural)]
pub struct ClipRect {
    pub x: i32,
    pub y: i32,
    pub width: u32,
    pub height: u32,
}

/// Why a frame, or the initialization, was given up. None of these is retried
/// by the renderer.
#[derive(Clone, Copy, Debug, PartialEq, Eq, Structural)]
pub enum RenderError {
    /// The pixel surface for the font atlas could not be created.
    SurfaceCreationFailed,
    /// The font atlas could not be uploaded as a texture.
    TextureUploadFailed,
    /// The canvas refused a batch of geometry, with this status.
    GeometrySubmissionFailed(i32),
    /// A draw command names a texture that the texture table does not hold.
    TextureIdOutOfRange(usize),
}

/// One request to the canvas.
#[derive(Clone, Debug, PartialEq, Eq)]
pub enum CanvasOp {
    /// Draw indexed triangles with a color and a texture coordinate for each
    /// vertex and no texture bound. The counts are what the canvas is told the
    /// lengths of the two buffers are.
    RenderGeometry { vertices: Vec<Vertex>, vertex_count: i32, indices: Vec<i32>, index_count: i32 },
    /// Restrict drawing to a rectangle. The canvas adjusts the rectangle as
    /// `canvas_rect` says.
    SetClipRect { rect: ClipRect },
    /// Lift the restriction.
    ClearClipRect,
    /// Run the host's callback for the command at place `command` of the draw
    /// list at place `list`.
    InvokeCallback { list: usize, command: usize },
}

/// A request to the canvas, as sequences.
pub enum Operation {
    RenderGeometry { vertices: Seq<Vertex>, vertex_count: i32, indices: Seq<i32>, index_count: i32 },
    SetClipRect { rect: ClipRect },
    ClearClipRect,
    InvokeCallback { list: nat, command: nat },
}

impl View for CanvasOp {
    type V = Operation;

    open spec fn view(&self) -> Operation {
        match *self {
            CanvasOp::RenderGeometry { vertices, vertex_count, indices, index_count } => {
                Operation::RenderGeometry {
                    vertices: vertices@,
                    vertex_count,
                    indices: indices@,
                    index_count,
                }
            },
            CanvasOp::SetClipRect { rect } => Operation::SetClipRect { rect },
            CanvasOp::ClearClipRect => Operation::ClearClipRect,
            CanvasOp::InvokeCallback { list, command } => Operation::InvokeCallback {
                list: list as nat,
                command: command as nat,
            },
        }
    }
}

/// The operations of one frame. They are carried out in order, step by step
/// as `first_step` and `next_step` say; where `failure` is set, the frame ends
/// with that error once they are done.
#[derive(Clone, Debug, PartialEq, Eq)]
pub struct RenderPlan {
    pub ops: Vec<CanvasOp>,
    pub failure: Option<RenderError>,
}

/// A plan as a sequence.
pub struct PlanView {
    pub ops: Seq<Operation>,
    pub failure: Option<RenderError>,
}

impl View for RenderPlan {
    type V = PlanView;

    open spec fn view(&self) -> PlanView {
        PlanView { ops: self.ops@.map_values(|op: CanvasOp| op@), failure: self.failure }
    }
}

impl PlanView {
    /// No operation and no failure.
    pub open spec fn nothing() -> PlanView {
        PlanView { ops: Seq::empty(), failure: None }
    }

    /// The plan followed by one more step. A plan that has failed takes no
    /// further step; a step that fails adds no operation.
    pub open spec fn followed_by(self, step: Result<Seq<Operation>, RenderError>) -> PlanView {
        if self.failure is Some {
            self
        } else {
            match step {
                Ok(ops) => PlanView { ops: self.ops + ops, failure: None },
                Err(error) => PlanView { ops: self.ops, failure: Some(error) },
            }
        }
    }
}

/// What the one who carries out a plan does next.
#[derive(Clone, Copy, Debug, PartialEq, Eq, Structural)]
pub enum Step {
    /// Carry out the operation at this place of the plan, then ask again.
    Perform(usize),
    /// The frame is drawn.
    Done,
    /// The frame is given up with this error. Nothing more is asked of the
    /// canvas.
    Failed(RenderError),
}

impl PlanView {
    /// The step that a place of the plan stands for: the operation there, or,
    /// past the last operation, the end of the frame.
    pub open spec fn step_at(self, place: int) -> Step {
        if 0 <= place < self.ops.len() {
            Step::Perform(place as usize)
        } else {
            match self.failure {
                Some(error) => Step::Failed(error),
                None => Step::Done,
            }
        }
    }

    /// The step that follows the operation at `place`, once the canvas has
    /// answered it with `status`. A batch of geometry that the canvas answers
    /// with anything but zero ends the frame there: no operation after it is
    /// carried out, and the batch is not submitted again. The answer to any
    /// other operation does not matter.
    pub open spec fn step_after(self, place: int, status: i32) -> Step {
        if 0 <= place < self.ops.len() && self.ops[place] is RenderGeometry && status != 0 {
            Step::Failed(RenderError::GeometrySubmissionFailed(status))
        } else {
            self.step_at(place + 1)
        }
    }
}

impl PlanView {
    /// The operation at `place` is carried out, in a run in which the canvas
    /// answers the operation at each place `i` with `answers(i)`.
    pub open spec fn reached(self, answers: spec_fn(int) -> i32, place: nat) -> bool
        decreases place,
    {
        if place == 0 {
            self.step_at(0) == Step::Perform(0)
        } else {
            self.reached(answers, (place - 1) as nat) && self.step_after(
                place - 1,
                answers(place - 1),
            ) == Step::Perform(place as usize)
        }
    }
}

/// A batch of geometry that the canvas refuses ends the frame with the status
/// that the canvas gave, and no operation after the batch is carried out:
/// neither a command of that draw list nor the batch of a later one.
pub proof fn lemma_refused_batch_ends_the_frame(
    plan: PlanView,
    answers: spec_fn(int) -> i32,
    place: nat,
    later: nat,
)
    requires
        place < plan.ops.len(),
        plan.ops[place as int] is RenderGeometry,
        answers(place as int) != 0,
        place < later,
    ensures
        plan.step_after(place as int, answers(place as int)) == Step::Failed(
            RenderError::GeometrySubmissionFailed(answers(place as int)),
        ),
        !plan.reached(answers, later),
    decreases later,
{
    if later > place + 1 {
        lemma_refused_batch_ends_the_frame(plan, answers, place, (later - 1) as nat);
    }
}

impl RenderPlan {
    /// The step at a place of the plan.
    fn step_at(&self, place: usize) -> (step: Step)
        ensures
            step == self@.step_at(place as int),
    {
        if place < self.ops.len() {
            Step::Perform(place)
        } else {
            match self.failure {
                Some(error) => Step::Failed(error),
                None => Step::Done,
            }
        }
    }

    /// The first step of carrying out the plan.
    pub fn first_step(&self) -> (step: Step)
        ensures
            step == self@.step_at(0),
    {
        self.step_at(0)
    }

    /// The step that follows the operation at `place`, which the canvas has
    /// answered with `status`. For an operation that the canvas does not
    /// answer, any status will do.
    pub fn next_step(&self, place: usize, status: i32) -> (step: Step)
        ensures
            step == self@.step_after(place as int, status),
            place < self@.ops.len() && self@.ops[place as int] is RenderGeometry && status != 0
                ==> step == Step::Failed(RenderError::GeometrySubmissionFailed(status)),
            place < self@.ops.len() && !(self@.ops[place as int] is RenderGeometry && status != 0)
                ==> step == self@.step_at(place + 1),
    {
        if place >= self.ops.len() {
            return self.step_at(place);
        }
        match self.ops[place] {
            CanvasOp::RenderGeometry { .. } => {
                match geometry_status(status) {
                    Err(error) => {
                        return Step::Failed(error);
                    },
                    Ok(()) => {},
                }
            },
            _ => {},
        }
        self.step_at(place + 1)
    }

    /// The plan that asks for nothing.
    pub fn new() -> (plan: RenderPlan)
        ensures
            plan@ == PlanView::nothing(),
    {
        let plan = RenderPlan { ops: Vec::new(), failure: None };
        assert(plan@.ops =~= Seq::empty());
        plan
    }

    /// Adds an operation to a plan. A plan that has failed stays as it is.
    pub fn push(&mut self, op: CanvasOp)
        ensures
            final(self)@ == old(self)@.followed_by(Ok(seq![op@])),
            old(self)@.failure is None ==> final(self)@.ops == old(self)@.ops.push(op@),
            final(self)@.failure == old(self)@.failure,
    {
        if self.failure.is_none() {
            self.ops.push(op);
            assert(self@.ops =~= old(self)@.ops.push(op@));
            assert(old(self)@.ops.push(op@) =~= old(self)@.ops + seq![op@]);
        }
    }

    /// Ends a plan with an error. A plan that has failed keeps its first
    /// failure.
    pub fn fail(&mut self, error: RenderError)
        ensures
            final(self)@ == old(self)@.followed_by(Err(error)),
            final(self)@.failure is Some,
            final(self)@.ops == old(self)@.ops,
    {
        if self.failure.is_none() {
            self.failure = Some(error);
        }
    }

    /// How the frame ends once the operations are done.
    pub fn outcome(&self) -> (r: Result<(), RenderError>)
        ensures
            r == match self@.failure {
                Some(error) => Err::<(), RenderError>(error),
                None => Ok(()),
            },
    {
        match self.failure {
            Some(error) => Err(error),
            None => Ok(()),
        }
    }
}

/// What the status that the canvas gave for a batch of geometry means for
/// the frame: zero lets it go on, anything else ends it.
pub fn geometry_status(status: i32) -> (r: Result<(), RenderError>)
    ensures
        status == 0 ==> r == Ok::<(), RenderError>(()),
        status != 0 ==> r == Err::<(), RenderError>(RenderError::GeometrySubmissionFailed(status)),
{
    if status != 0 {
        Err(RenderError::GeometrySubmissionFailed(status))
    } else {
        Ok(())
    }
}

} // verus!
