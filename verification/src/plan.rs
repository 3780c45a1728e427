//! What a frame asks of the canvas, stated over sequences.
//!
//! A frame is rendered list by list. Each draw list is first submitted whole,
//! as one batch of untextured geometry; then its commands are taken in order.
//! The first failure ends the frame: what was asked before it stands, nothing
//! is asked after it.
//!
//! Three things are fixed here on purpose. Textures are validated but not
//! bound: an element command clips the canvas and lifts the clip again, and
//! the geometry carries colors and texture coordinates only. A command that
//! restores the render state lifts the clip, which is all the state that the
//! renderer sets. And a frame is skipped only where both dimensions of the
//! framebuffer have collapsed.

use crate::canvas::{Operation, PlanView, RenderError};
use crate::clip::{elements_result, framebuffer_clip, outside_framebuffer};
use crate::draw_data::{DrawCmd, DrawCmdParams, DrawListView, FrameView, Viewport};
use crate::geometry::{buffer_count, converted_vertex, geometry_of};
use crate::single::Single;
use vstd::prelude::*;

verus! {

/// What the command at place `index` of draw list `list` asks.
pub open spec fn command_step(
    command: DrawCmd,
    list: nat,
    index: nat,
    viewport: Viewport,
    textures: nat,
) -> Result<Seq<Operation>, RenderError> {
    match command {
        DrawCmd::Elements { count, cmd_params } => match elements_result(
            cmd_params,
            viewport,
            viewport.framebuffer_width(),
            viewport.framebuffer_height(),
            textures,
        ) {
            Ok(None) => Ok(Seq::empty()),
            Ok(Some(rect)) => Ok(seq![Operation::SetClipRect { rect }, Operation::ClearClipRect]),
            Err(error) => Err(error),
        },
        DrawCmd::ResetRenderState => Ok(seq![Operation::ClearClipRect]),
        DrawCmd::RawCallback => Ok(seq![Operation::InvokeCallback { list, command: index }]),
    }
}

/// The plan `start` followed by the first `upto` commands of a draw list.
pub open spec fn commands_plan(
    start: PlanView,
    list: DrawListView,
    list_index: nat,
    upto: nat,
    viewport: Viewport,
    textures: nat,
) -> PlanView
    decreases upto,
{
    if upto == 0 {
        start
    } else {
        commands_plan(start, list, list_index, (upto - 1) as nat, viewport, textures).followed_by(
            command_step(
                list.commands[upto - 1],
                list_index,
                (upto - 1) as nat,
                viewport,
                textures,
            ),
        )
    }
}

/// The plan `start` followed by a whole draw list: its geometry, then its
/// commands.
pub open spec fn list_plan(
    start: PlanView,
    list: DrawListView,
    list_index: nat,
    viewport: Viewport,
    textures: nat,
) -> PlanView {
    commands_plan(
        start.followed_by(Ok(seq![geometry_of(list, viewport.framebuffer_scale)])),
        list,
        list_index,
        list.commands.len(),
        viewport,
        textures,
    )
}

/// The plan of the first `upto` draw lists of a frame.
pub open spec fn lists_plan(frame: FrameView, upto: nat, textures: nat) -> PlanView
    decreases upto,
{
    if upto == 0 {
        PlanView::nothing()
    } else {
        list_plan(
            lists_plan(frame, (upto - 1) as nat, textures),
            frame.draw_lists[upto - 1],
            (upto - 1) as nat,
            frame.viewport,
            textures,
        )
    }
}

/// The plan of a frame, for a texture table that holds `textures` textures.
pub open spec fn frame_plan(frame: FrameView, textures: nat) -> PlanView {
    if frame.viewport.degenerate() {
        PlanView::nothing()
    } else {
        lists_plan(frame, frame.draw_lists.len(), textures)
    }
}

/// A frame whose framebuffer has neither width nor height asks nothing of the
/// canvas and succeeds.
pub proof fn lemma_degenerate_frame_asks_nothing(frame: FrameView, textures: nat)
    requires
        frame.viewport.framebuffer_width().at_most(Single { bits: 0 }),
        frame.viewport.framebuffer_height().at_most(Single { bits: 0 }),
    ensures
        frame_plan(frame, textures).ops.len() == 0,
        frame_plan(frame, textures).failure is None,
{
}

/// Commands add to a plan and take nothing from it.
pub proof fn lemma_commands_keep_what_was_asked(
    start: PlanView,
    list: DrawListView,
    list_index: nat,
    upto: nat,
    viewport: Viewport,
    textures: nat,
)
    ensures
        commands_plan(start, list, list_index, upto, viewport, textures).ops.len()
            >= start.ops.len(),
        commands_plan(start, list, list_index, upto, viewport, textures).ops.subrange(
            0,
            start.ops.len() as int,
        ) == start.ops,
    decreases upto,
{
    if upto > 0 {
        lemma_commands_keep_what_was_asked(
            start,
            list,
            list_index,
            (upto - 1) as nat,
            viewport,
            textures,
        );
        let before = commands_plan(start, list, list_index, (upto - 1) as nat, viewport, textures);
        let after = commands_plan(start, list, list_index, upto, viewport, textures);
        assert(after.ops.subrange(0, start.ops.len() as int) =~= before.ops.subrange(
            0,
            start.ops.len() as int,
        ));
    } else {
        assert(start.ops.subrange(0, start.ops.len() as int) =~= start.ops);
    }
}

/// Every draw list that is reached is submitted, as one batch, before any of
/// its commands. The batch holds as many vertices and indices as the draw
/// list does: a draw list with an empty buffer is submitted like any other,
/// with that buffer empty and its count zero.
pub proof fn lemma_every_list_is_submitted(
    start: PlanView,
    list: DrawListView,
    list_index: nat,
    viewport: Viewport,
    textures: nat,
)
    requires
        start.failure is None,
    ensures
        list_plan(start, list, list_index, viewport, textures).ops.len() > start.ops.len(),
        list_plan(start, list, list_index, viewport, textures).ops[start.ops.len() as int]
            == geometry_of(list, viewport.framebuffer_scale),
        geometry_of(list, viewport.framebuffer_scale)->RenderGeometry_vertices.len()
            == list.vertices.len(),
        geometry_of(list, viewport.framebuffer_scale)->RenderGeometry_indices.len()
            == list.indices.len(),
        list.vertices.len() == 0 ==> geometry_of(
            list,
            viewport.framebuffer_scale,
        )->RenderGeometry_vertex_count == 0,
        list.indices.len() == 0 ==> geometry_of(
            list,
            viewport.framebuffer_scale,
        )->RenderGeometry_index_count == 0,
{
    let submitted = start.followed_by(Ok(seq![geometry_of(list, viewport.framebuffer_scale)]));
    let whole = list_plan(start, list, list_index, viewport, textures);
    lemma_commands_keep_what_was_asked(
        submitted,
        list,
        list_index,
        list.commands.len(),
        viewport,
        textures,
    );
    assert(submitted.ops.len() == start.ops.len() + 1);
    assert(whole.ops.subrange(0, submitted.ops.len() as int)[start.ops.len() as int]
        == whole.ops[start.ops.len() as int]);
    assert(submitted.ops[start.ops.len() as int] == geometry_of(list, viewport.framebuffer_scale));
    assert(buffer_count(0) == 0);
}

/// Each vertex of the batch that submits a draw list is the draw list's vertex
/// at that place with its position scaled, axis by axis, by the framebuffer
/// scale; color and texture coordinate are those of the draw list's vertex.
/// Each index is the draw list's index.
pub proof fn lemma_batch_holds_the_scaled_vertices(list: DrawListView, viewport: Viewport)
    ensures
        forall|i: int|
            0 <= i < list.vertices.len() ==> {
                let vertex = #[trigger] geometry_of(
                    list,
                    viewport.framebuffer_scale,
                )->RenderGeometry_vertices[i];
                &&& vertex.position.x == list.vertices[i].pos.x.product(viewport.framebuffer_scale.x)
                &&& vertex.position.y == list.vertices[i].pos.y.product(viewport.framebuffer_scale.y)
                &&& vertex.color == list.vertices[i].col
                &&& vertex.tex_coord == list.vertices[i].uv
            },
        forall|i: int|
            0 <= i < list.indices.len() ==> #[trigger] geometry_of(
                list,
                viewport.framebuffer_scale,
            )->RenderGeometry_indices[i] == list.indices[i],
{
    assert forall|i: int| 0 <= i < list.vertices.len() implies #[trigger] geometry_of(
        list,
        viewport.framebuffer_scale,
    )->RenderGeometry_vertices[i] == converted_vertex(
        list.vertices[i],
        viewport.framebuffer_scale,
    ) by {}
}

/// An element command whose clip rectangle reaches into the framebuffer and
/// whose texture the table does not hold fails the frame with that texture's
/// identifier, and asks nothing of the canvas: no clip rectangle is set.
pub proof fn lemma_unknown_texture_fails(
    start: PlanView,
    count: usize,
    params: DrawCmdParams,
    list: nat,
    index: nat,
    viewport: Viewport,
    textures: nat,
)
    requires
        start.failure is None,
        params.texture_id >= textures,
        !outside_framebuffer(
            framebuffer_clip(params.clip_rect, viewport.display_pos, viewport.framebuffer_scale),
            viewport.framebuffer_width(),
            viewport.framebuffer_height(),
        ),
    ensures
        start.followed_by(
            command_step(
                DrawCmd::Elements { count, cmd_params: params },
                list,
                index,
                viewport,
                textures,
            ),
        ) == (PlanView {
            ops: start.ops,
            failure: Some(RenderError::TextureIdOutOfRange(params.texture_id)),
        }),
{
}

/// An element command whose clip rectangle lies wholly to one side of the
/// framebuffer is skipped: the plan is what it was, whatever texture the
/// command names.
pub proof fn lemma_outside_clip_is_skipped(
    start: PlanView,
    count: usize,
    params: DrawCmdParams,
    list: nat,
    index: nat,
    viewport: Viewport,
    textures: nat,
)
    requires
        outside_framebuffer(
            framebuffer_clip(params.clip_rect, viewport.display_pos, viewport.framebuffer_scale),
            viewport.framebuffer_width(),
            viewport.framebuffer_height(),
        ),
    ensures
        start.followed_by(
            command_step(
                DrawCmd::Elements { count, cmd_params: params },
                list,
                index,
                viewport,
                textures,
            ),
        ) == start,
{
    if start.failure is None {
        assert(start.ops + Seq::<Operation>::empty() =~= start.ops);
    }
}

/// Once a command has failed, the commands after it change nothing.
pub proof fn lemma_failure_ends_the_commands(
    start: PlanView,
    list: DrawListView,
    list_index: nat,
    from: nat,
    upto: nat,
    viewport: Viewport,
    textures: nat,
)
    requires
        from <= upto,
        commands_plan(start, list, list_index, from, viewport, textures).failure is Some,
    ensures
        commands_plan(start, list, list_index, upto, viewport, textures) == commands_plan(
            start,
            list,
            list_index,
            from,
            viewport,
            textures,
        ),
    decreases upto,
{
    if from < upto {
        lemma_failure_ends_the_commands(
            start,
            list,
            list_index,
            from,
            (upto - 1) as nat,
            viewport,
            textures,
        );
    }
}

/// Once a draw list has failed, the draw lists after it change nothing.
pub proof fn lemma_failure_ends_the_frame(
    frame: FrameView,
    from: nat,
    upto: nat,
    textures: nat,
)
    requires
        from <= upto,
        lists_plan(frame, from, textures).failure is Some,
    ensures
        lists_plan(frame, upto, textures) == lists_plan(frame, from, textures),
    decreases upto,
{
    if from < upto {
        lemma_failure_ends_the_frame(frame, from, (upto - 1) as nat, textures);
        let failed = lists_plan(frame, from, textures);
        let list = frame.draw_lists[upto - 1];
        lemma_failure_ends_the_commands(
            failed,
            list,
            (upto - 1) as nat,
            0,
            list.commands.len(),
            frame.viewport,
            textures,
        );
    }
}

} // verus!
