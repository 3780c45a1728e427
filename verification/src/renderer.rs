//! The renderer: a table of textures, and the operations for the canvas that
//! a frame comes to.

use crate::canvas::{CanvasOp, ClipRect, Operation, RenderError, RenderPlan};
use crate::clip::{
    clip_to_framebuffer, clip_to_integers, elements_result, framebuffer_clip,
    is_outside_framebuffer, outside_framebuffer,
};
use crate::draw_data::{ClipBounds, DrawCmd, DrawCmdParams, DrawList, FrameData, Viewport};
use crate::geometry::convert_draw_list;
use crate::gui::{font_texture_id, set_font_texture_id};
use crate::plan::{
    command_step, commands_plan, frame_plan, lemma_failure_ends_the_commands,
    lemma_failure_ends_the_frame, lists_plan,
};
use crate::single::Single;
use vstd::prelude::*;

verus! {

/// Renders GUI frames onto a canvas whose textures are of type `T`.
///
/// The renderer owns the texture table. A texture's identifier is its place
/// in the table. The table is never empty: the font atlas is at place 0 from
/// the start, and no texture ever leaves the table.
pub struct CanvasRenderer<T> {
    textures: Vec<T>,
}

/// The step at which the upload of the font atlas to the canvas failed.
#[derive(Clone, Copy, Debug, PartialEq, Eq, Structural)]
pub enum UploadFailure {
    /// The pixel surface could not be created from the bitmap.
    Surface,
    /// The canvas could not make a texture of the surface.
    Texture,
}

impl<T> View for CanvasRenderer<T> {
    type V = Seq<T>;

    /// The texture table.
    closed spec fn view(&self) -> Seq<T> {
        self.textures@
    }
}

impl<T> CanvasRenderer<T> {
    #[verifier::type_invariant]
    spec fn holds_font_atlas(self) -> bool {
        self.textures@.len() >= 1
    }

    /// The renderer whose table holds the font atlas and nothing else.
    pub fn with_font_atlas(font_atlas: T) -> (renderer: CanvasRenderer<T>)
        ensures
            renderer@ == seq![font_atlas],
    {
        let mut textures: Vec<T> = Vec::new();
        textures.push(font_atlas);
        assert(textures@ =~= seq![font_atlas]);
        CanvasRenderer { textures }
    }

    /// Completes the initialization once the font atlas, as
    /// `font_atlas_image` gave it, has been uploaded to the canvas.
    ///
    /// On an upload that succeeded, the texture becomes entry 0 of the
    /// texture table, and the GUI context is told that its font atlas is
    /// texture 0. On one that failed, the failure is returned as the error of
    /// that step and the GUI context is left as it was.
    pub fn new(imgui_context: &mut imgui::Context, upload: Result<T, UploadFailure>) -> (r: Result<
        CanvasRenderer<T>,
        RenderError,
    >)
        ensures
            match upload {
                Ok(font_atlas) => r matches Ok(renderer) && renderer@ == seq![font_atlas]
                    && font_texture_id(*final(imgui_context)) == 0,
                Err(UploadFailure::Surface) => r matches Err(error) && error
                    == RenderError::SurfaceCreationFailed && *final(imgui_context) == *old(
                    imgui_context,
                ),
                Err(UploadFailure::Texture) => r matches Err(error) && error
                    == RenderError::TextureUploadFailed && *final(imgui_context) == *old(
                    imgui_context,
                ),
            },
    {
        match upload {
            Ok(font_atlas) => {
                let renderer: CanvasRenderer<T> = CanvasRenderer::with_font_atlas(font_atlas);
                set_font_texture_id(imgui_context, 0);
                Ok(renderer)
            },
            Err(UploadFailure::Surface) => Err(RenderError::SurfaceCreationFailed),
            Err(UploadFailure::Texture) => Err(RenderError::TextureUploadFailed),
        }
    }

    /// The number of textures in the table, at least one.
    pub fn texture_count(&self) -> (n: usize)
        ensures
            n == self@.len(),
            n >= 1,
    {
        proof {
            use_type_invariant(self);
        }
        self.textures.len()
    }

    /// The font atlas, which is texture 0.
    pub fn font_atlas(&self) -> (r: &T)
        ensures
            self@.len() >= 1,
            *r == self@[0],
    {
        proof {
            use_type_invariant(self);
        }
        &self.textures[0]
    }

    /// The texture with the given identifier, if the table holds one.
    pub fn texture(&self, id: usize) -> (r: Option<&T>)
        ensures
            id < self@.len() ==> r == Some(&self@[id as int]),
            id >= self@.len() ==> r is None,
    {
        if id < self.textures.len() {
            Some(&self.textures[id])
        } else {
            None
        }
    }

    /// Decides what an element command asks of the canvas, for a framebuffer
    /// of `fb_w` by `fb_h` pixels.
    ///
    /// `Ok(None)`: the command is skipped, because its clip rectangle lies
    /// outside the framebuffer. `Ok(Some(rect))`: the canvas is clipped to
    /// `rect` and the clip is lifted again. An error: the command names a
    /// texture that the table does not hold, and nothing is asked of the
    /// canvas.
    pub fn render_elements(
        &self,
        _count: usize,
        draw_cmd_params: &DrawCmdParams,
        data: &FrameData,
        fb_w: Single,
        fb_h: Single,
    ) -> (r: Result<Option<ClipRect>, RenderError>)
        ensures
            r == elements_result(*draw_cmd_params, data@.viewport, fb_w, fb_h, self@.len()),
            outside_framebuffer(
                framebuffer_clip(
                    draw_cmd_params.clip_rect,
                    data@.viewport.display_pos,
                    data@.viewport.framebuffer_scale,
                ),
                fb_w,
                fb_h,
            ) ==> r == Ok::<Option<ClipRect>, RenderError>(None),
            !outside_framebuffer(
                framebuffer_clip(
                    draw_cmd_params.clip_rect,
                    data@.viewport.display_pos,
                    data@.viewport.framebuffer_scale,
                ),
                fb_w,
                fb_h,
            ) && draw_cmd_params.texture_id >= self@.len() ==> r == Err::<
                Option<ClipRect>,
                RenderError,
            >(RenderError::TextureIdOutOfRange(draw_cmd_params.texture_id)),
    {
        let clip: ClipBounds = clip_to_framebuffer(
            &draw_cmd_params.clip_rect,
            data.display_pos,
            data.framebuffer_scale,
        );
        if is_outside_framebuffer(&clip, fb_w, fb_h) {
            return Ok(None);
        }
        if draw_cmd_params.texture_id >= self.textures.len() {
            return Err(RenderError::TextureIdOutOfRange(draw_cmd_params.texture_id));
        }
        Ok(Some(clip_to_integers(&clip)))
    }

    /// Adds what the commands of a draw list ask to a plan.
    fn plan_commands(
        &self,
        plan: &mut RenderPlan,
        list: &DrawList,
        list_index: usize,
        data: &FrameData,
        fb_w: Single,
        fb_h: Single,
    )
        requires
            old(plan)@.failure is None,
            fb_w == data@.viewport.framebuffer_width(),
            fb_h == data@.viewport.framebuffer_height(),
        ensures
            final(plan)@ == commands_plan(
                old(plan)@,
                list@,
                list_index as nat,
                list@.commands.len(),
                data@.viewport,
                self@.len(),
            ),
    {
        let ghost start = plan@;
        let mut j: usize = 0;
        while j < list.commands.len()
            invariant
                j <= list.commands.len(),
                start == old(plan)@,
                plan@ == commands_plan(
                    start,
                    list@,
                    list_index as nat,
                    j as nat,
                    data@.viewport,
                    self@.len(),
                ),
                plan@.failure is None,
                fb_w == data@.viewport.framebuffer_width(),
                fb_h == data@.viewport.framebuffer_height(),
            decreases list.commands.len() - j,
        {
            let ghost before = plan@;
            assert(commands_plan(
                start,
                list@,
                list_index as nat,
                (j + 1) as nat,
                data@.viewport,
                self@.len(),
            ) == before.followed_by(
                command_step(
                    list@.commands[j as int],
                    list_index as nat,
                    j as nat,
                    data@.viewport,
                    self@.len(),
                ),
            ));
            match list.commands[j] {
                DrawCmd::Elements { count, cmd_params } => {
                    match self.render_elements(count, &cmd_params, data, fb_w, fb_h) {
                        Ok(None) => {
                            assert(before.ops + Seq::<Operation>::empty() =~= before.ops);
                        },
                        Ok(Some(rect)) => {
                            plan.push(CanvasOp::SetClipRect { rect });
                            plan.push(CanvasOp::ClearClipRect);
                            assert(plan@.ops =~= before.ops + seq![
                                Operation::SetClipRect { rect },
                                Operation::ClearClipRect,
                            ]);
                        },
                        Err(error) => {
                            plan.fail(error);
                            proof {
                                lemma_failure_ends_the_commands(
                                    start,
                                    list@,
                                    list_index as nat,
                                    (j + 1) as nat,
                                    list@.commands.len(),
                                    data@.viewport,
                                    self@.len(),
                                );
                            }
                            return ;
                        },
                    }
                },
                DrawCmd::ResetRenderState => {
                    plan.push(CanvasOp::ClearClipRect);
                },
                DrawCmd::RawCallback => {
                    plan.push(CanvasOp::InvokeCallback { list: list_index, command: j });
                },
            }
            j = j + 1;
        }
    }

    /// Turns one frame into the operations that draw it.
    ///
    /// The plan is exactly `frame_plan`: nothing for a degenerate frame;
    /// otherwise, for each draw list in order, its geometry and then what its
    /// commands ask, up to the first command that fails.
    pub fn render(&self, data: &FrameData) -> (plan: RenderPlan)
        ensures
            plan@ == frame_plan(data@, self@.len()),
            data@.viewport.degenerate() ==> plan@.ops.len() == 0 && plan@.failure is None,
    {
        let mut plan: RenderPlan = RenderPlan::new();
        let viewport: Viewport = data.viewport();
        if viewport.is_degenerate() {
            return plan;
        }
        let (fb_w, fb_h) = viewport.framebuffer_size();
        let mut i: usize = 0;
        while i < data.draw_lists.len()
            invariant
                i <= data.draw_lists.len(),
                plan@ == lists_plan(data@, i as nat, self@.len()),
                plan@.failure is None,
                !data@.viewport.degenerate(),
                fb_w == data@.viewport.framebuffer_width(),
                fb_h == data@.viewport.framebuffer_height(),
            decreases data.draw_lists.len() - i,
        {
            let list: &DrawList = &data.draw_lists[i];
            assert(data@.draw_lists[i as int] == list@);
            plan.push(convert_draw_list(list, data.framebuffer_scale));
            self.plan_commands(&mut plan, list, i, data, fb_w, fb_h);
            assert(plan@ == lists_plan(data@, (i + 1) as nat, self@.len()));
            if plan.failure.is_some() {
                proof {
                    lemma_failure_ends_the_frame(
                        data@,
                        (i + 1) as nat,
                        data@.draw_lists.len(),
                        self@.len(),
                    );
                }
                return plan;
            }
            i = i + 1;
        }
        plan
    }
}

} // verus!
