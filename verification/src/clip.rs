//! Clip rectangles: from logical coordinates to framebuffer pixels, the test
//! against the framebuffer, and the whole-pixel rectangle for the canvas.

use crate::canvas::{ClipRect, RenderError};
use crate::draw_data::{ClipBounds, DrawCmdParams, Point, Viewport};
use crate::single::Single;
use vstd::prelude::*;

verus! {

/// The clip rectangle in framebuffer pixels: each edge is moved by the display
/// offset and then scaled.
pub open spec fn framebuffer_clip(clip: ClipBounds, offset: Point, scale: Point) -> ClipBounds {
    ClipBounds {
        x1: clip.x1.difference(offset.x).product(scale.x),
        y1: clip.y1.difference(offset.y).product(scale.y),
        x2: clip.x2.difference(offset.x).product(scale.x),
        y2: clip.y2.difference(offset.y).product(scale.y),
    }
}

/// The rectangle lies wholly right of or below a framebuffer of the given
/// size, or wholly left of or above its origin.
pub open spec fn outside_framebuffer(clip: ClipBounds, width: Single, height: Single) -> bool {
    clip.x1.at_least(width) || clip.y1.at_least(height) || clip.x2.below(Single { bits: 0 })
        || clip.y2.below(Single { bits: 0 })
}

/// The rectangle in whole pixels: the corner is truncated, and so are the
/// width and height.
pub open spec fn integer_clip(clip: ClipBounds) -> ClipRect {
    ClipRect {
        x: clip.x1.as_i32(),
        y: clip.y1.as_i32(),
        width: clip.x2.difference(clip.x1).as_u32(),
        height: clip.y2.difference(clip.y1).as_u32(),
    }
}

/// The largest width, height and coordinate that the canvas takes.
pub const CANVAS_MAX: i32 = 0x3fff_ffff;

/// The smallest coordinate that the canvas takes.
pub const CANVAS_MIN: i32 = -0x4000_0000;

/// A coordinate as the canvas takes it: held within its range.
pub open spec fn canvas_position(position: i32) -> i32 {
    if position > CANVAS_MAX {
        CANVAS_MAX
    } else if position < CANVAS_MIN {
        CANVAS_MIN
    } else {
        position
    }
}

/// A width or height as the canvas takes it: at least one pixel, and held
/// within its range.
pub open spec fn canvas_size(size: u32) -> u32 {
    if size == 0 {
        1
    } else if size > CANVAS_MAX {
        CANVAS_MAX as u32
    } else {
        size
    }
}

/// The rectangle that the canvas clips to when it is given `rect`. The canvas
/// knows no empty rectangle: a clip rectangle whose edges are reversed, which
/// has no width in whole pixels, is one pixel wide on the canvas.
pub open spec fn canvas_rect(rect: ClipRect) -> ClipRect {
    ClipRect {
        x: canvas_position(rect.x),
        y: canvas_position(rect.y),
        width: canvas_size(rect.width),
        height: canvas_size(rect.height),
    }
}

/// The canvas takes a rectangle that it has adjusted as it is.
pub proof fn lemma_canvas_rect_is_settled(rect: ClipRect)
    ensures
        canvas_rect(canvas_rect(rect)) == canvas_rect(rect),
        CANVAS_MIN <= canvas_rect(rect).x <= CANVAS_MAX,
        CANVAS_MIN <= canvas_rect(rect).y <= CANVAS_MAX,
        1 <= canvas_rect(rect).width <= CANVAS_MAX,
        1 <= canvas_rect(rect).height <= CANVAS_MAX,
{
}

/// What an element command asks of the canvas. A command whose clip rectangle
/// lies outside the framebuffer is skipped, whatever its texture. Otherwise
/// its texture must be one of the `textures` that the table holds, and the
/// canvas is clipped to the rectangle.
pub open spec fn elements_result(
    params: DrawCmdParams,
    viewport: Viewport,
    width: Single,
    height: Single,
    textures: nat,
) -> Result<Option<ClipRect>, RenderError> {
    let clip = framebuffer_clip(params.clip_rect, viewport.display_pos, viewport.framebuffer_scale);
    if outside_framebuffer(clip, width, height) {
        Ok(None)
    } else if params.texture_id >= textures {
        Err(RenderError::TextureIdOutOfRange(params.texture_id))
    } else {
        Ok(Some(integer_clip(clip)))
    }
}

/// Moves and scales a clip rectangle to framebuffer pixels.
pub fn clip_to_framebuffer(clip: &ClipBounds, offset: Point, scale: Point) -> (r: ClipBounds)
    ensures
        r == framebuffer_clip(*clip, offset, scale),
{
    ClipBounds {
        x1: clip.x1.minus(offset.x).times(scale.x),
        y1: clip.y1.minus(offset.y).times(scale.y),
        x2: clip.x2.minus(offset.x).times(scale.x),
        y2: clip.y2.minus(offset.y).times(scale.y),
    }
}

/// Tests whether a clip rectangle lies outside the framebuffer.
pub fn is_outside_framebuffer(clip: &ClipBounds, width: Single, height: Single) -> (r: bool)
    ensures
        r == outside_framebuffer(*clip, width, height),
{
    let zero: Single = Single::positive_zero();
    clip.x1.is_at_least(width) || clip.y1.is_at_least(height) || clip.x2.is_below(zero)
        || clip.y2.is_below(zero)
}

/// Adjusts a rectangle to what the canvas clips to when it is given it.
pub fn to_canvas_rect(rect: ClipRect) -> (r: ClipRect)
    ensures
        r == canvas_rect(rect),
{
    ClipRect {
        x: to_canvas_position(rect.x),
        y: to_canvas_position(rect.y),
        width: to_canvas_size(rect.width),
        height: to_canvas_size(rect.height),
    }
}

fn to_canvas_position(position: i32) -> (r: i32)
    ensures
        r == canvas_position(position),
{
    if position > CANVAS_MAX {
        CANVAS_MAX
    } else if position < CANVAS_MIN {
        CANVAS_MIN
    } else {
        position
    }
}

fn to_canvas_size(size: u32) -> (r: u32)
    ensures
        r == canvas_size(size),
{
    if size == 0 {
        1
    } else if size > CANVAS_MAX as u32 {
        CANVAS_MAX as u32
    } else {
        size
    }
}

/// Truncates a clip rectangle to whole pixels.
pub fn clip_to_integers(clip: &ClipBounds) -> (r: ClipRect)
    ensures
        r == integer_clip(*clip),
{
    ClipRect {
        x: clip.x1.to_i32(),
        y: clip.y1.to_i32(),
        width: clip.x2.minus(clip.x1).to_u32(),
        height: clip.y2.minus(clip.y1).to_u32(),
    }
}

} // verus!
