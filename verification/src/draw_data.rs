//! One frame of draw output of the GUI layer: vertices in logical
//! coordinates, indices into them, and draw commands, grouped into draw lists
//! that are painted in order, back to front.
//!
//! The host copies the GUI layer's draw data into these types, number by
//! number, each by its bits.

use crate::single::Single;
use vstd::prelude::*;

verus! {

/// A pair of coordinates, or of per-axis factors.
#[derive(Clone, Copy, Debug, PartialEq, Eq, Structural)]
pub struct Point {
    pub x: Single,
    pub y: Single,
}

/// Four 8-bit channels.
#[derive(Clone, Copy, Debug, PartialEq, Eq, Structural)]
pub struct Color {
    pub r: u8,
    pub g: u8,
    pub b: u8,
    pub a: u8,
}

/// A vertex of the GUI layer: position in logical coordinates, normalized
/// texture coordinate, color.
#[derive(Clone, Copy, Debug, PartialEq, Eq, Structural)]
pub struct DrawVert {
    pub pos: Point,
    pub uv: Point,
    pub col: Color,
}

/// A clip rectangle by its left, top, right and bottom edges.
#[derive(Clone, Copy, Debug, PartialEq, Eq, Structural)]
pub struct ClipBounds {
    pub x1: Single,
    pub y1: Single,
    pub x2: Single,
    pub y2: Single,
}

/// What an element command carries besides its count.
#[derive(Clone, Copy, Debug, PartialEq, Eq, Structural)]
pub struct DrawCmdParams {
    /// In logical coordinates.
    pub clip_rect: ClipBounds,
    pub texture_id: usize,
    pub vtx_offset: usize,
    pub idx_offset: usize,
}

/// A draw command. The set of kinds is fixed by the GUI layer.
#[derive(Clone, Copy, Debug, PartialEq, Eq, Structural)]
pub enum DrawCmd {
    /// Draw `count` indices, clipped, with a texture.
    Elements { count: usize, cmd_params: DrawCmdParams },
    /// Restore the default render state.
    ResetRenderState,
    /// Call back into the host's own drawing code. The callback itself stays
    /// with the host; the command is known by its place in its draw list.
    RawCallback,
}

/// One draw list.
#[derive(Clone, Debug, PartialEq, Eq)]
pub struct DrawList {
    pub vtx_buffer: Vec<DrawVert>,
    pub idx_buffer: Vec<u16>,
    pub commands: Vec<DrawCmd>,
}

/// The draw lists of one frame, with the viewport they were laid out for.
#[derive(Clone, Debug, PartialEq, Eq)]
pub struct FrameData {
    /// Upper-left corner of the viewport, in logical coordinates.
    pub display_pos: Point,
    /// Size of the viewport, in logical coordinates.
    pub display_size: Point,
    /// Framebuffer pixels per logical unit, for each axis.
    pub framebuffer_scale: Point,
    pub draw_lists: Vec<DrawList>,
}

/// A draw list as sequences.
pub struct DrawListView {
    pub vertices: Seq<DrawVert>,
    pub indices: Seq<u16>,
    pub commands: Seq<DrawCmd>,
}

/// The viewport of a frame.
#[derive(Clone, Copy, Debug, PartialEq, Eq, Structural)]
pub struct Viewport {
    pub display_pos: Point,
    pub display_size: Point,
    pub framebuffer_scale: Point,
}

/// A frame as sequences.
pub struct FrameView {
    pub viewport: Viewport,
    pub draw_lists: Seq<DrawListView>,
}

impl View for DrawList {
    type V = DrawListView;

    open spec fn view(&self) -> DrawListView {
        DrawListView {
            vertices: self.vtx_buffer@,
            indices: self.idx_buffer@,
            commands: self.commands@,
        }
    }
}

impl View for FrameData {
    type V = FrameView;

    open spec fn view(&self) -> FrameView {
        FrameView {
            viewport: Viewport {
                display_pos: self.display_pos,
                display_size: self.display_size,
                framebuffer_scale: self.framebuffer_scale,
            },
            draw_lists: self.draw_lists@.map_values(|list: DrawList| list@),
        }
    }
}

impl Viewport {
    /// The width of the framebuffer in pixels: display width times scale.
    pub open spec fn framebuffer_width(self) -> Single {
        self.display_size.x.product(self.framebuffer_scale.x)
    }

    /// The height of the framebuffer in pixels.
    pub open spec fn framebuffer_height(self) -> Single {
        self.display_size.y.product(self.framebuffer_scale.y)
    }

    /// Nothing can be drawn: neither dimension of the framebuffer is
    /// positive. A frame of which only one dimension has collapsed is not
    /// degenerate and is rendered.
    pub open spec fn degenerate(self) -> bool {
        self.framebuffer_width().at_most(Single { bits: 0 }) && self.framebuffer_height().at_most(
            Single { bits: 0 },
        )
    }
}

impl Viewport {
    /// Width and height of the framebuffer in pixels.
    pub fn framebuffer_size(&self) -> (r: (Single, Single))
        ensures
            r.0 == self.framebuffer_width(),
            r.1 == self.framebuffer_height(),
    {
        (
            self.display_size.x.times(self.framebuffer_scale.x),
            self.display_size.y.times(self.framebuffer_scale.y),
        )
    }

    /// Tests whether nothing can be drawn, because neither dimension of the
    /// framebuffer is positive. The draw lists of such a frame need not even
    /// be looked at.
    pub fn is_degenerate(&self) -> (r: bool)
        ensures
            r == self.degenerate(),
    {
        let (width, height) = self.framebuffer_size();
        let zero: Single = Single::positive_zero();
        width.is_at_most(zero) && height.is_at_most(zero)
    }
}

impl FrameData {
    /// The viewport of this frame.
    pub fn viewport(&self) -> (r: Viewport)
        ensures
            r == self@.viewport,
    {
        Viewport {
            display_pos: self.display_pos,
            display_size: self.display_size,
            framebuffer_scale: self.framebuffer_scale,
        }
    }
}

impl Point {
    /// The point whose coordinates have the given bit patterns.
    pub fn from_bits(x: u32, y: u32) -> (r: Point)
        ensures
            r.x.bits == x,
            r.y.bits == y,
    {
        Point { x: Single::from_bits(x), y: Single::from_bits(y) }
    }
}

impl ClipBounds {
    /// The rectangle whose edges have the given bit patterns.
    pub fn from_bits(x1: u32, y1: u32, x2: u32, y2: u32) -> (r: ClipBounds)
        ensures
            r.x1.bits == x1,
            r.y1.bits == y1,
            r.x2.bits == x2,
            r.y2.bits == y2,
    {
        ClipBounds {
            x1: Single::from_bits(x1),
            y1: Single::from_bits(y1),
            x2: Single::from_bits(x2),
            y2: Single::from_bits(y2),
        }
    }
}

} // verus!
