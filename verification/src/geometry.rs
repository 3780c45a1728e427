//! Conversion of a draw list's buffers to what the canvas draws from.

use crate::canvas::{CanvasOp, Operation, Vertex};
use crate::draw_data::{DrawList, DrawListView, DrawVert, Point};
use vstd::prelude::*;

verus! {

/// A vertex in framebuffer pixels: the position is scaled axis by axis, the
/// color and the texture coordinate are kept.
pub open spec fn converted_vertex(vertex: DrawVert, scale: Point) -> Vertex {
    Vertex {
        position: Point {
            x: vertex.pos.x.product(scale.x),
            y: vertex.pos.y.product(scale.y),
        },
        color: vertex.col,
        tex_coord: vertex.uv,
    }
}

pub open spec fn converted_vertices(vertices: Seq<DrawVert>, scale: Point) -> Seq<Vertex> {
    vertices.map_values(|vertex: DrawVert| converted_vertex(vertex, scale))
}

/// The indices at the width that the canvas takes.
pub open spec fn converted_indices(indices: Seq<u16>) -> Seq<i32> {
    indices.map_values(|index: u16| index as i32)
}

/// A buffer length as the canvas is told it: lengths beyond the range of the
/// canvas's counts wrap, as they do in C.
pub open spec fn buffer_count(len: usize) -> i32 {
    len as i32
}

/// The submission of a whole draw list as one batch.
pub open spec fn geometry_of(list: DrawListView, scale: Point) -> Operation {
    Operation::RenderGeometry {
        vertices: converted_vertices(list.vertices, scale),
        vertex_count: buffer_count(list.vertices.len() as usize),
        indices: converted_indices(list.indices),
        index_count: buffer_count(list.indices.len() as usize),
    }
}

/// Scales one vertex to framebuffer pixels.
pub fn convert_vertex(vertex: &DrawVert, scale: Point) -> (r: Vertex)
    ensures
        r.position.x == vertex.pos.x.product(scale.x),
        r.position.y == vertex.pos.y.product(scale.y),
        r.color == vertex.col,
        r.tex_coord == vertex.uv,
        r == converted_vertex(*vertex, scale),
{
    Vertex {
        position: Point { x: vertex.pos.x.times(scale.x), y: vertex.pos.y.times(scale.y) },
        color: vertex.col,
        tex_coord: vertex.uv,
    }
}

/// Scales a vertex buffer to framebuffer pixels.
pub fn convert_vertices(vertices: &Vec<DrawVert>, scale: Point) -> (r: Vec<Vertex>)
    ensures
        r@ == converted_vertices(vertices@, scale),
        r@.len() == vertices@.len(),
        forall|i: int| 0 <= i < vertices@.len() ==> r@[i] == converted_vertex(vertices@[i], scale),
{
    let mut out: Vec<Vertex> = Vec::new();
    let mut i: usize = 0;
    while i < vertices.len()
        invariant
            i <= vertices.len(),
            out@.len() == i,
            forall|j: int| 0 <= j < i ==> out@[j] == converted_vertex(vertices@[j], scale),
        decreases vertices.len() - i,
    {
        out.push(convert_vertex(&vertices[i], scale));
        i = i + 1;
    }
    assert(out@ =~= converted_vertices(vertices@, scale));
    out
}

/// Widens an index buffer.
pub fn convert_indices(indices: &Vec<u16>) -> (r: Vec<i32>)
    ensures
        r@ == converted_indices(indices@),
        r@.len() == indices@.len(),
        forall|i: int| 0 <= i < indices@.len() ==> r@[i] == indices@[i],
{
    let mut out: Vec<i32> = Vec::new();
    let mut i: usize = 0;
    while i < indices.len()
        invariant
            i <= indices.len(),
            out@.len() == i,
            forall|j: int| 0 <= j < i ==> out@[j] == indices@[j] as i32,
        decreases indices.len() - i,
    {
        out.push(indices[i] as i32);
        i = i + 1;
    }
    assert(out@ =~= converted_indices(indices@));
    out
}

/// A buffer length as a count for the canvas.
pub fn count_buffer(len: usize) -> (r: i32)
    ensures
        r == buffer_count(len),
        len <= i32::MAX ==> r == len,
{
    #[verifier::truncate]
    (len as i32)
}

/// The one batch that submits a whole draw list. A buffer that is empty is
/// submitted as it is, with a count of zero.
pub fn convert_draw_list(list: &DrawList, scale: Point) -> (op: CanvasOp)
    ensures
        op@ == geometry_of(list@, scale),
        op matches CanvasOp::RenderGeometry { vertices, vertex_count, indices, index_count }
            && vertices@.len() == list@.vertices.len()
            && indices@.len() == list@.indices.len()
            && (list@.vertices.len() == 0 ==> vertex_count == 0)
            && (list@.indices.len() == 0 ==> index_count == 0),
{
    let vertices: Vec<Vertex> = convert_vertices(&list.vtx_buffer, scale);
    let indices: Vec<i32> = convert_indices(&list.idx_buffer);
    let vertex_count: i32 = count_buffer(list.vtx_buffer.len());
    let index_count: i32 = count_buffer(list.idx_buffer.len());
    CanvasOp::RenderGeometry { vertices, vertex_count, indices, index_count }
}

} // verus!
