//! Meshes of textured triangles, and how each is drawn onto its canvas item.

use crate::signed::{low_signed, to_signed};
use crate::texture::{Rgba, TextureDescriptor, TextureId};
use vstd::prelude::*;

verus! {

/// A point whose coordinates are single-precision numbers, each given by its bits.
#[derive(Clone, Copy, Debug, PartialEq, Eq, Structural)]
pub struct Point {
    pub x: u32,
    pub y: u32,
}

/// A corner of triangles.
#[derive(Clone, Copy, Debug, PartialEq, Eq, Structural)]
pub struct Vertex {
    pub pos: Point,
    pub uv: Point,
    pub color: Rgba,
}

/// Triangles over a texture: every three indices name the corners of one.
pub struct Mesh {
    pub indices: Vec<u32>,
    pub vertices: Vec<Vertex>,
    pub texture_id: TextureId,
}

/// A straight line between two points.
#[derive(Clone, Copy, Debug, PartialEq, Eq, Structural)]
pub struct Line {
    pub from: Point,
    pub to: Point,
}

/// A mesh as the engine draws it.
pub struct MeshDrawing {
    /// The outlines of the triangles, where they are to be seen.
    pub lines: Vec<Line>,
    pub indices: Vec<i32>,
    pub verts: Vec<Point>,
    pub uvs: Vec<Point>,
    pub colors: Vec<Rgba>,
    /// The texture, by its handle.
    pub texture: u64,
}

/// What is drawn onto a canvas item.
pub enum Drawing {
    /// Nothing: the mesh is empty.
    Nothing,
    /// Nothing: the texture is not there.
    MissingTexture(TextureId),
    /// The mesh.
    Mesh(MeshDrawing),
}

/// The lines along the sides of all triangles, three for each, every one closed.
pub open spec fn outlines(indices: Seq<u32>, vertices: Seq<Vertex>) -> Seq<Line> {
    Seq::new(
        indices.len(),
        |k: int|
            Line {
                from: vertices[indices[k] as int].pos,
                to: vertices[indices[k / 3 * 3 + (k + 1) % 3] as int].pos,
            },
    )
}

impl Mesh {
    /// Whether the triangles are whole and their corners are there.
    pub open spec fn is_outlinable(self) -> bool {
        &&& self.indices@.len() % 3 == 0
        &&& forall|i: int|
            0 <= i < self.indices@.len() ==> #[trigger] self.indices@[i] < self.vertices@.len()
    }

    /// Whether there is neither an index nor a vertex.
    pub open spec fn has_nothing(self) -> bool {
        self.indices@.len() == 0 && self.vertices@.len() == 0
    }

    /// Whether there is neither an index nor a vertex.
    pub fn is_empty(&self) -> (empty: bool)
        ensures
            empty == self.has_nothing(),
    {
        self.indices.len() == 0 && self.vertices.len() == 0
    }
}

impl MeshDrawing {
    /// Whether this draws all of the mesh.
    pub open spec fn draws(self, mesh: Mesh, texture: u64, vertex_lines: bool) -> bool {
        &&& self.lines@ == (if vertex_lines {
            outlines(mesh.indices@, mesh.vertices@)
        } else {
            Seq::empty()
        })
        &&& self.indices@ == mesh.indices@.map_values(|i: u32| low_signed(i as int) as i32)
        &&& self.verts@ == mesh.vertices@.map_values(|v: Vertex| v.pos)
        &&& self.uvs@ == mesh.vertices@.map_values(|v: Vertex| v.uv)
        &&& self.colors@ == mesh.vertices@.map_values(|v: Vertex| v.color)
        &&& self.texture == texture
    }
}

fn outline(mesh: &Mesh) -> (lines: Vec<Line>)
    requires
        mesh.is_outlinable(),
    ensures
        lines@ == outlines(mesh.indices@, mesh.vertices@),
{
    let mut lines: Vec<Line> = Vec::new();
    let mut i: usize = 0;
    while i < mesh.indices.len()
        invariant
            mesh.is_outlinable(),
            i <= mesh.indices@.len(),
            i % 3 == 0,
            lines@ == outlines(mesh.indices@, mesh.vertices@).take(i as int),
        decreases mesh.indices.len() - i,
    {
        let a = mesh.vertices[mesh.indices[i] as usize].pos;
        let b = mesh.vertices[mesh.indices[i + 1] as usize].pos;
        let c = mesh.vertices[mesh.indices[i + 2] as usize].pos;
        lines.push(Line { from: a, to: b });
        lines.push(Line { from: b, to: c });
        lines.push(Line { from: c, to: a });
        i = i + 3;
        assert(lines@ =~= outlines(mesh.indices@, mesh.vertices@).take(i as int));
    }
    assert(outlines(mesh.indices@, mesh.vertices@).take(i as int) =~= outlines(
        mesh.indices@,
        mesh.vertices@,
    ));
    lines
}

fn signed_indices(indices: &Vec<u32>) -> (signed: Vec<i32>)
    ensures
        signed@ == indices@.map_values(|i: u32| low_signed(i as int) as i32),
{
    let mut signed: Vec<i32> = Vec::with_capacity(indices.len());
    let mut i: usize = 0;
    while i < indices.len()
        invariant
            i <= indices.len(),
            signed@ == indices@.take(i as int).map_values(|i: u32| low_signed(i as int) as i32),
        decreases indices.len() - i,
    {
        signed.push(to_signed(indices[i] as u64));
        i = i + 1;
        assert(signed@ =~= indices@.take(i as int).map_values(
            |i: u32| low_signed(i as int) as i32,
        ));
    }
    assert(indices@.take(i as int) =~= indices@);
    signed
}

/// Draws a mesh with its texture, if that is there, and with the outlines of its triangles, if
/// they are to be seen.
pub fn draw_mesh(mesh: &Mesh, texture: Option<TextureDescriptor>, vertex_lines: bool) -> (drawing:
    Drawing)
    requires
        texture is Some && vertex_lines ==> mesh.is_outlinable(),
    ensures
        match texture {
            None => drawing == Drawing::MissingTexture(mesh.texture_id),
            Some(descriptor) => drawing matches Drawing::Mesh(d) && d.draws(
                *mesh,
                descriptor.tex,
                vertex_lines,
            ),
        },
        texture is None <==> drawing is MissingTexture,
        drawing matches Drawing::Mesh(d) ==> {
            &&& d.texture == texture->0.tex
            &&& d.verts@.len() == mesh.vertices@.len()
            &&& d.uvs@.len() == mesh.vertices@.len()
            &&& d.colors@.len() == mesh.vertices@.len()
            &&& d.indices@.len() == mesh.indices@.len()
            &&& d.lines@.len() == (if vertex_lines {
                mesh.indices@.len()
            } else {
                0
            })
            &&& forall|i: int|
                0 <= i < mesh.vertices@.len() ==> {
                    let vertex = #[trigger] mesh.vertices@[i];
                    &&& d.verts@[i] == vertex.pos
                    &&& d.uvs@[i] == vertex.uv
                    &&& d.colors@[i] == vertex.color
                }
        },
{
    match texture {
        None => Drawing::MissingTexture(mesh.texture_id),
        Some(descriptor) => {
            let lines = if vertex_lines {
                outline(mesh)
            } else {
                Vec::new()
            };
            let mut verts: Vec<Point> = Vec::with_capacity(mesh.vertices.len());
            let mut uvs: Vec<Point> = Vec::with_capacity(mesh.vertices.len());
            let mut colors: Vec<Rgba> = Vec::with_capacity(mesh.vertices.len());
            let mut i: usize = 0;
            while i < mesh.vertices.len()
                invariant
                    i <= mesh.vertices@.len(),
                    verts@ == mesh.vertices@.take(i as int).map_values(|v: Vertex| v.pos),
                    uvs@ == mesh.vertices@.take(i as int).map_values(|v: Vertex| v.uv),
                    colors@ == mesh.vertices@.take(i as int).map_values(|v: Vertex| v.color),
                decreases mesh.vertices.len() - i,
            {
                let vertex = mesh.vertices[i];
                verts.push(vertex.pos);
                uvs.push(vertex.uv);
                colors.push(vertex.color);
                i = i + 1;
                assert(verts@ =~= mesh.vertices@.take(i as int).map_values(|v: Vertex| v.pos));
                assert(uvs@ =~= mesh.vertices@.take(i as int).map_values(|v: Vertex| v.uv));
                assert(colors@ =~= mesh.vertices@.take(i as int).map_values(|v: Vertex| v.color));
            }
            assert(mesh.vertices@.take(i as int) =~= mesh.vertices@);
            Drawing::Mesh(
                MeshDrawing {
                    lines,
                    indices: signed_indices(&mesh.indices),
                    verts,
                    uvs,
                    colors,
                    texture: descriptor.tex,
                },
            )
        },
    }
}

/// The outlines of a mesh are closed: each triangle's three lines lead from corner to corner and
/// back to where they began.
pub proof fn law_outlines_close(indices: Seq<u32>, vertices: Seq<Vertex>, face: int)
    requires
        0 <= face,
        3 * face + 2 < indices.len(),
    ensures
        ({
            let lines = outlines(indices, vertices);
            &&& lines.len() == indices.len()
            &&& lines[3 * face].to == lines[3 * face + 1].from
            &&& lines[3 * face + 1].to == lines[3 * face + 2].from
            &&& lines[3 * face + 2].to == lines[3 * face].from
        }),
{
}

/// A drawing has one point, one texture coordinate and one colour for each vertex of its mesh, in
/// the same order, and takes each over as it is, channel by channel.
pub proof fn law_vertices_are_taken_over(
    drawing: MeshDrawing,
    mesh: Mesh,
    texture: u64,
    vertex_lines: bool,
    i: int,
)
    requires
        drawing.draws(mesh, texture, vertex_lines),
        0 <= i < mesh.vertices@.len(),
    ensures
        drawing.verts@.len() == mesh.vertices@.len(),
        drawing.uvs@.len() == mesh.vertices@.len(),
        drawing.colors@.len() == mesh.vertices@.len(),
        drawing.verts@[i].x == mesh.vertices@[i].pos.x,
        drawing.verts@[i].y == mesh.vertices@[i].pos.y,
        drawing.uvs@[i].x == mesh.vertices@[i].uv.x,
        drawing.uvs@[i].y == mesh.vertices@[i].uv.y,
        drawing.colors@[i].r == mesh.vertices@[i].color.r,
        drawing.colors@[i].g == mesh.vertices@[i].color.g,
        drawing.colors@[i].b == mesh.vertices@[i].color.b,
        drawing.colors@[i].a == mesh.vertices@[i].color.a,
{
}

/// A drawing is painted with the texture asked for, and its triangles join the same vertices as
/// those of the mesh, in the same order.
pub proof fn law_triangles_are_taken_over(
    drawing: MeshDrawing,
    mesh: Mesh,
    texture: u64,
    vertex_lines: bool,
    k: int,
)
    requires
        drawing.draws(mesh, texture, vertex_lines),
    ensures
        drawing.texture == texture,
        drawing.verts@.len() == mesh.vertices@.len(),
        drawing.uvs@.len() == mesh.vertices@.len(),
        drawing.colors@.len() == mesh.vertices@.len(),
        drawing.indices@.len() == mesh.indices@.len(),
        0 <= k < mesh.indices@.len() ==> (drawing.indices@[k] - mesh.indices@[k]) % 0x1_0000_0000
            == 0,
        0 <= k < mesh.indices@.len() && mesh.indices@[k] <= i32::MAX ==> drawing.indices@[k]
            == mesh.indices@[k],
{
    if 0 <= k < mesh.indices@.len() {
        crate::signed::law_low_signed_is_congruent(mesh.indices@[k] as int);
    }
}

/// Where outlines are to be seen, each triangle has three lines, from its first corner to its
/// second, from there to its third, and back. Where they are not, there is no line.
pub proof fn law_outlines_follow_the_triangles(
    drawing: MeshDrawing,
    mesh: Mesh,
    texture: u64,
    vertex_lines: bool,
    face: int,
)
    requires
        drawing.draws(mesh, texture, vertex_lines),
    ensures
        !vertex_lines ==> drawing.lines@.len() == 0,
        vertex_lines ==> drawing.lines@.len() == mesh.indices@.len(),
        vertex_lines && 0 <= face && 3 * face + 2 < mesh.indices@.len() ==> {
            let first = mesh.vertices@[mesh.indices@[3 * face] as int].pos;
            let second = mesh.vertices@[mesh.indices@[3 * face + 1] as int].pos;
            let third = mesh.vertices@[mesh.indices@[3 * face + 2] as int].pos;
            &&& drawing.lines@[3 * face] == (Line { from: first, to: second })
            &&& drawing.lines@[3 * face + 1] == (Line { from: second, to: third })
            &&& drawing.lines@[3 * face + 2] == (Line { from: third, to: first })
        },
{
}

/// A mesh is passed over only if a drawing of it would have neither a triangle nor a vertex.
pub proof fn law_only_empty_meshes_are_passed_over(
    drawing: MeshDrawing,
    mesh: Mesh,
    texture: u64,
    vertex_lines: bool,
)
    requires
        drawing.draws(mesh, texture, vertex_lines),
    ensures
        mesh.has_nothing() <==> drawing.indices@.len() == 0 && drawing.verts@.len() == 0,
        mesh.has_nothing() <==> mesh.indices@.len() == 0 && mesh.vertices@.len() == 0,
{
}

} // verus!
