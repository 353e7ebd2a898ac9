//! Triangle meshes: what the editor draws, ready for an index buffer of
//! 16-bit indices.

use vstd::prelude::*;
use crate::geometry::Vector2;
use crate::ui::Color;

verus! {

/// The number of vertices that 16-bit indices can tell apart.
pub const MAX_VERTICES: usize = 65536;

/// A corner of a triangle: a pixel position and a colour.
#[derive(Debug, Clone, Copy, PartialEq, Eq)]
pub struct Vertex {
    pub pos: Vector2,
    pub color: Color,
}

/// A rectangle of one colour between two opposite corners, in pixels.
#[derive(Debug, Clone, Copy, PartialEq, Eq)]
pub struct Rect {
    pub from: Vector2,
    pub to: Vector2,
    pub color: Color,
}

/// The four corners of the rectangle from `a0` to `a1`, from `a0` around by
/// way of the corner that shares its x.
pub open spec fn rect_vertices(a0: Vector2, a1: Vector2, color: Color) -> Seq<Vertex> {
    seq![
        Vertex { pos: Vector2 { x: a0.x, y: a0.y }, color },
        Vertex { pos: Vector2 { x: a0.x, y: a1.y }, color },
        Vertex { pos: Vector2 { x: a1.x, y: a1.y }, color },
        Vertex { pos: Vector2 { x: a1.x, y: a0.y }, color },
    ]
}

/// The two triangles of a rectangle whose first corner has the index `first`.
pub open spec fn rect_indices(first: int) -> Seq<u16> {
    seq![
        first as u16,
        (first + 1) as u16,
        (first + 2) as u16,
        (first + 2) as u16,
        (first + 3) as u16,
        first as u16,
    ]
}

/// The triangles of a fan of `count` vertices whose first vertex has the
/// index `first`: each joins the first vertex to two neighbours among the
/// others.
pub open spec fn fan_indices(first: int, count: int) -> Seq<u16> {
    Seq::new(
        if count >= 2 {
            (3 * (count - 2)) as nat
        } else {
            0
        },
        |j: int|
            if j % 3 == 0 {
                first as u16
            } else if j % 3 == 1 {
                (first + j / 3 + 1) as u16
            } else {
                (first + j / 3 + 2) as u16
            },
    )
}

/// A mesh as a mathematical value.
pub struct MeshView {
    pub vertices: Seq<Vertex>,
    /// Three indices into `vertices` for each triangle.
    pub indices: Seq<u16>,
}

impl MeshView {
    /// The mesh without a triangle.
    pub open spec fn empty() -> MeshView {
        MeshView { vertices: Seq::empty(), indices: Seq::empty() }
    }

    /// Every index names a vertex.
    pub open spec fn wf(self) -> bool {
        forall|i: int|
            0 <= i < self.indices.len() ==> (#[trigger] self.indices[i]) < self.vertices.len()
    }

    /// The mesh with one more rectangle.
    pub open spec fn with_rect(self, a0: Vector2, a1: Vector2, color: Color) -> MeshView {
        MeshView {
            vertices: self.vertices + rect_vertices(a0, a1, color),
            indices: self.indices + rect_indices(self.vertices.len() as int),
        }
    }

    /// Whether the mesh has room for one more rectangle.
    pub open spec fn has_room(self) -> bool {
        self.vertices.len() + 4 <= MAX_VERTICES
    }

    /// The mesh with `rect` drawn into it, if it has room for it.
    pub open spec fn drawn(self, rect: Rect) -> MeshView {
        if self.has_room() {
            self.with_rect(rect.from, rect.to, rect.color)
        } else {
            self
        }
    }

    /// The mesh with each of `rects` drawn into it in turn.  Once the mesh
    /// is full, the rest is left out.
    pub open spec fn with_rects(self, rects: Seq<Rect>) -> MeshView
        decreases rects.len(),
    {
        if rects.len() == 0 {
            self
        } else {
            self.with_rects(rects.drop_last()).drawn(rects.last())
        }
    }

    /// The mesh with one more fan.
    pub open spec fn with_fan(self, fan: Seq<Vertex>) -> MeshView {
        MeshView {
            vertices: self.vertices + fan,
            indices: self.indices + fan_indices(self.vertices.len() as int, fan.len() as int),
        }
    }
}

/// A list of triangles.
pub struct Mesh {
    vertices: Vec<Vertex>,
    indices: Vec<u16>,
}

impl View for Mesh {
    type V = MeshView;

    closed spec fn view(&self) -> MeshView {
        MeshView { vertices: self.vertices@, indices: self.indices@ }
    }
}

impl Mesh {
    pub fn new() -> (m: Mesh)
        ensures
            m@ == MeshView::empty(),
            m@.wf(),
    {
        Mesh { vertices: Vec::new(), indices: Vec::new() }
    }

    pub fn vertices(&self) -> (v: &Vec<Vertex>)
        ensures
            v@ == self@.vertices,
    {
        &self.vertices
    }

    pub fn indices(&self) -> (v: &Vec<u16>)
        ensures
            v@ == self@.indices,
    {
        &self.indices
    }

    /// Adds the rectangle from `a0` to `a1` as two triangles.
    pub fn add_rect(&mut self, a0: Vector2, a1: Vector2, color: Color)
        requires
            old(self)@.vertices.len() + 4 <= MAX_VERTICES,
        ensures
            final(self)@ == old(self)@.with_rect(a0, a1, color),
            old(self)@.wf() ==> final(self)@.wf(),
    {
        let i0: u16 = self.vertices.len() as u16;
        self.vertices.push(Vertex { pos: Vector2 { x: a0.x, y: a0.y }, color });
        self.vertices.push(Vertex { pos: Vector2 { x: a0.x, y: a1.y }, color });
        self.vertices.push(Vertex { pos: Vector2 { x: a1.x, y: a1.y }, color });
        self.vertices.push(Vertex { pos: Vector2 { x: a1.x, y: a0.y }, color });
        self.indices.push(i0);
        self.indices.push(i0 + 1);
        self.indices.push(i0 + 2);
        self.indices.push(i0 + 2);
        self.indices.push(i0 + 3);
        self.indices.push(i0);
        proof {
            assert(self.vertices@ =~= old(self).vertices@ + rect_vertices(a0, a1, color));
            assert(self.indices@ =~= old(self).indices@ + rect_indices(
                old(self).vertices@.len() as int,
            ));
        }
    }

    /// Draws the rectangle from `a0` to `a1` where the mesh has room for
    /// it, and leaves it out where the mesh is full.
    pub fn render_rect(&mut self, a0: Vector2, a1: Vector2, color: Color)
        ensures
            final(self)@ == old(self)@.drawn(Rect { from: a0, to: a1, color }),
            old(self)@.wf() ==> final(self)@.wf(),
    {
        if self.vertices.len() <= MAX_VERTICES - 4 {
            self.add_rect(a0, a1, color);
        }
    }

    /// Adds a fan of triangles around the first of `fan`.
    pub fn add_fan(&mut self, fan: Vec<Vertex>)
        requires
            fan@.len() >= 2,
            old(self)@.vertices.len() + fan@.len() <= MAX_VERTICES,
        ensures
            final(self)@ == old(self)@.with_fan(fan@),
            old(self)@.wf() ==> final(self)@.wf(),
    {
        let i0: u16 = self.vertices.len() as u16;
        self.vertices.push(fan[0]);
        self.vertices.push(fan[1]);
        let mut i: usize = 2;
        while i < fan.len()
            invariant
                2 <= i <= fan.len(),
                i0 == old(self).vertices@.len(),
                old(self).vertices@.len() + fan@.len() <= MAX_VERTICES,
                self.vertices@ =~= old(self).vertices@ + fan@.take(i as int),
                self.indices@ =~= old(self).indices@ + fan_indices(i0 as int, i as int),
            decreases fan.len() - i,
        {
            let k: u16 = (i - 1) as u16;
            self.vertices.push(fan[i]);
            self.indices.push(i0);
            self.indices.push(i0 + k);
            self.indices.push(i0 + k + 1);
            i += 1;
        }
        proof {
            fan@.lemma_take_len();
            if old(self)@.wf() {
                let before = old(self).indices@.len() as int;
                assert forall|j: int| 0 <= j < self.indices@.len() implies (
                #[trigger] self.indices@[j]) < self.vertices@.len() by {
                    if j < before {
                        assert(self.indices@[j] == old(self)@.indices[j]);
                    } else {
                        assert(self.indices@[j] == fan_indices(i0 as int, fan@.len() as int)[j
                            - before]);
                    }
                }
            }
        }
    }

    /// Takes every triangle out.
    pub fn clear(&mut self)
        ensures
            final(self)@ == MeshView::empty(),
            final(self)@.wf(),
    {
        self.vertices.clear();
        self.indices.clear();
    }
}

/// Drawing one more rectangle after others is drawing all of them.
pub proof fn lemma_with_rects_push(mesh: MeshView, rects: Seq<Rect>, rect: Rect)
    ensures
        mesh.with_rects(rects.push(rect)) == mesh.with_rects(rects).drawn(rect),
{
    assert(rects.push(rect).drop_last() =~= rects);
}

/// Drawing one list of rectangles after another is drawing the two as one.
pub proof fn lemma_with_rects_add(mesh: MeshView, first: Seq<Rect>, second: Seq<Rect>)
    ensures
        mesh.with_rects(first + second) == mesh.with_rects(first).with_rects(second),
    decreases second.len(),
{
    if second.len() == 0 {
        assert(first + second =~= first);
    } else {
        lemma_with_rects_add(mesh, first, second.drop_last());
        assert((first + second).drop_last() =~= first + second.drop_last());
    }
}

/// Drawing rectangles keeps every index in range.
pub proof fn lemma_with_rects_wf(mesh: MeshView, rects: Seq<Rect>)
    requires
        mesh.wf(),
    ensures
        mesh.with_rects(rects).wf(),
    decreases rects.len(),
{
    if rects.len() > 0 {
        lemma_with_rects_wf(mesh, rects.drop_last());
    }
}

/// Something that can be drawn.
pub enum Object {
    Mesh(Mesh),
}

/// The meshes of one frame, in the order in which they are drawn.
pub struct Scene {
    objs: Vec<Mesh>,
}

impl View for Scene {
    type V = Seq<MeshView>;

    closed spec fn view(&self) -> Seq<MeshView> {
        self.objs@.map_values(|m: Mesh| m@)
    }
}

impl Scene {
    pub fn new() -> (s: Scene)
        ensures
            s@ == Seq::<MeshView>::empty(),
    {
        let s = Scene { objs: Vec::new() };
        assert(s@ =~= Seq::<MeshView>::empty());
        s
    }

    pub fn objs(&self) -> (v: &Vec<Mesh>)
        ensures
            v@.len() == self@.len(),
            forall|i: int| 0 <= i < v@.len() ==> (#[trigger] v@[i])@ == self@[i],
    {
        &self.objs
    }

    /// Adds a mesh behind the others.
    pub fn add_mesh(&mut self, mesh: Mesh)
        ensures
            final(self)@ == old(self)@.push(mesh@),
    {
        self.objs.push(mesh);
        assert(self@ =~= old(self)@.push(mesh@));
    }

    /// Takes every mesh out.
    pub fn clear(&mut self)
        ensures
            final(self)@ == Seq::<MeshView>::empty(),
    {
        self.objs.clear();
        assert(self@ =~= Seq::<MeshView>::empty());
    }
}

} // verus!
