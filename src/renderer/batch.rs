use vstd::prelude::*;

verus! {

/// The largest per-batch vertex bound: a batch then never holds a vertex whose
/// index does not fit in a `u32`.
pub const MAX_VERTEX_PER_BATCH: u32 = 0xFFFF_FFFC;

/// A vertex: a position and an RGBA color, each component held as the bit
/// pattern of an IEEE-754 single-precision float (`f32::to_bits`).
/// The layout is the one the vertex attributes describe: three position
/// components followed by four color components, tightly packed.
#[derive(Debug, Clone, Copy)]
pub struct Vertex {
    pub position: [u32; 3],
    pub color: [u32; 4],
}

/// A batch of vertices and the triangle-list indices into them.
#[derive(Debug, Clone)]
pub struct Batch {
    /// The vertices in the batch
    pub vertices: Vec<Vertex>,
    /// The indices in the batch, relative to its own vertices
    pub indices: Vec<u32>,
}

/// A batch as plain sequences: (vertices, indices).
pub type BatchModel = (Seq<Vertex>, Seq<u32>);

impl View for Batch {
    type V = BatchModel;

    open spec fn view(&self) -> BatchModel {
        (self.vertices@, self.indices@)
    }
}

/// The index pattern of a triangle, relative to its first vertex.
pub open spec fn triangle_pattern() -> Seq<u32> {
    seq![0u32, 1u32, 2u32]
}

/// The index pattern of a quad: two triangles sharing the 1-3 diagonal.
pub open spec fn quad_pattern() -> Seq<u32> {
    seq![0u32, 1u32, 3u32, 1u32, 2u32, 3u32]
}

/// A pattern of primitive-relative indices shifted by `start`.
pub open spec fn offset_indices(pattern: Seq<u32>, start: int) -> Seq<u32> {
    pattern.map_values(|x: u32| (x + start) as u32)
}

/// Whether the batch list has no open batch that can take another primitive:
/// it is empty, or its last batch already holds `max` vertices or more.
pub open spec fn needs_new_batch(batches: Seq<BatchModel>, max: u32) -> bool {
    batches.len() == 0 || batches.last().0.len() >= max
}

/// The batch list after one primitive with vertices `verts` and relative
/// index pattern `pattern` has been added.
pub open spec fn add_primitive_spec(
    batches: Seq<BatchModel>,
    max: u32,
    verts: Seq<Vertex>,
    pattern: Seq<u32>,
) -> Seq<BatchModel> {
    if needs_new_batch(batches, max) {
        batches.push((verts, pattern))
    } else {
        let last = batches.last();
        batches.drop_last().push((last.0 + verts, last.1 + offset_indices(pattern, last.0.len() as int)))
    }
}

/// Adding a primitive opens a new batch exactly when there is no batch yet or
/// the last batch already holds `max` vertices or more; otherwise the batch
/// count stays and the last batch grows by the primitive's vertices, with the
/// earlier batches untouched.
pub proof fn lemma_new_batch_exactly_when_full(
    batches: Seq<BatchModel>,
    max: u32,
    verts: Seq<Vertex>,
    pattern: Seq<u32>,
)
    ensures
        ({
            let after = add_primitive_spec(batches, max, verts, pattern);
            &&& after.len() == batches.len() + 1 <==> needs_new_batch(batches, max)
            &&& !needs_new_batch(batches, max) ==> after.len() == batches.len()
                && after.last().0.len() == batches.last().0.len() + verts.len()
            &&& forall|i: int| 0 <= i < batches.len() - 1 ==> after[i] == batches[i]
            &&& needs_new_batch(batches, max) ==> after.last() == (verts, pattern)
        }),
{
}

/// A well-formed batch: it holds at least one vertex, at most `max + 4`, and
/// every index points at one of its own vertices.
pub open spec fn batch_wf(b: BatchModel, max: u32) -> bool {
    &&& 0 < b.0.len() <= max + 4
    &&& forall|k: int| 0 <= k < b.1.len() ==> (#[trigger] b.1[k]) < b.0.len()
}

/// Manages the batches for the renderer
#[derive(Debug)]
pub struct BatchManager {
    // The bound on a batch's vertex count before a new batch is opened
    vertex_per_batch: u32,
    // The batches, in the order they were opened
    batches: Vec<Batch>,
}

impl View for BatchManager {
    type V = Seq<BatchModel>;

    closed spec fn view(&self) -> Seq<BatchModel> {
        self.batches@.map_values(|b: Batch| b@)
    }
}

impl BatchManager {
    /// The configured per-batch vertex bound.
    pub closed spec fn max_vertices(&self) -> u32 {
        self.vertex_per_batch
    }

    pub open spec fn wf(&self) -> bool {
        &&& self.max_vertices() <= MAX_VERTEX_PER_BATCH
        &&& forall|i: int| 0 <= i < self@.len() ==> batch_wf(#[trigger] self@[i], self.max_vertices())
    }

    /// Construct a new [`BatchManager`] with no batches.
    pub fn new(vertex_per_batch: u32) -> (r: Self)
        requires
            vertex_per_batch <= MAX_VERTEX_PER_BATCH,
        ensures
            r.wf(),
            r.max_vertices() == vertex_per_batch,
            r@ == Seq::<BatchModel>::empty(),
    {
        let r = BatchManager { vertex_per_batch, batches: Vec::new() };
        assert(r@ =~= Seq::<BatchModel>::empty());
        r
    }

    /// The configured per-batch vertex bound.
    pub fn vertex_per_batch(&self) -> (r: u32)
        ensures
            r == self.max_vertices(),
    {
        self.vertex_per_batch
    }

    /// The batches currently held, in the order they were opened.
    pub fn batches(&self) -> (r: &Vec<Batch>)
        ensures
            r@.map_values(|b: Batch| b@) == self@,
    {
        &self.batches
    }

    /// Appends one primitive: to the last batch, or to a new batch where there
    /// is none or the last one already holds `vertex_per_batch` vertices.
    /// The primitive's indices are its pattern shifted by the vertex count of
    /// the batch before it was added.
    fn add_primitive(&mut self, verts: &[Vertex], pattern: &[u32])
        requires
            old(self).wf(),
            1 <= verts@.len() <= 4,
            forall|k: int| 0 <= k < pattern@.len() ==> (#[trigger] pattern@[k]) < verts@.len(),
        ensures
            final(self).wf(),
            final(self).max_vertices() == old(self).max_vertices(),
            final(self)@ == add_primitive_spec(old(self)@, old(self).max_vertices(), verts@, pattern@),
    {
        let ghost old_view = self@;
        let n = self.batches.len();
        let open_new = n == 0 || self.batches[n - 1].vertices.len() >= self.vertex_per_batch as usize;
        if open_new {
            let mut vertices: Vec<Vertex> = Vec::new();
            let mut indices: Vec<u32> = Vec::new();
            for i in 0..verts.len()
                invariant
                    vertices@ == verts@.subrange(0, i as int),
            {
                vertices.push(verts[i]);
            }
            for i in 0..pattern.len()
                invariant
                    indices@ == pattern@.subrange(0, i as int),
            {
                indices.push(pattern[i]);
            }
            assert(vertices@ =~= verts@);
            assert(indices@ =~= pattern@);
            self.batches.push(Batch { vertices, indices });
            assert(self@ =~= old_view.push((verts@, pattern@)));
        } else {
            let mut batch = self.batches.pop().unwrap();
            assert(batch@ == old_view.last());
            assert(self@ =~= old_view.drop_last());
            let ghost old_batch = batch@;
            let start: u32 = batch.vertices.len() as u32;
            for i in 0..verts.len()
                invariant
                    batch.vertices@ == old_batch.0 + verts@.subrange(0, i as int),
                    batch.indices@ == old_batch.1,
            {
                batch.vertices.push(verts[i]);
            }
            assert(batch.vertices@ =~= old_batch.0 + verts@);
            assert(batch.indices@ =~= old_batch.1 + offset_indices(pattern@, start as int).subrange(0, 0));
            for i in 0..pattern.len()
                invariant
                    start as int == old_batch.0.len(),
                    start < self.vertex_per_batch <= MAX_VERTEX_PER_BATCH,
                    forall|k: int| 0 <= k < pattern@.len() ==> (#[trigger] pattern@[k]) < verts@.len(),
                    verts@.len() <= 4,
                    batch.vertices@ == old_batch.0 + verts@,
                    batch.indices@ == old_batch.1 + offset_indices(pattern@, start as int).subrange(0, i as int),
            {
                assert(pattern@[i as int] < 4);
                batch.indices.push(start + pattern[i]);
                assert(offset_indices(pattern@, start as int).subrange(0, i + 1) =~=
                    offset_indices(pattern@, start as int).subrange(0, i as int).push((start + pattern@[i as int]) as u32));
            }
            assert(batch.indices@ =~= old_batch.1 + offset_indices(pattern@, start as int));
            self.batches.push(batch);
            assert(self@ =~= add_primitive_spec(old_view, self.vertex_per_batch, verts@, pattern@));
            assert(batch_wf(self@.last(), self.vertex_per_batch)) by {
                let b = self@.last();
                assert forall|k: int| 0 <= k < b.1.len() implies (#[trigger] b.1[k]) < b.0.len() by {
                    if k >= old_batch.1.len() {
                        let j = k - old_batch.1.len();
                        assert(b.1[k] == offset_indices(pattern@, start as int)[j]);
                        assert(pattern@[j] < verts@.len());
                    } else {
                        assert(batch_wf(old_view.last(), self.vertex_per_batch));
                        assert(b.1[k] == old_batch.1[k]);
                    }
                }
            }
        }
        assert forall|i: int| 0 <= i < self@.len() implies batch_wf(#[trigger] self@[i], self.max_vertices()) by {
            if i < self@.len() - 1 {
                assert(self@[i] == old_view[i]);
            }
        }
    }

    /// Add a triangle: its indices are `S, S+1, S+2`, where `S` is the vertex
    /// count of the batch it goes to before it was added.
    pub fn add_polygon(&mut self, vertices: [Vertex; 3])
        requires
            old(self).wf(),
        ensures
            final(self).wf(),
            final(self).max_vertices() == old(self).max_vertices(),
            final(self)@ == add_primitive_spec(
                old(self)@,
                old(self).max_vertices(),
                seq![vertices[0], vertices[1], vertices[2]],
                triangle_pattern(),
            ),
    {
        let pattern: [u32; 3] = [0, 1, 2];
        assert(pattern@ =~= triangle_pattern());
        assert(vertices@ =~= seq![vertices[0], vertices[1], vertices[2]]);
        self.add_primitive(vertices.as_slice(), pattern.as_slice());
    }

    /// Add a quad as two triangles sharing a diagonal: its indices are
    /// `S, S+1, S+3, S+1, S+2, S+3`, where `S` is the vertex count of the batch
    /// it goes to before it was added.
    pub fn add_quad(&mut self, vertices: [Vertex; 4])
        requires
            old(self).wf(),
        ensures
            final(self).wf(),
            final(self).max_vertices() == old(self).max_vertices(),
            final(self)@ == add_primitive_spec(
                old(self)@,
                old(self).max_vertices(),
                seq![vertices[0], vertices[1], vertices[2], vertices[3]],
                quad_pattern(),
            ),
    {
        let pattern: [u32; 6] = [0, 1, 3, 1, 2, 3];
        assert(pattern@ =~= quad_pattern());
        assert(vertices@ =~= seq![vertices[0], vertices[1], vertices[2], vertices[3]]);
        self.add_primitive(vertices.as_slice(), pattern.as_slice());
    }

    /// Hands over every batch, in the order they were opened, for drawing, and
    /// leaves the manager with none: each batch is drawn exactly once.
    pub fn draw(&mut self) -> (r: Vec<Batch>)
        requires
            old(self).wf(),
        ensures
            final(self).wf(),
            final(self).max_vertices() == old(self).max_vertices(),
            final(self)@ == Seq::<BatchModel>::empty(),
            r@.map_values(|b: Batch| b@) == old(self)@,
            forall|i: int| 0 <= i < r@.len() ==> batch_wf(#[trigger] r@[i]@, old(self).max_vertices()),
    {
        let mut taken: Vec<Batch> = Vec::new();
        std::mem::swap(&mut self.batches, &mut taken);
        assert(self@ =~= Seq::<BatchModel>::empty());
        assert forall|i: int| 0 <= i < taken@.len() implies batch_wf(#[trigger] taken@[i]@, old(self).max_vertices()) by {
            assert(old(self)@[i] == taken@[i]@);
        }
        taken
    }
}

} // verus!
