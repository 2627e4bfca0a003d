use vstd::prelude::*;

pub mod batch;
pub mod shader;
pub mod stage_laws;

use self::batch::{Batch, BatchManager, BatchModel, Vertex, add_primitive_spec, batch_wf, quad_pattern, triangle_pattern};
use self::shader::Shader;

verus! {

/// The vertex bound of each batch that the renderer opens.
pub const RENDERER_VERTEX_PER_BATCH: u32 = 100;

/// The bit pattern of the `f32` 0.3.
pub const GRAY_BITS: u32 = 0x3E99_999A;

/// The bit pattern of the `f32` 1.0.
pub const ONE_BITS: u32 = 0x3F80_0000;

/// What one frame asks of the graphics driver: clear the color buffer to
/// `clear_color` (RGBA as `f32` bit patterns), then draw each batch, in order,
/// with one indexed call.
#[derive(Debug)]
pub struct Frame {
    pub clear_color: [u32; 4],
    pub batches: Vec<Batch>,
}

/// The renderer: a clear color, a base shader and the batches of the frame
/// being built.
#[derive(Debug)]
pub struct Renderer {
    clear_color: [u32; 4],
    base_shader: Shader,
    batch_manager: BatchManager,
}

impl Renderer {
    /// The clear color, RGBA as `f32` bit patterns.
    pub closed spec fn clear_color_spec(&self) -> [u32; 4] {
        self.clear_color
    }

    /// The program id of the base shader.
    pub closed spec fn base_program(&self) -> u32 {
        self.base_shader.id()
    }

    /// The batches submitted since the last frame.
    pub closed spec fn pending(&self) -> Seq<BatchModel> {
        self.batch_manager@
    }

    pub closed spec fn wf(&self) -> bool {
        &&& self.batch_manager.wf()
        &&& self.batch_manager.max_vertices() == RENDERER_VERTEX_PER_BATCH
    }

    /// Construct a new [`Renderer`] around the compiled base shader, with a
    /// mid-gray opaque clear color and no pending batches.
    pub fn new(base_shader: Shader) -> (r: Self)
        ensures
            r.wf(),
            r.clear_color_spec() == [GRAY_BITS, GRAY_BITS, GRAY_BITS, ONE_BITS],
            r.base_program() == base_shader.id(),
            r.pending() == Seq::<BatchModel>::empty(),
    {
        Renderer {
            clear_color: [GRAY_BITS, GRAY_BITS, GRAY_BITS, ONE_BITS],
            base_shader,
            batch_manager: BatchManager::new(RENDERER_VERTEX_PER_BATCH),
        }
    }

    /// Set the clear color (each component an `f32` bit pattern)
    pub fn set_clear_color(&mut self, r: u32, g: u32, b: u32, a: u32)
        requires
            old(self).wf(),
        ensures
            final(self).wf(),
            final(self).clear_color_spec() == [r, g, b, a],
            final(self).base_program() == old(self).base_program(),
            final(self).pending() == old(self).pending(),
    {
        self.clear_color = [r, g, b, a];
    }

    /// The program to bind to use the base shader.
    pub fn bind_base_shader(&self) -> (r: u32)
        ensures
            r == self.base_program(),
    {
        self.base_shader.program()
    }

    /// Submit a triangle for the next frame.
    pub fn add_polygon(&mut self, vertices: [Vertex; 3])
        requires
            old(self).wf(),
        ensures
            final(self).wf(),
            final(self).clear_color_spec() == old(self).clear_color_spec(),
            final(self).base_program() == old(self).base_program(),
            final(self).pending() == add_primitive_spec(
                old(self).pending(),
                RENDERER_VERTEX_PER_BATCH,
                seq![vertices[0], vertices[1], vertices[2]],
                triangle_pattern(),
            ),
    {
        self.batch_manager.add_polygon(vertices);
    }

    /// Submit a quad for the next frame.
    pub fn add_quad(&mut self, vertices: [Vertex; 4])
        requires
            old(self).wf(),
        ensures
            final(self).wf(),
            final(self).clear_color_spec() == old(self).clear_color_spec(),
            final(self).base_program() == old(self).base_program(),
            final(self).pending() == add_primitive_spec(
                old(self).pending(),
                RENDERER_VERTEX_PER_BATCH,
                seq![vertices[0], vertices[1], vertices[2], vertices[3]],
                quad_pattern(),
            ),
    {
        self.batch_manager.add_quad(vertices);
    }

    /// Ends the frame: the clear color and every pending batch, in order,
    /// are handed over to be drawn, and no batch is left pending.
    pub fn present(&mut self) -> (r: Frame)
        requires
            old(self).wf(),
        ensures
            final(self).wf(),
            final(self).clear_color_spec() == old(self).clear_color_spec(),
            final(self).base_program() == old(self).base_program(),
            final(self).pending() == Seq::<BatchModel>::empty(),
            r.clear_color == old(self).clear_color_spec(),
            r.batches@.map_values(|b: Batch| b@) == old(self).pending(),
            forall|i: int| 0 <= i < r.batches@.len() ==> batch_wf(#[trigger] r.batches@[i]@, RENDERER_VERTEX_PER_BATCH),
    {
        let batches = self.batch_manager.draw();
        Frame { clear_color: self.clear_color, batches }
    }
}

} // verus!
