use comengine::renderer::batch::{Batch, BatchManager, Vertex};

fn vertex(x: f32) -> Vertex {
    Vertex {
        position: [x.to_bits(), 0.0f32.to_bits(), 0.0f32.to_bits()],
        color: [1.0f32.to_bits(), 0.5f32.to_bits(), 0.25f32.to_bits(), 1.0f32.to_bits()],
    }
}

fn tri(base: f32) -> [Vertex; 3] {
    [vertex(base), vertex(base + 1.0), vertex(base + 2.0)]
}

fn quad(base: f32) -> [Vertex; 4] {
    [vertex(base), vertex(base + 1.0), vertex(base + 2.0), vertex(base + 3.0)]
}

fn counts(m: &BatchManager) -> Vec<usize> {
    m.batches().iter().map(|b: &Batch| b.vertices.len()).collect()
}

#[test]
fn polygons_split_at_bound() {
    let mut m = BatchManager::new(9);
    m.add_polygon(tri(0.0));
    m.add_polygon(tri(3.0));
    m.add_polygon(tri(6.0));
    assert_eq!(counts(&m), vec![9]);
    m.add_polygon(tri(9.0));
    assert_eq!(counts(&m), vec![9, 3]);
    assert_eq!(m.batches()[1].indices, vec![0, 1, 2]);
}

#[test]
fn batch_may_pass_bound_by_last_primitive() {
    let mut m = BatchManager::new(4);
    m.add_polygon(tri(0.0));
    m.add_polygon(tri(3.0));
    assert_eq!(counts(&m), vec![6]);
    m.add_quad(quad(6.0));
    assert_eq!(counts(&m), vec![6, 4]);
}

#[test]
fn zero_bound_opens_batch_per_primitive() {
    let mut m = BatchManager::new(0);
    m.add_polygon(tri(0.0));
    m.add_quad(quad(3.0));
    assert_eq!(counts(&m), vec![3, 4]);
    assert_eq!(m.vertex_per_batch(), 0);
}

#[test]
fn polygon_indices_offset() {
    let mut m = BatchManager::new(100);
    m.add_polygon(tri(0.0));
    m.add_polygon(tri(3.0));
    m.add_polygon(tri(6.0));
    assert_eq!(m.batches().len(), 1);
    assert_eq!(m.batches()[0].indices, vec![0, 1, 2, 3, 4, 5, 6, 7, 8]);
    assert_eq!(m.batches()[0].vertices[4].position[0], 4.0f32.to_bits());
}

#[test]
fn quad_indices_offset() {
    let mut m = BatchManager::new(100);
    m.add_quad(quad(0.0));
    m.add_quad(quad(4.0));
    assert_eq!(m.batches()[0].indices, vec![0, 1, 3, 1, 2, 3, 4, 5, 7, 5, 6, 7]);
}

#[test]
fn mixed_primitives_offset_by_vertex_count() {
    let mut m = BatchManager::new(100);
    m.add_quad(quad(0.0));
    m.add_polygon(tri(4.0));
    assert_eq!(m.batches()[0].indices, vec![0, 1, 3, 1, 2, 3, 4, 5, 6]);
}

#[test]
fn draw_then_clear() {
    let mut m = BatchManager::new(3);
    m.add_polygon(tri(0.0));
    m.add_polygon(tri(3.0));
    m.add_quad(quad(6.0));
    let drawn = m.draw();
    assert_eq!(drawn.len(), 3);
    assert_eq!(drawn[2].indices, vec![0, 1, 3, 1, 2, 3]);
    assert!(m.batches().is_empty());
    assert!(m.draw().is_empty());
    m.add_polygon(tri(0.0));
    assert_eq!(counts(&m), vec![3]);
}
