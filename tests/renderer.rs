use comengine::renderer::batch::Vertex;
use comengine::renderer::shader::Shader;
use comengine::renderer::Renderer;
use comengine::{context::ComCtxBuilder, init};

fn vertex(r: f32) -> Vertex {
    Vertex {
        position: [0.5f32.to_bits(), (-0.5f32).to_bits(), 0.0f32.to_bits()],
        color: [r.to_bits(), 0.0f32.to_bits(), 0.0f32.to_bits(), 1.0f32.to_bits()],
    }
}

#[test]
fn renderer_defaults() {
    let mut r = Renderer::new(Shader::linked(7));
    assert_eq!(r.bind_base_shader(), 7);
    let frame = r.present();
    let gray = 0.3f32.to_bits();
    assert_eq!(frame.clear_color, [gray, gray, gray, 1.0f32.to_bits()]);
    assert!(frame.batches.is_empty());
}

#[test]
fn renderer_frame_holds_submitted_geometry() {
    let mut r = Renderer::new(Shader::linked(1));
    r.set_clear_color(0.0f32.to_bits(), 0.25f32.to_bits(), 0.5f32.to_bits(), 1.0f32.to_bits());
    r.add_polygon([vertex(1.0), vertex(0.0), vertex(0.0)]);
    r.add_quad([vertex(0.0), vertex(0.0), vertex(0.0), vertex(0.0)]);
    let frame = r.present();
    assert_eq!(frame.clear_color[1], 0.25f32.to_bits());
    assert_eq!(frame.batches.len(), 1);
    assert_eq!(frame.batches[0].indices, vec![0, 1, 2, 3, 4, 6, 4, 5, 6]);
    assert_eq!(frame.batches[0].vertices[0].color[0], 1.0f32.to_bits());
    assert!(r.present().batches.is_empty());
}

#[test]
fn builder_defaults_and_setters() {
    let b = init();
    assert_eq!(b.title, "Hello, Com!");
    assert_eq!((b.width, b.height), (1280, 720));
    let b = b.title("Hello, world!".to_string()).size(640, 480);
    assert_eq!(b.title, "Hello, world!");
    assert_eq!((b.width, b.height), (640, 480));
    let d = ComCtxBuilder::default();
    assert_eq!(d.title, "Hello, Com!");
}
