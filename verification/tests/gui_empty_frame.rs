use canvas_renderer::canvas::Step;
use canvas_renderer::draw_data::{FrameData, Point};
use canvas_renderer::renderer::CanvasRenderer;

#[test]
fn real_frame_with_nothing_drawn_asks_nothing() {
    let mut context = imgui::Context::create();
    context.set_ini_filename(None);
    context.fonts().build_rgba32_texture();
    context.io_mut().display_size = [800.0, 600.0];
    context.io_mut().delta_time = 1.0 / 60.0;
    context.new_frame();
    let data = context.render();
    assert_eq!(data.draw_lists_count(), 0);

    let renderer = CanvasRenderer::with_font_atlas("font atlas");
    let frame = FrameData {
        display_pos: Point::from_bits(data.display_pos[0].to_bits(), data.display_pos[1].to_bits()),
        display_size: Point::from_bits(data.display_size[0].to_bits(), data.display_size[1].to_bits()),
        framebuffer_scale: Point::from_bits(
            data.framebuffer_scale[0].to_bits(),
            data.framebuffer_scale[1].to_bits(),
        ),
        draw_lists: vec![],
    };
    let plan = renderer.render(&frame);
    assert!(plan.ops.is_empty());
    assert_eq!(plan.first_step(), Step::Done);
}
