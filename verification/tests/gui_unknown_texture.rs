use canvas_renderer::canvas::{CanvasOp, RenderError};
use canvas_renderer::draw_data::{
    ClipBounds, DrawCmd, DrawCmdParams, DrawList, FrameData, Point,
};
use canvas_renderer::renderer::CanvasRenderer;

fn point(pair: [f32; 2]) -> Point {
    Point::from_bits(pair[0].to_bits(), pair[1].to_bits())
}

#[test]
fn real_frame_that_names_an_unknown_texture_fails() {
    let mut context = imgui::Context::create();
    context.set_ini_filename(None);
    context.fonts().build_rgba32_texture();
    context.fonts().tex_id = imgui::TextureId::new(0);
    context.io_mut().display_size = [800.0, 600.0];
    context.io_mut().delta_time = 1.0 / 60.0;
    let ui = context.new_frame();
    ui.window("Picture")
        .position([20.0, 30.0], imgui::Condition::Always)
        .size([300.0, 200.0], imgui::Condition::Always)
        .build(|| {
            imgui::Image::new(imgui::TextureId::new(5), [16.0, 16.0]).build(ui);
        });
    let data = context.render();

    // The commands are what decides here; the buffers are left empty.
    let draw_lists: Vec<DrawList> = data
        .draw_lists()
        .map(|list| DrawList {
            vtx_buffer: vec![],
            idx_buffer: vec![],
            commands: list
                .commands()
                .map(|c| match c {
                    imgui::DrawCmd::Elements { count, cmd_params } => {
                        let [x1, y1, x2, y2] = cmd_params.clip_rect.map(f32::to_bits);
                        DrawCmd::Elements {
                            count,
                            cmd_params: DrawCmdParams {
                                clip_rect: ClipBounds::from_bits(x1, y1, x2, y2),
                                texture_id: cmd_params.texture_id.id(),
                                vtx_offset: cmd_params.vtx_offset,
                                idx_offset: cmd_params.idx_offset,
                            },
                        }
                    }
                    imgui::DrawCmd::ResetRenderState => DrawCmd::ResetRenderState,
                    imgui::DrawCmd::RawCallback { .. } => DrawCmd::RawCallback,
                })
                .collect(),
        })
        .collect();
    let frame = FrameData {
        display_pos: point(data.display_pos),
        display_size: point(data.display_size),
        framebuffer_scale: point(data.framebuffer_scale),
        draw_lists,
    };

    let renderer = CanvasRenderer::with_font_atlas("font atlas");
    let plan = renderer.render(&frame);
    assert_eq!(plan.failure, Some(RenderError::TextureIdOutOfRange(5)));
    assert!(matches!(plan.ops[0], CanvasOp::RenderGeometry { .. }));
    assert!(!plan.ops.iter().any(|op| matches!(op, CanvasOp::InvokeCallback { .. })));
}
