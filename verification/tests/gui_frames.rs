use canvas_renderer::canvas::CanvasOp;
use canvas_renderer::draw_data::{
    ClipBounds, Color, DrawCmd, DrawCmdParams, DrawList, DrawVert, FrameData, Point,
};
use canvas_renderer::renderer::CanvasRenderer;

fn point(pair: [f32; 2]) -> Point {
    Point::from_bits(pair[0].to_bits(), pair[1].to_bits())
}

/// The draw data of the GUI layer in the library's types.
fn frame_of(data: &imgui::DrawData) -> FrameData {
    let mut draw_lists = Vec::new();
    if data.draw_lists_count() > 0 {
        for list in data.draw_lists() {
            draw_lists.push(DrawList {
                vtx_buffer: list
                    .vtx_buffer()
                    .iter()
                    .map(|v| DrawVert {
                        pos: point(v.pos),
                        uv: point(v.uv),
                        col: Color { r: v.col[0], g: v.col[1], b: v.col[2], a: v.col[3] },
                    })
                    .collect(),
                idx_buffer: list.idx_buffer().to_vec(),
                commands: list
                    .commands()
                    .map(|c| match c {
                        imgui::DrawCmd::Elements { count, cmd_params } => {
                            let [x1, y1, x2, y2] = cmd_params.clip_rect.map(f32::to_bits);
                            DrawCmd::Elements {
                                count,
                                cmd_params: DrawCmdParams {
                                    clip_rect: ClipBounds::from_bits(x1, y1, x2, y2),
                                    texture_id: cmd_params.texture_id.id(),
                                    vtx_offset: cmd_params.vtx_offset,
                                    idx_offset: cmd_params.idx_offset,
                                },
                            }
                        }
                        imgui::DrawCmd::ResetRenderState => DrawCmd::ResetRenderState,
                        imgui::DrawCmd::RawCallback { .. } => DrawCmd::RawCallback,
                    })
                    .collect(),
            });
        }
    }
    FrameData {
        display_pos: point(data.display_pos),
        display_size: point(data.display_size),
        framebuffer_scale: point(data.framebuffer_scale),
        draw_lists,
    }
}

#[test]
fn real_frame_is_rendered_list_by_list() {
    let mut context = imgui::Context::create();
    context.set_ini_filename(None);
    context.fonts().build_rgba32_texture();
    context.fonts().tex_id = imgui::TextureId::new(0);
    context.io_mut().display_size = [800.0, 600.0];
    context.io_mut().display_framebuffer_scale = [1.5, 2.0];
    context.io_mut().delta_time = 1.0 / 60.0;
    let ui = context.new_frame();
    ui.window("First")
        .position([20.0, 30.0], imgui::Condition::Always)
        .size([300.0, 200.0], imgui::Condition::Always)
        .build(|| {
            ui.text("Some text");
            imgui::Image::new(imgui::TextureId::new(0), [16.0, 16.0]).build(ui);
        });
    ui.window("Second")
        .position([400.0, 300.0], imgui::Condition::Always)
        .size([100.0, 100.0], imgui::Condition::Always)
        .build(|| {
            ui.text("More");
        });
    let data = context.render();
    assert!(data.draw_lists_count() >= 2);

    let renderer = CanvasRenderer::with_font_atlas("font atlas");
    let plan = renderer.render(&frame_of(data));
    assert_eq!(plan.failure, None);

    let mut batches = 0;
    let mut clips = 0;
    let mut lists = data.draw_lists();
    for op in &plan.ops {
        match op {
            CanvasOp::RenderGeometry { vertices, vertex_count, indices, index_count } => {
                let theirs = lists.next().unwrap();
                assert!(*vertex_count > 0);
                assert_eq!(*vertex_count as usize, theirs.vtx_buffer().len());
                assert_eq!(*index_count as usize, theirs.idx_buffer().len());
                assert_eq!(vertices.len(), theirs.vtx_buffer().len());
                for (v, t) in vertices.iter().zip(theirs.vtx_buffer()) {
                    assert_eq!(v.position.x.to_bits(), (t.pos[0] * 1.5).to_bits());
                    assert_eq!(v.position.y.to_bits(), (t.pos[1] * 2.0).to_bits());
                    assert_eq!([v.tex_coord.x.to_bits(), v.tex_coord.y.to_bits()], t.uv.map(f32::to_bits));
                    assert_eq!([v.color.r, v.color.g, v.color.b, v.color.a], t.col);
                }
                for (i, t) in indices.iter().zip(theirs.idx_buffer()) {
                    assert_eq!(*i, *t as i32);
                }
                batches += 1;
            }
            CanvasOp::SetClipRect { rect } => {
                assert!(rect.width > 0 && rect.height > 0);
                clips += 1;
            }
            CanvasOp::ClearClipRect | CanvasOp::InvokeCallback { .. } => {}
        }
    }
    assert_eq!(batches, data.draw_lists_count());
    assert!(clips >= 2);
}
