use canvas_renderer::canvas::RenderError;
use canvas_renderer::gui::{font_atlas_image, PixelFormat};
use canvas_renderer::renderer::{CanvasRenderer, UploadFailure};

#[test]
fn initialization_registers_the_font_atlas_as_texture_zero() {
    let mut context = imgui::Context::create();
    context.set_ini_filename(None);
    context.fonts().tex_id = imgui::TextureId::new(77);

    let image = font_atlas_image(&mut context);
    assert!(image.width > 0 && image.height > 0);
    assert_eq!(image.pitch, image.width * 4);
    assert_eq!(image.format, PixelFormat::Abgr8888);
    assert_eq!(image.data.len(), image.pitch as usize * image.height as usize);
    {
        let theirs = context.fonts().build_rgba32_texture();
        assert_eq!((theirs.width, theirs.height), (image.width, image.height));
        assert_eq!(theirs.data, &image.data[..]);
    }

    context.fonts().tex_id = imgui::TextureId::new(77);
    let failed: Result<CanvasRenderer<u8>, RenderError> =
        CanvasRenderer::new(&mut context, Err(UploadFailure::Surface));
    assert_eq!(failed.err(), Some(RenderError::SurfaceCreationFailed));
    let failed: Result<CanvasRenderer<u8>, RenderError> =
        CanvasRenderer::new(&mut context, Err(UploadFailure::Texture));
    assert_eq!(failed.err(), Some(RenderError::TextureUploadFailed));
    assert_eq!(context.fonts().tex_id.id(), 77);

    let renderer = CanvasRenderer::new(&mut context, Ok("uploaded atlas")).ok().unwrap();
    assert_eq!(renderer.texture_count(), 1);
    assert_eq!(renderer.texture(0), Some(&"uploaded atlas"));
    assert_eq!(context.fonts().tex_id.id(), 0);
}
