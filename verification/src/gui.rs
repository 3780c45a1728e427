//! The GUI layer's side of the initialization: the font atlas of a GUI
//! context, and the texture identifier that the context knows it by.
//!
//! The GUI layer is an outside library. What is said here of its values is
//! taken from its source and believed, not proved; everything built on it is
//! proved from those statements.

use vstd::prelude::*;

verus! {

#[verifier::external_type_specification]
#[verifier::external_body]
pub struct ExContext(imgui::Context);

/// The texture identifier in the field `tex_id` of a context's font atlas.
pub uninterp spec fn font_texture_id(context: imgui::Context) -> usize;

/// The font atlas of the context can be built: no frame is in progress, and
/// each font source in the atlas is a font that the GUI layer reads. A context
/// that was given no font source of its own builds the GUI layer's default
/// font.
pub uninterp spec fn font_atlas_builds(context: imgui::Context) -> bool;

/// Calls `imgui::FontAtlas::build_rgba32_texture` on the context's font atlas.
/// On a context whose atlas cannot be built the GUI layer stops the process,
/// so such a context is left out. Believed: width, height and pixels are what
/// `built_font_atlas` names; a row takes four bytes a pixel and fits a C
/// `int`; the pixels are `height` rows; and the atlas, once built, can be
/// built again, which hands out the same bitmap.
#[verifier::external_body]
fn build_font_texture(context: &mut imgui::Context) -> (r: (u32, u32, Vec<u8>))
    requires
        font_atlas_builds(*old(context)),
    ensures
        (r.0, r.1, r.2@) == built_font_atlas(*old(context)),
        r.0 * 4 <= i32::MAX,
        r.2@.len() == r.0 * 4 * r.1,
        font_atlas_builds(*final(context)),
{
    let texture = context.fonts().build_rgba32_texture();
    (texture.width, texture.height, texture.data.to_vec())
}

/// Assigns the field `tex_id` of the context's font atlas, reached by
/// `imgui::Context::fonts`. Believed: the field then holds the identifier.
#[verifier::external_body]
pub(crate) fn set_font_texture_id(context: &mut imgui::Context, id: usize)
    ensures
        font_texture_id(*final(context)) == id,
{
    context.fonts().tex_id = imgui::TextureId::new(id);
}

/// The order of the four channel bytes of a pixel.
#[derive(Clone, Copy, Debug, PartialEq, Eq, Structural)]
pub enum PixelFormat {
    /// Alpha, blue, green, red, as the canvas expects them.
    Abgr8888,
}

/// The font atlas as a bitmap that is ready for upload.
#[derive(Clone, Debug, PartialEq, Eq)]
pub struct FontAtlasImage {
    /// In pixels.
    pub width: u32,
    /// In pixels.
    pub height: u32,
    /// The length of one row in bytes.
    pub pitch: u32,
    pub format: PixelFormat,
    /// `height` rows of `pitch` bytes.
    pub data: Vec<u8>,
}

/// Builds the font atlas of a GUI context as a bitmap of 32 bits per pixel,
/// and says how it is to be uploaded: rows of four bytes for each pixel, in
/// the byte order of the canvas. The bitmap is the one that the context builds.
///
/// The context must be one whose font atlas can be built: outside a frame,
/// and with nothing among its font sources that is not a font. The GUI layer
/// stops the process on any other.
pub fn font_atlas_image(imgui_context: &mut imgui::Context) -> (image: FontAtlasImage)
    requires
        font_atlas_builds(*old(imgui_context)),
    ensures
        font_atlas_builds(*final(imgui_context)),
        image@ == atlas_upload(
            built_font_atlas(*old(imgui_context)).0,
            built_font_atlas(*old(imgui_context)).1,
            built_font_atlas(*old(imgui_context)).2,
        ),
        image.pitch == image.width * 4,
        image.format == PixelFormat::Abgr8888,
        image.data@.len() == image.pitch * image.height,
{
    let (width, height, data) = build_font_texture(imgui_context);
    FontAtlasImage::from_rgba32(width, height, data)
}

/// Width, height and pixels of the bitmap that
/// `imgui::FontAtlas::build_rgba32_texture` gives for a context's font atlas.
pub uninterp spec fn built_font_atlas(context: imgui::Context) -> (u32, u32, Seq<u8>);

/// A bitmap for upload, as a sequence of bytes.
pub struct FontAtlasImageView {
    pub width: u32,
    pub height: u32,
    pub pitch: int,
    pub format: PixelFormat,
    pub data: Seq<u8>,
}

impl View for FontAtlasImage {
    type V = FontAtlasImageView;

    open spec fn view(&self) -> FontAtlasImageView {
        FontAtlasImageView {
            width: self.width,
            height: self.height,
            pitch: self.pitch as int,
            format: self.format,
            data: self.data@,
        }
    }
}

/// How a bitmap of 32 bits per pixel is uploaded: with its width, height and
/// pixels as they are, rows of four bytes for each pixel, and the channels in
/// the byte order of the canvas.
pub open spec fn atlas_upload(width: u32, height: u32, pixels: Seq<u8>) -> FontAtlasImageView {
    FontAtlasImageView {
        width,
        height,
        pitch: width * 4,
        format: PixelFormat::Abgr8888,
        data: pixels,
    }
}

impl FontAtlasImage {
    /// Describes the upload of a bitmap of 32 bits per pixel. The length of a
    /// row must fit the 32 bits that the canvas takes it in.
    pub fn from_rgba32(width: u32, height: u32, pixels: Vec<u8>) -> (image: FontAtlasImage)
        requires
            width * 4 <= u32::MAX,
        ensures
            image@ == atlas_upload(width, height, pixels@),
    {
        FontAtlasImage { width, height, pitch: width * 4, format: PixelFormat::Abgr8888, data: pixels }
    }
}

} // verus!
