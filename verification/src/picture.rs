//! Pictures on the clipboard: pixels on this machine, PNG on the wire.

use vstd::prelude::*;

verus! {

/// A picture of eight-bit red, green, blue and alpha values, row by row.
#[derive(Debug, PartialEq, Eq)]
pub struct Picture {
    pub width: u32,
    pub height: u32,
    pub rgba: Vec<u8>,
}

impl Picture {
    /// Four bytes for each pixel.
    pub open spec fn wf(self) -> bool {
        self.rgba@.len() == 4 * (self.width * self.height)
    }
}

/// What `image::codecs::png::PngEncoder` makes of these pixels.
pub uninterp spec fn png_encoded(width: u32, height: u32, rgba: Seq<u8>) -> Option<Seq<u8>>;

/// What `image::load_from_memory_with_format` reads from these bytes as PNG, in
/// eight-bit red, green, blue and alpha values.
pub uninterp spec fn png_decoded(bytes: Seq<u8>) -> Option<(u32, u32, Seq<u8>)>;

/// The picture with these pixels.
pub open spec fn pixels(p: Picture) -> (u32, u32, Seq<u8>) {
    (p.width, p.height, p.rgba@)
}

/// `image::codecs::png::PngEncoder::write_image` with eight-bit RGBA, named
/// `png_encoded`. PNG loses nothing: where a picture of up to 64 MiB of pixels
/// is encoded, decoding gives it back.
#[verifier::external_body]
fn png_bytes(p: &Picture) -> (r: Option<Vec<u8>>)
    requires
        p.wf(),
    ensures
        match r {
            Some(png) => {
                &&& png_encoded(p.width, p.height, p.rgba@) == Some(png@)
                &&& p.rgba@.len() <= 0x400_0000 ==> png_decoded(png@) == Some(pixels(*p))
            },
            None => png_encoded(p.width, p.height, p.rgba@) is None,
        },
{
    let mut out = Vec::new();
    let encoder = image::codecs::png::PngEncoder::new(&mut out);
    let color = image::ExtendedColorType::Rgba8;
    image::ImageEncoder::write_image(encoder, &p.rgba, p.width, p.height, color).ok()?;
    Some(out)
}

/// `image::load_from_memory_with_format` for PNG and `DynamicImage::to_rgba8`,
/// named `png_decoded`: four bytes for each pixel, or nothing.
#[verifier::external_body]
fn png_picture(bytes: &[u8]) -> (r: Option<Picture>)
    ensures
        match r {
            Some(p) => png_decoded(bytes@) == Some(pixels(p)) && p.wf(),
            None => png_decoded(bytes@) is None,
        },
{
    let img = image::load_from_memory_with_format(bytes, image::ImageFormat::Png).ok()?;
    let rgba = img.to_rgba8();
    let (width, height) = rgba.dimensions();
    Some(Picture { width, height, rgba: rgba.into_raw() })
}

/// The PNG form of a picture, for the wire; none where it cannot be encoded.
pub fn encode_png(p: &Picture) -> (r: Option<Vec<u8>>)
    requires
        p.wf(),
    ensures
        match r {
            Some(png) => {
                &&& png_encoded(p.width, p.height, p.rgba@) == Some(png@)
                &&& p.rgba@.len() <= 0x400_0000 ==> png_decoded(png@) == Some(pixels(*p))
            },
            None => png_encoded(p.width, p.height, p.rgba@) is None,
        },
{
    png_bytes(p)
}

/// The picture that PNG bytes from the wire show; none where they are no PNG.
pub fn decode_png(bytes: &[u8]) -> (r: Option<Picture>)
    ensures
        match r {
            Some(p) => png_decoded(bytes@) == Some(pixels(p)) && p.wf(),
            None => png_decoded(bytes@) is None,
        },
{
    png_picture(bytes)
}

} // verus!
