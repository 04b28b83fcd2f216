use vstd::prelude::*;
use crate::types::{Image, Vec2i, rgba_fits, rgba_pixels};

verus! {

/// PNG's code for colour type RGBA.
pub const PNG_COLOR_RGBA: u8 = 6;

/// An 8-bit sample depth, as PNG codes it.
pub const PNG_DEPTH_EIGHT: u8 = 8;

/// The first frame of a PNG file as png's decoder yields it: width, height,
/// colour type code, bit depth and pixel bytes; nothing when it does not decode.
pub uninterp spec fn png_frame(bytes: Seq<u8>) -> Option<(u32, u32, u8, u8, Seq<u8>)>;

/// Relies on png::Decoder::read_info, png::Reader::output_buffer_size and
/// png::Reader::next_frame: decodes the first frame of a PNG file held in memory.
#[verifier::external_body]
fn decode_png(bytes: &[u8]) -> (r: Option<(u32, u32, u8, u8, Vec<u8>)>)
    ensures
        r matches Some(d) ==> png_frame(bytes@) == Some((d.0, d.1, d.2, d.3, d.4@)),
        r is None ==> png_frame(bytes@) is None,
{
    let mut reader = match png::Decoder::new(bytes).read_info() {
        Ok(reader) => reader,
        Err(_) => return None,
    };
    let mut buf = vec![0; reader.output_buffer_size()];
    let info = match reader.next_frame(&mut buf) {
        Ok(info) => info,
        Err(_) => return None,
    };
    Some((info.width, info.height, info.color_type as u8, info.bit_depth as u8, buf))
}

impl Image {
    /// A sprite sheet from the bytes of an 8-bit RGBA PNG file, with alpha
    /// multiplied in; `None` when the file does not decode, is of another
    /// colour type or depth, or its pixel bytes do not match its size.
    pub fn from_png(bytes: &[u8]) -> (r: Option<Image>)
        ensures
            match png_frame(bytes@) {
                Some(d) => if d.2 == PNG_COLOR_RGBA && d.3 == PNG_DEPTH_EIGHT && rgba_fits(d.0, d.1, d.4) {
                    (r matches Some(img) && img.wf() && img.sz == (Vec2i { x: d.0 as i32, y: d.1 as i32 })
                        && img.buffer@ == rgba_pixels(d.4))
                } else {
                    r is None
                },
                None => r is None,
            },
    {
        match decode_png(bytes) {
            Some((w, h, color, depth, data)) => {
                if color == PNG_COLOR_RGBA && depth == PNG_DEPTH_EIGHT {
                    Image::from_rgba(w, h, &data)
                } else {
                    None
                }
            },
            None => None,
        }
    }
}

} // verus!
