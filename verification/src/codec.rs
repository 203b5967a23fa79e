//! PNG persistence through the external image codec.
//!
//! The core owns the exact conversion between its 8-bit pixels and the
//! 16-bit-per-channel RGBA sample form the codec works on (`257 * v`, so
//! 0 maps to 0 and 255 to 65535, and the conversion round-trips). The PNG
//! byte stream itself is produced and parsed by the `image` crate behind
//! two trusted wrappers; callers do their own file reading and writing and
//! hand byte buffers in and out.

use vstd::prelude::*;

use crate::color::SKIDColor;
use crate::image::SKIDImage;

verus! {

/// The 16-bit sample of a byte channel: `257 * v`, so white stays white.
pub open spec fn chan16(v: u8) -> u16 {
    (257 * v) as u16
}

/// The byte channel recovered from a 16-bit sample.
pub open spec fn chan8(v: u16) -> u8 {
    (v / 257) as u8
}

/// One channel of a color, selected by index r, g, b, a.
pub open spec fn chan_of(c: SKIDColor, ch: int) -> u8 {
    if ch == 0 {
        c.r
    } else if ch == 1 {
        c.g
    } else if ch == 2 {
        c.b
    } else {
        c.a
    }
}

/// The RGBA16 sample sequence of an image: four 16-bit samples per pixel,
/// row-major.
pub open spec fn rgba16_values(img: SKIDImage) -> Seq<u16> {
    Seq::new(
        (4 * img.spec_width() * img.spec_height()) as nat,
        |i: int| chan16(chan_of(img.pixels()[i / 4], i % 4)),
    )
}

/// The color built back from one RGBA16 sample quadruple.
pub open spec fn color_from_rgba16(r: u16, g: u16, b: u16, a: u16) -> SKIDColor {
    SKIDColor { r: chan8(r), g: chan8(g), b: chan8(b), a: chan8(a) }
}

/// The PNG byte stream the codec produces from an RGBA16 sample sequence
/// of the given extent.
pub uninterp spec fn png_encoded_rgba16(samples: Seq<u16>, w: int, h: int) -> Seq<u8>;

/// What the codec recovers from a PNG byte stream: the extent and the
/// RGBA16 samples, or nothing when the bytes do not decode.
pub uninterp spec fn png_decoded_rgba16(bytes: Seq<u8>) -> Option<(u32, u32, Seq<u16>)>;

/// Relies on `image::codecs::png::PngEncoder::write_image`: encoding a
/// correctly sized RGBA16 sample buffer of nonzero extent into an
/// in-memory writer succeeds, and its output depends on the samples and
/// the extent alone.
#[verifier::external_body]
fn png_encode_rgba16(samples: &Vec<u16>, width: u32, height: u32) -> (r: Vec<u8>)
    requires
        1 <= width,
        1 <= height,
        samples@.len() == 4 * width * height,
    ensures
        r@ == png_encoded_rgba16(samples@, width as int, height as int),
{
    let bytes: Vec<u8> = samples.iter().flat_map(|v| v.to_ne_bytes()).collect();
    let mut out: Vec<u8> = Vec::new();
    let encoder = image::codecs::png::PngEncoder::new(&mut out);
    image::ImageEncoder::write_image(
        encoder,
        &bytes,
        width,
        height,
        image::ExtendedColorType::Rgba16,
    ).expect("in-memory PNG encoding of a well-sized RGBA16 buffer does not fail");
    out
}

/// Relies on `image::load_from_memory_with_format` and
/// `image::DynamicImage::into_rgba16`: a successful decode yields the
/// image's extent and its RGBA16 samples, four per pixel, and depends on
/// the bytes alone; bytes that do not decode are reported with the
/// decoder's message.
#[verifier::external_body]
fn png_decode_rgba16(bytes: &Vec<u8>) -> (r: Result<(u32, u32, Vec<u16>), String>)
    ensures
        (match r {
            Ok(t) => png_decoded_rgba16(bytes@) == Some((t.0, t.1, t.2@)) && t.2@.len() == 4 * t.0
                * t.1,
            Err(_) => png_decoded_rgba16(bytes@) is None,
        }),
{
    match image::load_from_memory_with_format(bytes.as_slice(), image::ImageFormat::Png) {
        Ok(img) => {
            let rgba = img.into_rgba16();
            let (w, h) = rgba.dimensions();
            Ok((w, h, rgba.into_raw()))
        },
        Err(e) => Err(e.to_string()),
    }
}

/// Converts an image to its RGBA16 sample sequence.
pub fn image_to_rgba16(img: &SKIDImage) -> (samples: Vec<u16>)
    requires
        img.wf(),
        4 * img.spec_width() * img.spec_height() <= usize::MAX,
    ensures
        samples@ == rgba16_values(*img),
{
    let n = img.len();
    proof {
        assert(4 * img.spec_width() * img.spec_height() == 4 * img.pixels().len())
            by (nonlinear_arith)
            requires
                img.pixels().len() == img.spec_width() * img.spec_height(),
        ;
    }
    let mut samples: Vec<u16> = Vec::new();
    let mut i: usize = 0;
    while i < n
        invariant
            img.wf(),
            n == img.pixels().len(),
            4 * img.spec_width() * img.spec_height() == 4 * n,
            i <= n,
            samples@.len() == 4 * i,
            forall|k: int| 0 <= k < 4 * i ==> samples@[k] == rgba16_values(*img)[k],
        decreases n - i,
    {
        let c = img.pixel_flat(i);
        let ghost pre = samples@;
        samples.push(257 * (c.r as u16));
        samples.push(257 * (c.g as u16));
        samples.push(257 * (c.b as u16));
        samples.push(257 * (c.a as u16));
        proof {
            assert forall|k: int|
                0 <= k < 4 * (i + 1) implies samples@[k] == rgba16_values(*img)[k] by {
                if k < 4 * i {
                    assert(samples@[k] == pre[k]);
                } else {
                    assert(k / 4 == i && (k % 4 == 0 || k % 4 == 1 || k % 4 == 2 || k % 4 == 3));
                }
            }
        }
        i = i + 1;
    }
    proof {
        assert(samples@ =~= rgba16_values(*img));
    }
    samples
}

/// Encodes an image as a PNG byte stream in RGBA16 form. The caller
/// writes the bytes wherever it wants them.
pub fn encode_image_to_png(img: &SKIDImage) -> (r: Vec<u8>)
    requires
        img.wf(),
        1 <= img.spec_width() <= 0xFFFF_FFFF,
        1 <= img.spec_height() <= 0xFFFF_FFFF,
        4 * img.spec_width() * img.spec_height() <= usize::MAX,
    ensures
        r@ == png_encoded_rgba16(
            rgba16_values(*img),
            img.spec_width() as int,
            img.spec_height() as int,
        ),
{
    let samples = image_to_rgba16(img);
    let w32: u32 = img.width() as u32;
    let h32: u32 = img.height() as u32;
    png_encode_rgba16(&samples, w32, h32)
}

/// Decodes a PNG byte stream into an image, mapping each 16-bit sample
/// back to a byte channel; reports bytes that do not decode.
pub fn decode_image_from_png(bytes: &Vec<u8>) -> (r: Result<SKIDImage, String>)
    ensures
        r is Ok <==> png_decoded_rgba16(bytes@) is Some,
        (match r {
            Ok(img) => (match png_decoded_rgba16(bytes@) {
                Some(t) => img.wf() && img.spec_width() == t.0 && img.spec_height() == t.1 && (
                forall|k: int|
                    0 <= k < t.0 * t.1 ==> img.pixels()[k] == color_from_rgba16(
                        t.2[4 * k],
                        t.2[4 * k + 1],
                        t.2[4 * k + 2],
                        t.2[4 * k + 3],
                    )),
                None => false,
            }),
            Err(_) => true,
        }),
{
    let decoded = png_decode_rgba16(bytes);
    match decoded {
        Ok((w, h, vals)) => {
            let total: usize = vals.len();
            let n: usize = total / 4;
            proof {
                assert(total == 4 * ((w as int) * (h as int))) by (nonlinear_arith)
                    requires
                        total == 4 * (w as int) * (h as int),
                ;
                assert(n == (w as int) * (h as int));
            }
            let mut data: Vec<SKIDColor> = Vec::new();
            let mut i: usize = 0;
            while i < n
                invariant
                    vals@.len() == 4 * n,
                    total == 4 * n,
                    i <= n,
                    data@.len() == i,
                    forall|k: int|
                        0 <= k < i ==> data@[k] == color_from_rgba16(
                            vals@[4 * k],
                            vals@[4 * k + 1],
                            vals@[4 * k + 2],
                            vals@[4 * k + 3],
                        ),
                decreases n - i,
            {
                let r8: u8 = (vals[4 * i] / 257) as u8;
                let g8: u8 = (vals[4 * i + 1] / 257) as u8;
                let b8: u8 = (vals[4 * i + 2] / 257) as u8;
                let a8: u8 = (vals[4 * i + 3] / 257) as u8;
                data.push(SKIDColor { r: r8, g: g8, b: b8, a: a8 });
                i = i + 1;
            }
            let img = SKIDImage::from_data(w as usize, h as usize, data);
            Ok(img)
        },
        Err(e) => Err(e),
    }
}

/// Extracts one channel plane of an image: the bytes of channel `ch`
/// (r, g, b, a in order), row-major, one byte per pixel.
pub fn channel_plane(img: &SKIDImage, ch: u8) -> (plane: Vec<u8>)
    requires
        img.wf(),
        ch < 4,
    ensures
        plane@.len() == img.pixels().len(),
        forall|k: int|
            0 <= k < img.pixels().len() ==> plane@[k] == chan_of(img.pixels()[k], ch as int),
    {
    let n = img.len();
    let mut plane: Vec<u8> = Vec::new();
    let mut i: usize = 0;
    while i < n
        invariant
            img.wf(),
            ch < 4,
            n == img.pixels().len(),
            i <= n,
            plane@.len() == i,
            forall|k: int| 0 <= k < i ==> plane@[k] == chan_of(img.pixels()[k], ch as int),
        decreases n - i,
    {
        let c = img.pixel_flat(i);
        let v: u8 = if ch == 0 {
            c.r
        } else if ch == 1 {
            c.g
        } else if ch == 2 {
            c.b
        } else {
            c.a
        };
        plane.push(v);
        i = i + 1;
    }
    plane
}

/// The sample conversion round-trips: a byte channel sent to 16 bits and
/// back is unchanged.
pub proof fn lemma_chan16_roundtrip(v: u8)
    ensures
        chan8(chan16(v)) == v,
{
    assert(257 * v / 257 == v) by (nonlinear_arith);
}

} // verus!
