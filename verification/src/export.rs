//! The canvas as raw image bytes, and reference photos made from raw image
//! bytes.

use vstd::prelude::*;
use crate::app::App;
use crate::pixel::Pixel;
use crate::reference::ReferenceLayer;
use crate::setup::MAX_CANVAS_SIZE;
use crate::text::{decimal, push_decimal, push_str, str_chars};

use image::codecs::png::PngEncoder;
use image::error::ImageFormatHint;
use image::imageops::FilterType;
use image::{ExtendedColorType, ImageEncoder, ImageError, ImageFormat};

verus! {

/// Channel `k` (red, green, blue, alpha) of a colour.
pub open spec fn channel(p: Pixel, k: int) -> u8 {
    if k == 0 {
        p.r
    } else if k == 1 {
        p.g
    } else if k == 2 {
        p.b
    } else {
        p.a
    }
}

/// Pixels as RGBA bytes, four per pixel in order.
pub open spec fn rgba_bytes(pixels: Seq<Pixel>) -> Seq<u8> {
    Seq::new(4 * pixels.len(), |i: int| channel(pixels[i / 4], i % 4))
}

/// RGBA bytes as pixels, one per group of four.
pub open spec fn pixels_of(bytes: Seq<u8>) -> Seq<Pixel> {
    Seq::new(bytes.len() / 4, |i: int| Pixel { r: bytes[4 * i], g: bytes[4 * i + 1], b: bytes[4 * i + 2], a: bytes[4 * i + 3] })
}

/// Exported bytes read back as pixels give the canvas again.
pub proof fn exported_bytes_read_back(pixels: Seq<Pixel>)
    ensures
        pixels_of(rgba_bytes(pixels)) == pixels,
{
    let bytes = rgba_bytes(pixels);
    assert forall|i: int| 0 <= i < pixels.len() implies #[trigger] pixels_of(bytes)[i] == pixels[i] by {
        assert((4 * i) / 4 == i && (4 * i) % 4 == 0);
        assert((4 * i + 1) / 4 == i && (4 * i + 1) % 4 == 1);
        assert((4 * i + 2) / 4 == i && (4 * i + 2) % 4 == 2);
        assert((4 * i + 3) / 4 == i && (4 * i + 3) % 4 == 3);
    }
    assert(pixels_of(bytes) =~= pixels);
}

/// The image file `file`, decoded as the format its file extension `ext`
/// names and scaled to `w` by `h` with the image crate's triangle filter, as
/// RGBA bytes; `None` when the file does not decode as that format.
pub uninterp spec fn reference_rgba(file: Seq<u8>, ext: Seq<char>, w: u32, h: u32) -> Option<Seq<u8>>;

/// Decodes an image file held in memory as the format its extension names
/// (`image::ImageFormat::from_extension` and
/// `image::load_from_memory_with_format`, the steps `image::open` takes once
/// the file is read), scales it at its own colour depth with
/// `DynamicImage::resize_exact` and the triangle filter, and returns the
/// result's RGBA bytes.
///
/// Trusted: the outcome is named by `reference_rgba`, a function of the
/// arguments; the source shows that a scaled result holds `w * h` pixels of
/// four bytes. The error's message is the image crate's and is not stated;
/// nor is the decoders' and the filter's arithmetic. The crate panics when the
/// scaled image's byte count overflows `usize`, so that is excluded. Scaling
/// also allocates a buffer of the source width by the target height; its
/// length is not bounded here, since the source width is only known once the
/// file is decoded (the decoders' default limit of 512 MiB keeps it far from
/// overflowing a 64-bit `usize`).
#[verifier::external_body]
fn decode_and_resize(file: &Vec<u8>, ext: &str, w: u32, h: u32) -> (r: Result<Vec<u8>, String>)
    requires
        w >= 1,
        h >= 1,
        4 * w * h <= usize::MAX,
    ensures
        r is Ok <==> reference_rgba(file@, ext@, w, h) is Some,
        r matches Ok(b) ==> reference_rgba(file@, ext@, w, h) == Some(b@) && b@.len() == 4 * w * h,
{
    let decoded = match ImageFormat::from_extension(ext) {
        Some(format) => image::load_from_memory_with_format(file, format),
        None => Err(ImageError::Unsupported(ImageFormatHint::PathExtension(ext.into()).into())),
    };
    match decoded {
        Ok(picture) => Ok(picture.resize_exact(w, h, FilterType::Triangle).to_rgba8().into_raw()),
        Err(err) => Err(err.to_string()),
    }
}

/// The PNG file of an RGBA image of `w` by `h` pixels, as the image crate's
/// PNG encoder writes it with its default settings.
pub uninterp spec fn png_bytes(rgba: Seq<u8>, w: u32, h: u32) -> Seq<u8>;

/// Encodes an RGBA image as PNG with `image::codecs::png::PngEncoder` and its
/// default compression and filter, the encoder that saving to a `.png` path
/// uses.
///
/// Trusted: the result is named by `png_bytes`, a function of the arguments.
/// The encoder's source shows that it fails only on a zero width or height,
/// a buffer of the wrong length (a panic) or a failed write, which a `Vec`
/// never gives, so the result is `Ok`.
#[verifier::external_body]
fn encode_png(rgba: &Vec<u8>, w: u32, h: u32) -> (r: Result<Vec<u8>, String>)
    requires
        w >= 1,
        h >= 1,
        rgba@.len() == 4 * w * h,
    ensures
        r is Ok,
        r matches Ok(b) ==> b@ == png_bytes(rgba@, w, h),
{
    let mut out: Vec<u8> = Vec::new();
    match PngEncoder::new(&mut out).write_image(rgba, w, h, ExtendedColorType::Rgba8) {
        Ok(()) => Ok(out),
        Err(err) => Err(err.to_string()),
    }
}

/// A reference photo of `width` by `height` pixels from its RGBA bytes.
pub fn reference_from_rgba(name: String, width: usize, height: usize, bytes: &Vec<u8>) -> (layer: ReferenceLayer)
    requires
        bytes@.len() == 4 * width * height,
    ensures
        layer.wf(),
        layer.name == name,
        layer.width == width,
        layer.height == height,
        layer.pixels@ == pixels_of(bytes@),
{
    let len = bytes.len();
    let n = len / 4;
    let mut pixels: Vec<Pixel> = Vec::new();
    let mut i: usize = 0;
    while i < n
        invariant
            n == bytes@.len() / 4,
            bytes@.len() == 4 * width * height,
            bytes@.len() <= usize::MAX,
            0 <= i <= n,
            pixels@ == pixels_of(bytes@).take(i as int),
        decreases n - i,
    {
        let p = Pixel::rgba(bytes[4 * i], bytes[4 * i + 1], bytes[4 * i + 2], bytes[4 * i + 3]);
        pixels.push(p);
        proof {
            assert(pixels_of(bytes@).take(i as int + 1) =~= pixels_of(bytes@).take(i as int).push(p));
        }
        i = i + 1;
    }
    proof {
        assert(pixels_of(bytes@).take(n as int) =~= pixels_of(bytes@));
        assert(n == width * height) by (nonlinear_arith)
            requires
                n == bytes@.len() / 4,
                bytes@.len() == 4 * width * height;
    }
    ReferenceLayer { name, width, height, pixels }
}

/// How saving the canvas or importing a reference photo ended.
#[derive(Clone, Copy, Debug, PartialEq, Eq, Structural)]
pub enum FileOutcome {
    Saved,
    ExportFailed,
    ImportCancelled,
    ImportFailed,
}

/// The status line after `outcome`, with `detail` the saved file's path or
/// the error's message.
pub open spec fn file_message(outcome: FileOutcome, detail: Seq<char>) -> Seq<char> {
    match outcome {
        FileOutcome::Saved => "Saved "@ + detail,
        FileOutcome::ExportFailed => "Export failed: "@ + detail,
        FileOutcome::ImportCancelled => "Reference import cancelled"@,
        FileOutcome::ImportFailed => "Reference failed: "@ + detail,
    }
}

/// The name of a reference photo: its file name, or a stand-in when it has
/// none.
pub open spec fn reference_name(file_name: Option<String>) -> Seq<char> {
    match file_name {
        Some(n) => n@,
        None => "reference image"@,
    }
}

/// A reference photo for a `canvas_width` by `canvas_height` canvas from an
/// image file's bytes and extension: the photo decoded and scaled to the
/// canvas, named after its file (or a stand-in when the name is unknown).
/// `Err` holds the image crate's message when the file does not decode.
pub fn load_reference_layer(
    file_name: Option<String>,
    ext: &str,
    file: &Vec<u8>,
    canvas_width: usize,
    canvas_height: usize,
) -> (r: Result<ReferenceLayer, String>)
    requires
        1 <= canvas_width <= u32::MAX,
        1 <= canvas_height <= u32::MAX,
        4 * canvas_width * canvas_height <= usize::MAX,
    ensures
        r is Ok <==> reference_rgba(file@, ext@, canvas_width as u32, canvas_height as u32) is Some,
        r matches Ok(layer) ==> {
            &&& layer.wf()
            &&& layer.name@ == reference_name(file_name)
            &&& layer.width == canvas_width
            &&& layer.height == canvas_height
            &&& reference_rgba(file@, ext@, canvas_width as u32, canvas_height as u32) matches Some(b)
            &&& layer.pixels@ == pixels_of(b)
        },
{
    let scaled = match decode_and_resize(file, ext, canvas_width as u32, canvas_height as u32) {
        Ok(bytes) => bytes,
        Err(message) => {
            return Err(message);
        },
    };
    let name = match file_name {
        Some(n) => n,
        None => String::from_str("reference image"),
    };
    Ok(reference_from_rgba(name, canvas_width, canvas_height, &scaled))
}

/// Where an export made at `timestamp` (seconds since the Unix epoch) is
/// saved.
pub fn export_path(timestamp: u64) -> (path: Vec<char>)
    ensures
        path@ == "exports/pixel-art-"@ + decimal(timestamp as nat) + ".png"@,
{
    let mut path = str_chars("exports/pixel-art-");
    push_decimal(&mut path, timestamp);
    push_str(&mut path, ".png");
    path
}

impl App {
    /// The canvas as RGBA bytes, row by row.
    pub fn export_rgba(&self) -> (bytes: Vec<u8>)
        requires
            self.wf(),
        ensures
            bytes@ == rgba_bytes(self.pixels@),
    {
        let mut bytes: Vec<u8> = Vec::new();
        let mut i: usize = 0;
        proof {
            assert(self.width * self.height <= MAX_CANVAS_SIZE * MAX_CANVAS_SIZE) by (nonlinear_arith)
                requires
                    self.width <= MAX_CANVAS_SIZE,
                    self.height <= MAX_CANVAS_SIZE;
        }
        while i < self.pixels.len()
            invariant
                0 <= i <= self.pixels@.len(),
                self.pixels@.len() <= MAX_CANVAS_SIZE * MAX_CANVAS_SIZE,
                bytes@ == rgba_bytes(self.pixels@).take(4 * i),
            decreases self.pixels@.len() - i,
        {
            let p = self.pixels[i];
            bytes.push(p.r);
            bytes.push(p.g);
            bytes.push(p.b);
            bytes.push(p.a);
            proof {
                assert(rgba_bytes(self.pixels@).take(4 * (i + 1)) =~= rgba_bytes(self.pixels@).take(4 * i).push(p.r).push(
                    p.g,
                ).push(p.b).push(p.a));
            }
            i = i + 1;
        }
        proof {
            assert(rgba_bytes(self.pixels@).take(4 * i) =~= rgba_bytes(self.pixels@));
        }
        bytes
    }

    /// The canvas as a PNG file.
    pub fn export_png_bytes(&self) -> (png: Vec<u8>)
        requires
            self.wf(),
        ensures
            png@ == png_bytes(rgba_bytes(self.pixels@), self.width as u32, self.height as u32),
    {
        let rgba = self.export_rgba();
        let w = self.width as u32;
        let h = self.height as u32;
        proof {
            assert(rgba@.len() == 4 * w * h) by (nonlinear_arith)
                requires
                    rgba@.len() == 4 * self.pixels@.len(),
                    self.pixels@.len() == self.width * self.height,
                    w == self.width,
                    h == self.height;
        }
        match encode_png(&rgba, w, h) {
            Ok(png) => png,
            Err(_) => {
                proof {
                    assert(false);
                }
                Vec::new()
            },
        }
    }

    /// Shows `layer` under the canvas and announces it.
    pub fn attach_reference(&mut self, layer: ReferenceLayer)
        requires
            old(self).wf(),
            layer.wf(),
            layer.width == old(self).width,
            layer.height == old(self).height,
        ensures
            final(self).wf(),
            final(self).status@ == "Reference loaded: "@ + layer.name@,
            *final(self) == (App {
                reference: Some(layer),
                status: final(self).status,
                status_hold_ms: Some(crate::app::STATUS_HOLD_MS),
                ..*old(self)
            }),
    {
        let mut message = str_chars("Reference loaded: ");
        push_str(&mut message, layer.name.as_str());
        self.reference = Some(layer);
        self.flash_chars(message);
    }

    /// Reports how saving the canvas or importing a reference photo ended;
    /// `detail` is the saved file's path or the error's message.
    pub fn report_file_outcome(&mut self, outcome: FileOutcome, detail: &str)
        ensures
            final(self).status@ == file_message(outcome, detail@),
            *final(self) == (App {
                status: final(self).status,
                status_hold_ms: Some(crate::app::STATUS_HOLD_MS),
                ..*old(self)
            }),
    {
        let message = match outcome {
            FileOutcome::Saved => {
                let mut m = str_chars("Saved ");
                push_str(&mut m, detail);
                m
            },
            FileOutcome::ExportFailed => {
                let mut m = str_chars("Export failed: ");
                push_str(&mut m, detail);
                m
            },
            FileOutcome::ImportCancelled => str_chars("Reference import cancelled"),
            FileOutcome::ImportFailed => {
                let mut m = str_chars("Reference failed: ");
                push_str(&mut m, detail);
                m
            },
        };
        self.flash_chars(message);
    }

    /// Reports the reference photo's new opacity, in percent.
    pub fn report_reference_opacity(&mut self, percent: usize)
        ensures
            final(self).status@ == "Reference opacity "@ + decimal(percent as nat) + "%"@,
            *final(self) == (App {
                status: final(self).status,
                status_hold_ms: Some(crate::app::STATUS_HOLD_MS),
                ..*old(self)
            }),
    {
        let mut message = str_chars("Reference opacity ");
        push_decimal(&mut message, percent as u64);
        push_str(&mut message, "%");
        self.flash_chars(message);
    }
}

} // verus!
