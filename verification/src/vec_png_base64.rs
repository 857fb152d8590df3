//! RGBA pixels as a PNG image in a `data:` URL, which a page can draw.
//!
//! The PNG encoding is done by the `png` crate and the base64 encoding by
//! `rustc_serialize`, whose MIME flavor breaks lines with `\r\n`; the library
//! takes those line breaks out and puts the `data:` prefix in front.

use vstd::prelude::*;

use rustc_serialize::base64::ToBase64;

verus! {

/// The PNG image (8 bits per channel, RGBA, no interlacing, default
/// compression and filter) that the `png` crate writes for a picture of
/// `width` by `height` pixels, given row by row, 4 bytes per pixel.
pub uninterp spec fn png_rgba8(width: u32, height: u32, pixels: Seq<u8>) -> Seq<u8>;

/// The base64 text that `rustc_serialize` writes for `bytes` with its `MIME`
/// configuration.
pub uninterp spec fn mime_base64(bytes: Seq<u8>) -> Seq<char>;

#[verifier::external_type_specification]
#[verifier::external_body]
pub struct ExPngEncodingError(png::EncodingError);

/// Encodes the pixels with `png::Encoder` (RGBA, 8 bits) into memory, through
/// `Encoder::new`, `set_color`, `set_depth`, `write_header` and
/// `Writer::write_image_data`; dropping the writer writes the closing chunk.
/// Claimed: the encoder fails exactly when the width or the height is zero
/// (`write_header`) or when the pixel data does not have `4 * width * height`
/// bytes (`write_image_data`); writing into a `Vec` never fails; the bytes are
/// `png_rgba8` of the arguments. The `requires` keeps the crate's `usize`
/// products `32 * width` and `4 * width * height` from overflowing.
#[verifier::external_body]
fn png_encode_rgba8(width: u32, height: u32, pixels: &[u8]) -> (encoded: Result<
    Vec<u8>,
    png::EncodingError,
>)
    requires
        32 * width <= usize::MAX,
        4 * width * height <= usize::MAX,
    ensures
        encoded is Ok <==> (width > 0 && height > 0 && pixels@.len() == 4 * width * height),
        encoded matches Ok(bytes) ==> bytes@ == png_rgba8(width, height, pixels@),
{
    let mut out: Vec<u8> = Vec::new();
    let mut encoder = png::Encoder::new(&mut out, width, height);
    encoder.set_color(png::ColorType::RGBA);
    encoder.set_depth(png::BitDepth::Eight);
    let mut writer = encoder.write_header()?;
    writer.write_image_data(pixels)?;
    drop(writer);
    Ok(out)
}

/// Calls `<[u8] as rustc_serialize::base64::ToBase64>::to_base64` with the
/// `MIME` configuration. Claimed: the text is `mime_base64` of the bytes. The
/// `requires` keeps the crate's length arithmetic and its preallocation
/// within `usize` and `isize`.
#[verifier::external_body]
fn to_mime_base64(bytes: &[u8]) -> (text: String)
    requires
        bytes@.len() <= usize::MAX / 4,
    ensures
        text@ == mime_base64(bytes@),
{
    bytes.to_base64(rustc_serialize::base64::MIME)
}

/// Why the pixels could not be encoded.
pub enum PngError {
    ZeroWidth,
    ZeroHeight,
    /// The pixel data does not have 4 bytes for each pixel.
    WrongDataSize { expected: usize, got: usize },
}

/// Encodes `width` by `height` RGBA pixels (4 bytes each, row by row) as a PNG
/// image.
pub fn encode_png(width: u32, height: u32, pixels: &Vec<u8>) -> (encoded: Result<Vec<u8>, PngError>)
    requires
        32 * width <= usize::MAX,
        4 * width * height <= usize::MAX,
    ensures
        match encoded {
            Ok(bytes) => width > 0 && height > 0 && pixels@.len() == 4 * width * height
                && bytes@ == png_rgba8(width, height, pixels@),
            Err(PngError::ZeroWidth) => width == 0,
            Err(PngError::ZeroHeight) => width > 0 && height == 0,
            Err(PngError::WrongDataSize { expected, got }) => width > 0 && height > 0
                && expected == 4 * width * height && got == pixels@.len() && got != expected,
        },
{
    match png_encode_rgba8(width, height, pixels.as_slice()) {
        Ok(bytes) => Ok(bytes),
        Err(_) => {
            if width == 0 {
                Err(PngError::ZeroWidth)
            } else if height == 0 {
                Err(PngError::ZeroHeight)
            } else {
                let expected: usize = 4 * (width as usize) * (height as usize);
                Err(PngError::WrongDataSize { expected, got: pixels.len() })
            }
        },
    }
}

/// The text with every `\r\n` taken out, scanning from the left (what
/// `str::replace("\r\n", "")` gives).
pub open spec fn without_crlf(s: Seq<char>) -> Seq<char>
    decreases s.len(),
{
    if s.len() == 0 {
        s
    } else if s.len() >= 2 && s[0] == '\r' && s[1] == '\n' {
        without_crlf(s.skip(2))
    } else {
        seq![s[0]] + without_crlf(s.skip(1))
    }
}

/// The `data:` URL of a PNG image whose base64 text is `base64`.
pub open spec fn png_data_url(base64: Seq<char>) -> Seq<char> {
    "data:image/png;base64,"@ + base64
}

/// What is left to write of `rest` once a `\r` has been held back, or not.
spec fn rest_without_crlf(rest: Seq<char>, held_cr: bool) -> Seq<char> {
    if held_cr {
        without_crlf(seq!['\r'] + rest)
    } else {
        without_crlf(rest)
    }
}

/// Takes every `\r\n` out of `s`.
pub fn remove_crlf(s: &str) -> (out: String)
    ensures
        out@ == without_crlf(s@),
{
    let mut out = String::new();
    let mut pending_cr = false;
    proof {
        assert(s@.skip(0) =~= s@);
        assert(without_crlf(s@) =~= out@ + rest_without_crlf(s@.skip(0), pending_cr));
    }
    for c in it: s.chars()
        invariant
            it.seq() == s@,
            without_crlf(s@) == out@ + rest_without_crlf(s@.skip(it.index()), pending_cr),
    {
        let ghost rest = s@.skip(it.index());
        let ghost after = s@.skip(it.index() + 1);
        proof {
            assert(rest =~= seq![c] + after);
            assert((seq!['\r'] + rest).skip(1) =~= rest);
            assert((seq!['\r'] + rest).skip(2) =~= after);
            assert(rest.skip(1) =~= after);
        }
        if pending_cr {
            if c == '\n' {
                pending_cr = false;
                proof {
                    assert(rest_without_crlf(rest, true) == without_crlf(after));
                }
            } else if c == '\r' {
                out.push('\r');
                proof {
                    assert(rest_without_crlf(rest, true) == seq!['\r'] + without_crlf(rest));
                    assert(rest =~= seq!['\r'] + after);
                }
            } else {
                out.push('\r');
                out.push(c);
                pending_cr = false;
                proof {
                    assert(rest_without_crlf(rest, true) == seq!['\r'] + without_crlf(rest));
                    assert(without_crlf(rest) == seq![c] + without_crlf(after));
                }
            }
        } else if c == '\r' {
            pending_cr = true;
            proof {
                assert(rest =~= seq!['\r'] + after);
            }
        } else {
            out.push(c);
            proof {
                assert(without_crlf(rest) == seq![c] + without_crlf(after));
            }
        }
        proof {
            assert(without_crlf(s@) =~= out@ + rest_without_crlf(after, pending_cr));
        }
    }
    proof {
        // Nothing is left of `s`; a held-back `\r` is all that remains to write.
        let lone = seq!['\r'] + Seq::<char>::empty();
        assert(s@.skip(s@.len() as int) =~= Seq::<char>::empty());
        assert(lone.skip(1) =~= Seq::<char>::empty());
        assert(without_crlf(lone.skip(1)) =~= Seq::<char>::empty());
        assert(without_crlf(lone) =~= seq!['\r']);
    }
    if pending_cr {
        out.push('\r');
    }
    proof {
        assert(out@ =~= without_crlf(s@));
    }
    out
}

/// The `data:` URL of the PNG image whose MIME base64 text is `mime`: the
/// line breaks are taken out and the `data:image/png;base64,` prefix is put in
/// front.
pub fn data_url_from_mime_base64(mime: &str) -> (url: String)
    ensures
        url@ == png_data_url(without_crlf(mime@)),
{
    let mut url = String::from_str("data:image/png;base64,");
    let body = remove_crlf(mime);
    url.append(body.as_str());
    url
}

/// The `data:` URL of the PNG file `png`.
pub fn png_bytes_to_data_url(png: &Vec<u8>) -> (url: String)
    requires
        png@.len() <= usize::MAX / 4,
    ensures
        url@ == png_data_url(without_crlf(mime_base64(png@))),
{
    let mime = to_mime_base64(png.as_slice());
    data_url_from_mime_base64(mime.as_str())
}

/// The `data:` URL of the PNG image of `width` by `height` RGBA pixels, given
/// row by row, 4 bytes per pixel. When the PNG file is too long for its base64
/// text to be held in memory (over a quarter of the address space), the text
/// is empty.
pub fn png_to_base64(width: u32, height: u32, array: &Vec<u8>) -> (url: String)
    requires
        width > 0,
        height > 0,
        array@.len() == 4 * width * height,
        32 * width <= usize::MAX,
    ensures
        png_rgba8(width, height, array@).len() <= usize::MAX / 4 ==> url@ == png_data_url(
            without_crlf(mime_base64(png_rgba8(width, height, array@))),
        ),
        png_rgba8(width, height, array@).len() > usize::MAX / 4 ==> url@ == Seq::<char>::empty(),
{
    let pixel_bytes: usize = array.len();
    assert(4 * width * height == pixel_bytes);
    match encode_png(width, height, array) {
        Ok(png) => {
            if png.len() <= usize::MAX / 4 {
                png_bytes_to_data_url(&png)
            } else {
                String::new()
            }
        },
        Err(_) => String::new(),
    }
}

/// A text without `\r` loses nothing; and a line without `\r` followed by
/// `\r\n` keeps the line and loses the line break, so every `\r\n` that ends a
/// line of MIME base64 is taken out and nothing else is.
pub proof fn lemma_without_crlf_lines(line: Seq<char>, rest: Seq<char>)
    requires
        forall|i: int| 0 <= i < line.len() ==> #[trigger] line[i] != '\r',
    ensures
        without_crlf(line) == line,
        without_crlf(line + seq!['\r', '\n'] + rest) == line + without_crlf(rest),
    decreases line.len(),
{
    if line.len() == 0 {
        let s = line + seq!['\r', '\n'] + rest;
        assert(s.skip(2) =~= rest);
    } else {
        let tail = line.skip(1);
        assert forall|i: int| 0 <= i < tail.len() implies #[trigger] tail[i] != '\r' by {
            assert(tail[i] == line[i + 1]);
        }
        lemma_without_crlf_lines(tail, rest);
        let s = line + seq!['\r', '\n'] + rest;
        assert(s.skip(1) =~= tail + seq!['\r', '\n'] + rest);
        assert(line =~= seq![line[0]] + tail);
    }
}

} // verus!
