//! Encodings of screen captures: PNG for the image itself and Base64 for the
//! PNG bytes that the agent hands back as text.

use vstd::prelude::*;

use crate::error::Error;
use crate::text::{digits_of, joined};
#[allow(unused_imports)]
use base64::Engine;

verus! {

// ---------------------------------------------------------------------------
// Base64
// ---------------------------------------------------------------------------

/// The symbol of a 6-bit value in the standard Base64 alphabet (RFC 4648):
/// `A`-`Z`, `a`-`z`, `0`-`9`, `+`, `/`.
pub open spec fn base64_symbol(v: int) -> char {
    if v < 26 {
        (65 + v) as char
    } else if v < 52 {
        (97 + (v - 26)) as char
    } else if v < 62 {
        (48 + (v - 52)) as char
    } else if v == 62 {
        '+'
    } else {
        '/'
    }
}

/// Standard Base64 with `=` padding: each group of three bytes becomes four
/// symbols of six bits each; a final group of one or two bytes is padded.
pub open spec fn base64_encode(s: Seq<u8>) -> Seq<char>
    decreases s.len(),
{
    if s.len() == 0 {
        Seq::empty()
    } else {
        let b0 = s[0] as int;
        let b1 = if s.len() > 1 { s[1] as int } else { 0 };
        let b2 = if s.len() > 2 { s[2] as int } else { 0 };
        let c0 = base64_symbol(b0 / 4);
        let c1 = base64_symbol((b0 % 4) * 16 + b1 / 16);
        let c2 = base64_symbol((b1 % 16) * 4 + b2 / 64);
        let c3 = base64_symbol(b2 % 64);
        if s.len() == 1 {
            seq![c0, c1, '=', '=']
        } else if s.len() == 2 {
            seq![c0, c1, c2, '=']
        } else {
            seq![c0, c1, c2, c3] + base64_encode(s.skip(3))
        }
    }
}

/// Base64 text is four symbols for every started group of three bytes.
pub proof fn lemma_base64_len(s: Seq<u8>)
    ensures
        base64_encode(s).len() == 4 * ((s.len() + 2) / 3),
    decreases s.len(),
{
    if s.len() > 2 {
        lemma_base64_len(s.skip(3));
    }
}

/// The 6-bit value of a symbol of the standard Base64 alphabet.
pub open spec fn base64_value(c: char) -> int {
    let n = c as int;
    if 65 <= n <= 90 {
        n - 65
    } else if 97 <= n <= 122 {
        n - 97 + 26
    } else if 48 <= n <= 57 {
        n - 48 + 52
    } else if c == '+' {
        62
    } else {
        63
    }
}

/// Standard Base64 decoding of padded text: each group of four symbols gives
/// three bytes, or one or two when the group ends in `==` or `=`.
pub open spec fn base64_decode(t: Seq<char>) -> Seq<u8>
    decreases t.len(),
{
    if t.len() < 4 {
        Seq::empty()
    } else {
        let v0 = base64_value(t[0]);
        let v1 = base64_value(t[1]);
        let v2 = base64_value(t[2]);
        let v3 = base64_value(t[3]);
        let d0 = (v0 * 4 + v1 / 16) as u8;
        let d1 = ((v1 % 16) * 16 + v2 / 4) as u8;
        let d2 = ((v2 % 4) * 64 + v3) as u8;
        if t[2] == '=' {
            seq![d0]
        } else if t[3] == '=' {
            seq![d0, d1]
        } else {
            seq![d0, d1, d2] + base64_decode(t.skip(4))
        }
    }
}

/// Each value below 64 has a symbol, which is not the padding `=`, and the
/// symbol gives the value back.
pub proof fn lemma_base64_symbol_value(v: int)
    requires
        0 <= v < 64,
    ensures
        base64_value(base64_symbol(v)) == v,
        base64_symbol(v) != '=',
{
}

/// Decoding the Base64 text of some bytes gives those bytes back.
pub proof fn lemma_base64_round_trip(s: Seq<u8>)
    ensures
        base64_decode(base64_encode(s)) == s,
    decreases s.len(),
{
    if s.len() > 0 {
        let b0 = s[0] as int;
        let b1 = if s.len() > 1 { s[1] as int } else { 0 };
        let b2 = if s.len() > 2 { s[2] as int } else { 0 };
        let v0 = b0 / 4;
        let v1 = (b0 % 4) * 16 + b1 / 16;
        let v2 = (b1 % 16) * 4 + b2 / 64;
        let v3 = b2 % 64;
        lemma_base64_symbol_value(v0);
        lemma_base64_symbol_value(v1);
        lemma_base64_symbol_value(v2);
        lemma_base64_symbol_value(v3);
        assert(v0 * 4 + v1 / 16 == b0);
        assert((v1 % 16) * 16 + v2 / 4 == b1);
        assert((v2 % 4) * 64 + v3 == b2);
        let e = base64_encode(s);
        if s.len() == 1 {
            assert(s =~= seq![s[0]]);
        } else if s.len() == 2 {
            assert(s =~= seq![s[0], s[1]]);
        } else {
            lemma_base64_round_trip(s.skip(3));
            lemma_base64_len(s.skip(3));
            assert(e.skip(4) =~= base64_encode(s.skip(3)));
            assert(s =~= seq![s[0], s[1], s[2]] + s.skip(3));
        }
    }
}

/// Calls the `encode` of the `base64` crate's `STANDARD` engine, whose text
/// is the standard Base64 alphabet with padding, as `base64_encode` states.
#[verifier::external_body]
fn base64_standard(data: &[u8]) -> (r: String)
    ensures
        r@ == base64_encode(data@),
{
    base64::engine::general_purpose::STANDARD.encode(data)
}

/// The Base64 text of `data`.
pub fn to_base64(data: &Vec<u8>) -> (r: String)
    ensures
        r@ == base64_encode(data@),
        base64_decode(r@) == data@,
{
    proof {
        lemma_base64_round_trip(data@);
    }
    base64_standard(data.as_slice())
}

// ---------------------------------------------------------------------------
// PNG
// ---------------------------------------------------------------------------

/// The PNG file that the `png` crate writes for an 8-bit RGBA image of the
/// given size and pixel rows (default compression and filtering).
pub uninterp spec fn png_rgba8(width: u32, height: u32, rgba: Seq<u8>) -> Seq<u8>;

/// The eight bytes that open every PNG file.
pub open spec fn png_signature() -> Seq<u8> {
    seq![137u8, 80u8, 78u8, 71u8, 13u8, 10u8, 26u8, 10u8]
}

/// Which step of PNG encoding failed, with the encoder's message.
#[derive(Debug)]
pub enum PngFailure {
    /// Writing the header failed.
    Header(String),
    /// Writing the pixel data failed.
    Data(String),
}

/// The encoder refused the header with the message `m`.
pub open spec fn header_refused(r: PngOutcome, m: Seq<char>) -> bool {
    r matches Err(PngFailure::Header(t)) && t@ == m
}

/// The encoder refused the pixel data with the message `m`.
pub open spec fn data_refused(r: PngOutcome, m: Seq<char>) -> bool {
    r matches Err(PngFailure::Data(t)) && t@ == m
}

/// The encoder's message for pixel data of the wrong size: the byte count
/// that the header asks for and the one given, in decimal.
pub open spec fn data_size_message(expected: nat, actual: nat) -> Seq<char> {
    "wrong data size, expected "@ + digits_of(expected) + " got "@ + digits_of(actual)
}

/// The PNG bytes, or the step that failed.
pub type PngOutcome = Result<Vec<u8>, PngFailure>;

/// Writes an 8-bit RGBA PNG with the `png` crate (`Encoder::new`,
/// `set_color`, `set_depth`, `write_header`, `write_image_data`) into a
/// byte vector. As its source shows, the header is refused for a zero width
/// ("Zero width not allowed") or height ("Zero height not allowed"), and the
/// data is refused unless it holds exactly four bytes per pixel, with the
/// message "wrong data size, expected N got M" (the byte counts in decimal);
/// the bytes written are named `png_rgba8` and open with the PNG signature,
/// which `write_header` writes first.
#[verifier::external_body]
fn encode_png_rgba8(width: u32, height: u32, rgba: &[u8]) -> (r: PngOutcome)
    requires
        (width as int) * (height as int) * 4 <= usize::MAX,
    ensures
        width == 0 ==> header_refused(r, "Zero width not allowed"@),
        width != 0 && height == 0 ==> header_refused(r, "Zero height not allowed"@),
        width != 0 && height != 0 && rgba@.len() != (width as int) * (height as int) * 4 ==> data_refused(
            r,
            data_size_message(((width as int) * (height as int) * 4) as nat, rgba@.len()),
        ),
        width != 0 && height != 0 && rgba@.len() == (width as int) * (height as int) * 4 ==> (r is Ok
            && r->Ok_0@ == png_rgba8(width, height, rgba@) && r->Ok_0@.len() >= 8 && r->Ok_0@.take(8)
            == png_signature()),
{
    let mut out: Vec<u8> = Vec::new();
    {
        let mut encoder = png::Encoder::new(&mut out, width, height);
        encoder.set_color(png::ColorType::Rgba);
        encoder.set_depth(png::BitDepth::Eight);
        let mut writer = match encoder.write_header() {
            Ok(w) => w,
            Err(e) => return Err(PngFailure::Header(e.to_string())),
        };
        if let Err(e) = writer.write_image_data(rgba) {
            return Err(PngFailure::Data(e.to_string()));
        }
    }
    Ok(out)
}

/// The pixel bytes with blue and red exchanged in every whole group of four
/// (BGRA to RGBA); a trailing partial group stays as it is.
pub open spec fn swap_red_blue(p: Seq<u8>) -> Seq<u8> {
    Seq::new(
        p.len(),
        |i: int|
            if i < p.len() - p.len() % 4 && i % 4 == 0 {
                p[i + 2]
            } else if i < p.len() - p.len() % 4 && i % 4 == 2 {
                p[i - 2]
            } else {
                p[i]
            },
    )
}

/// Exchanges blue and red in every whole group of four bytes.
pub fn bgra_to_rgba(pixels: &mut Vec<u8>)
    ensures
        final(pixels)@ == swap_red_blue(old(pixels)@),
{
    let len = pixels.len();
    let whole = len - len % 4;
    let ghost orig = pixels@;
    let mut i: usize = 0;
    while i < whole
        invariant
            len == pixels.len() == orig.len(),
            whole == len - len % 4,
            i <= whole,
            i % 4 == 0,
            forall|k: int| 0 <= k < i ==> #[trigger] pixels@[k] == swap_red_blue(orig)[k],
            forall|k: int| i <= k < len ==> #[trigger] pixels@[k] == orig[k],
        decreases whole - i,
    {
        let b = pixels[i];
        let r = pixels[i + 2];
        pixels.set(i, r);
        pixels.set(i + 2, b);
        i = i + 4;
    }
    assert(pixels@ =~= swap_red_blue(orig));
}

/// Encodes the pixels that a screen capture delivers (32-bit BGRA, top row
/// first) as an RGBA PNG, with the capture's error texts.
pub fn png_from_bgra(width: u32, height: u32, pixels: Vec<u8>) -> (r: Result<Vec<u8>, Error>)
    requires
        (width as int) * (height as int) * 4 <= usize::MAX,
    ensures
        width == 0 ==> (r matches Err(Error::ScreenshotFailed(m)) && m@ == "PNG encode error: "@
            + "Zero width not allowed"@),
        width != 0 && height == 0 ==> (r matches Err(Error::ScreenshotFailed(m)) && m@
            == "PNG encode error: "@ + "Zero height not allowed"@),
        width != 0 && height != 0 && pixels@.len() != (width as int) * (height as int) * 4 ==> (
        r matches Err(Error::ScreenshotFailed(m)) && m@ == "PNG write error: "@ + data_size_message(
            ((width as int) * (height as int) * 4) as nat,
            pixels@.len(),
        )),
        width != 0 && height != 0 && pixels@.len() == (width as int) * (height as int) * 4 ==> (
        r matches Ok(png) && png@ == png_rgba8(width, height, swap_red_blue(pixels@)) && png@.len()
            >= 8 && png@.take(8) == png_signature()),
{
    let mut rgba = pixels;
    bgra_to_rgba(&mut rgba);
    match encode_png_rgba8(width, height, rgba.as_slice()) {
        Ok(png) => Ok(png),
        Err(PngFailure::Header(m)) => Err(Error::ScreenshotFailed(joined("PNG encode error: ", m.as_str()))),
        Err(PngFailure::Data(m)) => {
            Err(Error::ScreenshotFailed(joined("PNG write error: ", m.as_str())))
        },
    }
}

} // verus!
