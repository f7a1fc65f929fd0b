//! App icons as the picker sends them: the shell's premultiplied BGRA pixels
//! turned into straight RGBA, encoded as a PNG, and written as base64.
use base64::Engine;
use vstd::prelude::*;

verus! {

/// Icon edge in pixels.
pub const ICON_PX: u32 = 48;

/// A premultiplied colour channel `c` under alpha `a`, made straight:
/// `c * 255 / a`, saturating at 255.
pub open spec fn unpremultiply(c: u8, a: u8) -> u8
    recommends
        a > 0,
{
    let v = (c as int * 255) / (a as int);
    if v > 255 {
        255
    } else {
        v as u8
    }
}

/// Some whole pixel of `p` has a non-zero alpha.
pub open spec fn any_visible(p: Seq<u8>) -> bool {
    exists|k: int| 0 <= k && 4 * k + 4 <= p.len() && #[trigger] p[4 * k + 3] != 0
}

/// Byte `i` of the straightened image. Whole pixels `[b, g, r, a]` become
/// `[r', g', b', a]` with each channel un-premultiplied, and fully transparent
/// pixels become all zero. An image with no visible pixel at all is a
/// straight-colour image with a blank alpha channel and is shown opaque:
/// `[r, g, b, 255]`. Bytes after the last whole pixel are kept.
pub open spec fn straight_byte(p: Seq<u8>, i: int) -> u8 {
    let base = (i / 4) * 4;
    let j = i % 4;
    if base + 4 > p.len() {
        p[i]
    } else if any_visible(p) {
        let a = p[base + 3];
        if a == 0 {
            0
        } else if j == 0 {
            unpremultiply(p[base + 2], a)
        } else if j == 1 {
            unpremultiply(p[base + 1], a)
        } else if j == 2 {
            unpremultiply(p[base], a)
        } else {
            a
        }
    } else {
        if j == 0 {
            p[base + 2]
        } else if j == 1 {
            p[base + 1]
        } else if j == 2 {
            p[base]
        } else {
            255
        }
    }
}

/// The straightened image.
pub open spec fn straight_pixels(p: Seq<u8>) -> Seq<u8> {
    Seq::new(p.len(), |i: int| straight_byte(p, i))
}

fn unpremultiply_exec(c: u8, a: u8) -> (r: u8)
    requires
        a > 0,
    ensures
        r == unpremultiply(c, a),
{
    let v: u32 = (c as u32 * 255) / a as u32;
    if v > 255 {
        255
    } else {
        v as u8
    }
}

proof fn lemma_chunk(k: int, j: int)
    requires
        k >= 0,
        0 <= j < 4,
    ensures
        (4 * k + j) / 4 == k,
        (4 * k + j) % 4 == j,
        ((4 * k + j) / 4) * 4 == 4 * k,
{
}

/// Whether some whole pixel has a non-zero alpha.
fn has_visible_pixel(p: &[u8]) -> (r: bool)
    ensures
        r == any_visible(p@),
{
    let n = p.len() / 4;
    let mut k: usize = 0;
    while k < n
        invariant
            n == p@.len() / 4,
            4 * n <= p@.len() <= usize::MAX,
            k <= n,
            forall|m: int| 0 <= m < k ==> #[trigger] p@[4 * m + 3] == 0,
        decreases n - k,
    {
        if p[4 * k + 3] != 0 {
            return true;
        }
        k += 1;
    }
    assert forall|m: int| 0 <= m && 4 * m + 4 <= p@.len() implies #[trigger] p@[4 * m + 3] == 0 by {
        assert(m < n);
    }
    false
}

/// The shell's premultiplied BGRA pixels as straight RGBA.
pub fn straighten(p: &[u8]) -> (r: Vec<u8>)
    ensures
        r@ == straight_pixels(p@),
{
    let visible = has_visible_pixel(p);
    let n = p.len() / 4;
    let mut out: Vec<u8> = Vec::new();
    let mut k: usize = 0;
    while k < n
        invariant
            n == p@.len() / 4,
            4 * n <= p@.len() <= usize::MAX,
            k <= n,
            visible == any_visible(p@),
            out@.len() == 4 * k,
            forall|i: int| 0 <= i < 4 * k ==> #[trigger] out@[i] == straight_byte(p@, i),
        decreases n - k,
    {
        let b = p[4 * k];
        let g = p[4 * k + 1];
        let rr = p[4 * k + 2];
        let a = p[4 * k + 3];
        let ghost before = out@;
        if visible {
            if a == 0 {
                out.push(0);
                out.push(0);
                out.push(0);
                out.push(0);
            } else {
                out.push(unpremultiply_exec(rr, a));
                out.push(unpremultiply_exec(g, a));
                out.push(unpremultiply_exec(b, a));
                out.push(a);
            }
        } else {
            out.push(rr);
            out.push(g);
            out.push(b);
            out.push(255);
        }
        proof {
            assert forall|i: int| 0 <= i < 4 * k + 4 implies #[trigger] out@[i] == straight_byte(p@, i) by {
                if i >= 4 * k {
                    lemma_chunk(k as int, i - 4 * k);
                } else {
                    assert(out@[i] == before[i]);
                }
            }
        }
        k += 1;
    }
    let mut i: usize = 4 * n;
    while i < p.len()
        invariant
            n == p@.len() / 4,
            4 * n <= i <= p@.len(),
            out@.len() == i,
            forall|m: int| 0 <= m < i ==> #[trigger] out@[m] == straight_byte(p@, m),
        decreases p.len() - i,
    {
        let ghost before = out@;
        out.push(p[i]);
        proof {
            assert forall|m: int| 0 <= m < i + 1 implies #[trigger] out@[m] == straight_byte(p@, m) by {
                if m < i {
                    assert(out@[m] == before[m]);
                } else {
                    assert((m / 4) * 4 + 4 > p@.len());
                }
            }
        }
        i += 1;
    }
    assert(out@ =~= straight_pixels(p@));
    out
}

/// The PNG the `png` crate writes for a `side`×`side` straight-RGBA8 image
/// at its `Best` compression, or `None` when it refuses the image.
pub uninterp spec fn png_rgba8(rgba: Seq<u8>, side: u32) -> Option<Seq<u8>>;

/// `png::Encoder` for a `side`×`side` RGBA8 image, `Compression::Best`,
/// written to memory. The encoder refuses image data whose length is not
/// `side * side * 4`; an encoded image is a `Vec<u8>`, so its length is at
/// most `isize::MAX`.
#[verifier::external_body]
fn encode_png(rgba: &[u8], side: u32) -> (r: Option<Vec<u8>>)
    requires
        side <= 4096,
    ensures
        match png_rgba8(rgba@, side) {
            Some(b) => r matches Some(v) && v@ == b,
            None => r is None,
        },
        rgba@.len() != side * side * 4 ==> r is None,
        r matches Some(v) ==> v@.len() <= isize::MAX,
{
    let mut out = Vec::new();
    {
        let mut encoder = png::Encoder::new(&mut out, side, side);
        encoder.set_color(png::ColorType::Rgba);
        encoder.set_depth(png::BitDepth::Eight);
        encoder.set_compression(png::Compression::Best);
        let mut writer = encoder.write_header().ok()?;
        writer.write_image_data(rgba).ok()?;
    }
    Some(out)
}

/// The character of the standard base64 alphabet for the 6-bit value `v`.
pub open spec fn b64_char(v: int) -> char {
    if v < 26 {
        (('A' as int) + v) as char
    } else if v < 52 {
        (('a' as int) + v - 26) as char
    } else if v < 62 {
        (('0' as int) + v - 52) as char
    } else if v == 62 {
        '+'
    } else {
        '/'
    }
}

/// Standard base64 with `=` padding (RFC 4648, section 4).
pub open spec fn base64_of(s: Seq<u8>) -> Seq<char>
    decreases s.len(),
{
    let x = s[0] as int;
    let y = s[1] as int;
    let z = s[2] as int;
    if s.len() == 0 {
        Seq::empty()
    } else if s.len() == 1 {
        seq![b64_char(x / 4), b64_char((x % 4) * 16), '=', '=']
    } else if s.len() == 2 {
        seq![b64_char(x / 4), b64_char((x % 4) * 16 + y / 16), b64_char((y % 16) * 4), '=']
    } else {
        seq![
            b64_char(x / 4),
            b64_char((x % 4) * 16 + y / 16),
            b64_char((y % 16) * 4 + z / 64),
            b64_char(z % 64),
        ] + base64_of(s.subrange(3, s.len() as int))
    }
}

/// `base64::engine::general_purpose::STANDARD.encode`: the standard alphabet
/// with padding. It panics only when the encoded length would overflow
/// `usize`, which an input of at most `isize::MAX` bytes cannot reach.
#[verifier::external_body]
fn encode_base64(bytes: &[u8]) -> (r: String)
    requires
        bytes@.len() <= isize::MAX,
    ensures
        r@ == base64_of(bytes@),
{
    base64::engine::general_purpose::STANDARD.encode(bytes)
}

/// What the picker stores for an icon whose shell pixels are `bgra`: the
/// straightened pixels as a 48×48 PNG, in base64.
pub fn icon_from_pixels(bgra: &[u8]) -> (r: Result<String, String>)
    ensures
        match png_rgba8(straight_pixels(bgra@), ICON_PX) {
            Some(png) => r matches Ok(s) && s@ == base64_of(png),
            None => r matches Err(e) && e@ == "png encode failed"@,
        },
{
    let rgba = straighten(bgra);
    match encode_png(rgba.as_slice(), ICON_PX) {
        Some(png) => Ok(encode_base64(png.as_slice())),
        None => Err(crate::text::owned("png encode failed")),
    }
}

} // verus!
