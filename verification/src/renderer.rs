//! ASCII-art rendering of a decoded image.
//!
//! Each pixel's brightness — its channel sum out of the maximum 765 — picks a
//! palette index by rounding `(palette_len - 1) * sum / 765` to the nearest
//! integer; inversion mirrors the index. The glyph rows are emitted visually
//! top-first (undoing BMP's bottom-up storage), each row closed by one line
//! break byte.

use vstd::arithmetic::div_mod::{lemma_div_is_ordered, lemma_fundamental_div_mod_converse};
use vstd::arithmetic::mul::lemma_mul_inequality;
use vstd::prelude::*;
use crate::decoder::{
    decode, spec_bytes_per_row, spec_decode_err, spec_decode_ok, spec_decoded_pixels,
    spec_image_height, spec_image_width, spec_pixel_array_offset, BmpDecodeError, DecodedImage,
};
use crate::pixel::Pixel;

verus! {

/// The byte that terminates each rendered row.
pub const LINE_BREAK: u8 = 10;

/// The greatest channel sum a pixel can have: three channels of 255.
pub const MAX_CHANNEL_SUM: usize = 765;

/// The built-in palette, darkest to lightest.
pub open spec fn spec_default_char_map() -> Seq<u8> {
    seq![35u8, 33u8, 45u8, 46u8, 32u8]
}

/// Builds the built-in 5-glyph palette, darkest to lightest.
pub fn default_char_map() -> (v: Vec<u8>)
    ensures
        v@ == spec_default_char_map(),
{
    let mut v: Vec<u8> = Vec::new();
    v.push(35);
    v.push(33);
    v.push(45);
    v.push(46);
    v.push(32);
    proof {
        assert(v@ =~= spec_default_char_map());
    }
    v
}

/// The palette index for a pixel of channel sum `sum`: the scaled brightness
/// `(plen - 1) * sum / 765`, rounded to the nearest integer (the divisor is
/// odd, so no tie can arise).
pub open spec fn spec_palette_index(sum: int, plen: int) -> int
    recommends
        plen >= 1,
{
    (2 * (plen - 1) * sum + 765) / 1530
}

/// The palette index actually used: mirrored when brightness is inverted.
pub open spec fn spec_glyph_index(sum: int, plen: int, invert: bool) -> int
    recommends
        plen >= 1,
{
    if invert {
        plen - 1 - spec_palette_index(sum, plen)
    } else {
        spec_palette_index(sum, plen)
    }
}

/// The glyph a pixel renders to under `palette` and `invert`.
pub open spec fn spec_glyph(p: Pixel, palette: Seq<u8>, invert: bool) -> u8
    recommends
        palette.len() >= 1,
{
    palette[spec_glyph_index(p.spec_sum(), palette.len() as int, invert)]
}

/// The palette index stays inside the palette for every reachable channel sum.
pub proof fn lemma_palette_index_in_range(sum: int, plen: int)
    requires
        0 <= sum <= 765,
        plen >= 1,
    ensures
        0 <= spec_palette_index(sum, plen) < plen,
{
    let n = 2 * (plen - 1) * sum + 765;
    let top = 1530 * (plen - 1) + 765;
    assert(2 * (plen - 1) * sum >= 0) by (nonlinear_arith)
        requires
            plen >= 1,
            sum >= 0,
    ;
    assert(2 * (plen - 1) * sum <= 1530 * (plen - 1)) by (nonlinear_arith)
        requires
            plen >= 1,
            0 <= sum <= 765,
    ;
    lemma_div_is_ordered(765, n, 1530);
    lemma_div_is_ordered(n, top, 1530);
    assert(1530 * (plen - 1) == (plen - 1) * 1530) by (nonlinear_arith);
    lemma_fundamental_div_mod_converse(top, 1530, plen - 1, 765);
}

/// Law: the brightness-to-index mapping is monotonic in the channel sum. A
/// pixel no brighter than another never picks a later palette index
/// (non-inverted), and never an earlier one when brightness is inverted.
pub proof fn lemma_palette_index_monotonic(s1: int, s2: int, plen: int)
    requires
        0 <= s1 <= s2 <= 765,
        plen >= 1,
    ensures
        spec_palette_index(s1, plen) <= spec_palette_index(s2, plen),
        spec_glyph_index(s1, plen, false) <= spec_glyph_index(s2, plen, false),
        spec_glyph_index(s1, plen, true) >= spec_glyph_index(s2, plen, true),
{
    assert(2 * (plen - 1) * s1 <= 2 * (plen - 1) * s2) by (nonlinear_arith)
        requires
            plen >= 1,
            0 <= s1 <= s2,
    ;
    lemma_div_is_ordered(2 * (plen - 1) * s1 + 765, 2 * (plen - 1) * s2 + 765, 1530);
}

/// Maps a channel sum to its palette index by integer arithmetic:
/// `(2 * (palette_len - 1) * sum + 765) / 1530` rounds the scaled brightness
/// to the nearest index. The result is clamped to the palette defensively,
/// though the formula is proved to stay in range.
pub fn palette_index(sum: usize, palette_len: usize) -> (idx: usize)
    requires
        sum <= MAX_CHANNEL_SUM,
        palette_len >= 1,
    ensures
        idx == spec_palette_index(sum as int, palette_len as int),
        idx < palette_len,
{
    proof {
        lemma_palette_index_in_range(sum as int, palette_len as int);
        assert((2 * ((palette_len - 1) as int)) * (sum as int) < 0x100000000000000000000000000)
            by (nonlinear_arith)
            requires
                0 <= 2 * ((palette_len - 1) as int) < 0x100000000000000000,
                0 <= (sum as int) <= 765,
        ;
    }
    let n: u128 = 2 * ((palette_len - 1) as u128) * (sum as u128) + 765;
    let idx_wide: u128 = n / 1530;
    if idx_wide > (palette_len - 1) as u128 {
        palette_len - 1
    } else {
        idx_wide as usize
    }
}

/// Byte `k` of the rendered output: the line break at the end of each
/// `(width + 1)`-byte row, else the glyph of the pixel at visual row
/// `k / (width + 1)` — stored row `height - 1 - that` — and column
/// `k % (width + 1)`.
pub open spec fn spec_render_byte(
    pixels: Seq<Pixel>,
    w: int,
    h: int,
    palette: Seq<u8>,
    invert: bool,
    k: int,
) -> u8
    recommends
        w >= 0,
        h >= 0,
        pixels.len() == w * h,
        palette.len() >= 1,
        0 <= k < h * (w + 1),
{
    let y = k / (w + 1);
    let x = k % (w + 1);
    if x == w {
        LINE_BREAK
    } else {
        spec_glyph(pixels[(h - 1 - y) * w + x], palette, invert)
    }
}

/// The whole rendered output: `height` rows of `width` glyphs, each row
/// closed by one line break, visually top row first.
pub open spec fn spec_render(
    pixels: Seq<Pixel>,
    w: int,
    h: int,
    palette: Seq<u8>,
    invert: bool,
) -> Seq<u8>
    recommends
        w >= 0,
        h >= 0,
        pixels.len() == w * h,
        palette.len() >= 1,
{
    Seq::new((h * (w + 1)) as nat, |k: int| spec_render_byte(pixels, w, h, palette, invert, k))
}

/// Law: rendered output has length `height * (width + 1)`, and every
/// `(width + 1)`-th byte — the last of each row — is the line break.
pub proof fn lemma_render_layout(
    pixels: Seq<Pixel>,
    w: int,
    h: int,
    palette: Seq<u8>,
    invert: bool,
)
    requires
        w >= 0,
        h >= 0,
    ensures
        spec_render(pixels, w, h, palette, invert).len() == h * (w + 1),
        forall|k: int|
            0 <= k < h * (w + 1) && k % (w + 1) == w ==> spec_render(
                pixels,
                w,
                h,
                palette,
                invert,
            )[k] == LINE_BREAK,
{
    assert(h * (w + 1) >= 0) by (nonlinear_arith)
        requires
            w >= 0,
            h >= 0,
    ;
}

/// Law: for every buffer the decoder accepts, decoding and then rendering
/// with any nonempty palette yields output of length `height * (width + 1)`
/// whose every `(width + 1)`-th byte is the line break.
pub proof fn lemma_decode_render_layout(bytes: Seq<u8>, palette: Seq<u8>, invert: bool)
    requires
        spec_decode_ok(bytes),
        palette.len() >= 1,
    ensures
        spec_render(
            spec_decoded_pixels(bytes),
            spec_image_width(bytes) as int,
            spec_image_height(bytes) as int,
            palette,
            invert,
        ).len() == spec_image_height(bytes) as int * (spec_image_width(bytes) as int + 1),
        forall|k: int|
            0 <= k < spec_image_height(bytes) as int * (spec_image_width(bytes) as int + 1) && k
                % (spec_image_width(bytes) as int + 1) == spec_image_width(bytes) as int
                ==> spec_render(
                spec_decoded_pixels(bytes),
                spec_image_width(bytes) as int,
                spec_image_height(bytes) as int,
                palette,
                invert,
            )[k] == LINE_BREAK,
{
    lemma_render_layout(
        spec_decoded_pixels(bytes),
        spec_image_width(bytes) as int,
        spec_image_height(bytes) as int,
        palette,
        invert,
    );
}

/// Law: rendering is deterministic. Two outputs obtained from the same
/// decoded pixels, dimensions, palette and inversion flag are byte-identical.
pub proof fn lemma_render_deterministic(
    pixels: Seq<Pixel>,
    w: int,
    h: int,
    palette: Seq<u8>,
    invert: bool,
    o1: Seq<u8>,
    o2: Seq<u8>,
)
    requires
        o1 == spec_render(pixels, w, h, palette, invert),
        o2 == spec_render(pixels, w, h, palette, invert),
    ensures
        o1 == o2,
{
}

/// Renders a decoded image to its ASCII-art byte buffer.
///
/// The output is exactly [`spec_render`]: visual rows top-first (reversing
/// the stored bottom-up row order), one glyph per pixel chosen by
/// [`spec_glyph_index`], one line break after each row.
pub fn render(img: &DecodedImage, palette: &Vec<u8>, invert: bool) -> (out: Vec<u8>)
    requires
        img.wf(),
        palette@.len() >= 1,
        img.height as int * (img.width as int + 1) <= usize::MAX,
    ensures
        out@ == spec_render(img.pixels@, img.width as int, img.height as int, palette@, invert),
{
    let w = img.width as usize;
    let h = img.height as usize;
    let ghost gw = w as int;
    let ghost gh = h as int;
    let mut out: Vec<u8> = Vec::new();
    let mut y: usize = 0;
    while y < h
        invariant
            gw == img.width as int,
            gh == img.height as int,
            w == gw,
            h == gh,
            img.wf(),
            palette@.len() >= 1,
            gh * (gw + 1) <= usize::MAX,
            0 <= y <= h,
            out@.len() == y * (gw + 1),
            forall|k: int|
                0 <= k < out@.len() ==> out@[k] == spec_render_byte(
                    img.pixels@,
                    gw,
                    gh,
                    palette@,
                    invert,
                    k,
                ),
        decreases h - y,
    {
        proof {
            lemma_mul_inequality(y as int + 1, gh, gw + 1);
        }
        let mut x: usize = 0;
        while x < w
            invariant
                gw == img.width as int,
                gh == img.height as int,
                w == gw,
                h == gh,
                img.wf(),
                palette@.len() >= 1,
                gh * (gw + 1) <= usize::MAX,
                0 <= y < h,
                0 <= x <= w,
                (y as int + 1) * (gw + 1) <= gh * (gw + 1),
                out@.len() == y * (gw + 1) + x,
                forall|k: int|
                    0 <= k < out@.len() ==> out@[k] == spec_render_byte(
                        img.pixels@,
                        gw,
                        gh,
                        palette@,
                        invert,
                        k,
                    ),
            decreases w - x,
        {
            proof {
                assert((y as int + 1) * (gw + 1) == y as int * (gw + 1) + (gw + 1))
                    by (nonlinear_arith);
                assert((gh - 1 - (y as int)) * gw + (x as int) < gw * gh) by (nonlinear_arith)
                    requires
                        0 <= (y as int) < gh,
                        0 <= (x as int) < gw,
                ;
                assert(gw * gh <= gh * (gw + 1)) by (nonlinear_arith)
                    requires
                        gw >= 0,
                        gh >= 0,
                ;
            }
            let pi: usize = (h - 1 - y) * w + x;
            let sum = img.pixels[pi].sum_channels();
            let idx = palette_index(sum, palette.len());
            let glyph_idx = if invert {
                palette.len() - 1 - idx
            } else {
                idx
            };
            let glyph = palette[glyph_idx];
            out.push(glyph);
            proof {
                let k = y as int * (gw + 1) + x as int;
                lemma_fundamental_div_mod_converse(k, gw + 1, y as int, x as int);
                assert(out@[k] == spec_render_byte(img.pixels@, gw, gh, palette@, invert, k));
            }
            x = x + 1;
        }
        out.push(LINE_BREAK);
        proof {
            let k = y as int * (gw + 1) + gw;
            lemma_fundamental_div_mod_converse(k, gw + 1, y as int, gw);
            assert(out@[k] == spec_render_byte(img.pixels@, gw, gh, palette@, invert, k));
            assert((y as int + 1) * (gw + 1) == y as int * (gw + 1) + (gw + 1))
                by (nonlinear_arith);
        }
        y = y + 1;
    }
    proof {
        assert(out@ =~= spec_render(img.pixels@, gw, gh, palette@, invert));
    }
    out
}

/// Decodes a complete BMP buffer and renders it with `palette` in one step.
///
/// Succeeds exactly when the decode does; the output is then exactly the
/// render of the buffer's decoded pixel sequence.
pub fn decode_and_render(bytes: &[u8], palette: &Vec<u8>, invert: bool) -> (r: Result<
    Vec<u8>,
    BmpDecodeError,
>)
    requires
        palette@.len() >= 1,
    ensures
        r matches Ok(art) ==> spec_decode_ok(bytes@) && art@ == spec_render(
            spec_decoded_pixels(bytes@),
            spec_image_width(bytes@) as int,
            spec_image_height(bytes@) as int,
            palette@,
            invert,
        ),
        r matches Err(e) ==> !spec_decode_ok(bytes@) && e == spec_decode_err(bytes@),
{
    let buf_len = bytes.len();
    let img = match decode(bytes) {
        Ok(img) => img,
        Err(e) => {
            return Err(e);
        },
    };
    proof {
        let gw = img.width as int;
        let gh = img.height as int;
        if gw == 0 {
            assert(gh * (gw + 1) == gh) by (nonlinear_arith)
                requires
                    gw == 0,
            ;
        } else if gh == 0 {
            assert(gh * (gw + 1) == 0) by (nonlinear_arith)
                requires
                    gh == 0,
            ;
        } else {
            assert(gw * gh > 0) by (nonlinear_arith)
                requires
                    gw >= 1,
                    gh >= 1,
            ;
            assert(gh * (gw + 1) <= gh * spec_bytes_per_row(gw)) by (nonlinear_arith)
                requires
                    gw >= 1,
                    gh >= 0,
                    spec_bytes_per_row(gw) >= 3 * gw,
            ;
            assert(gh * (gw + 1) <= buf_len);
        }
    }
    let art = render(&img, palette, invert);
    Ok(art)
}

} // verus!
