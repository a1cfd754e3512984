//! The block-compressed texture decoder: expands 4x4-pixel, 16-byte blocks
//! (an 8-byte interpolated-alpha sub-block and an 8-byte two-endpoint color
//! sub-block) into raw RGBA pixel data, row-major, clipping blocks that
//! overhang the image edge.
use vstd::prelude::*;
use vstd::arithmetic::div_mod::lemma_fundamental_div_mod;
use vstd::arithmetic::div_mod::lemma_fundamental_div_mod_converse;
use crate::errors::ParserError;

verus! {

/// Number of 4-wide block columns covering w pixels.
pub open spec fn blocks_across(w: int) -> int {
    (w + 3) / 4
}

/// The 48-bit little-endian alpha index field of one block.
pub open spec fn alpha_bits(blk: Seq<u8>) -> u64 {
    (blk[2] as u64) | (blk[3] as u64) << 8 | (blk[4] as u64) << 16 | (blk[5] as u64) << 24
        | (blk[6] as u64) << 32 | (blk[7] as u64) << 40
}

/// Alpha of one pixel from the two endpoint alphas and a 3-bit index, using
/// the 8-value table when endpoint0 > endpoint1 and the 6-value table with
/// explicit 0 and 255 otherwise.
pub open spec fn alpha_value(a0: u8, a1: u8, i: int) -> u8 {
    if i == 0 {
        a0
    } else if i == 1 {
        a1
    } else if a0 > a1 {
        (((8 - i) * a0 + (i - 1) * a1) / 7) as u8
    } else if i == 6 {
        0
    } else if i == 7 {
        255
    } else {
        (((6 - i) * a0 + (i - 1) * a1) / 5) as u8
    }
}

/// One 16-bit 565 color endpoint of a block; e selects endpoint 0 or 1.
pub open spec fn color_word(blk: Seq<u8>, e: int) -> u32 {
    (blk[8 + 2 * e] as u32) | (blk[9 + 2 * e] as u32) << 8
}

/// Red component of a 565 word, replicated to 8 bits.
pub open spec fn red_of(c: u32) -> u32 {
    let v = (c >> 11) & 31;
    (v << 3) | (v >> 2)
}

/// Green component of a 565 word, replicated to 8 bits.
pub open spec fn green_of(c: u32) -> u32 {
    let v = (c >> 5) & 63;
    (v << 2) | (v >> 4)
}

/// Blue component of a 565 word, replicated to 8 bits.
pub open spec fn blue_of(c: u32) -> u32 {
    let v = c & 31;
    (v << 3) | (v >> 2)
}

/// One 8-bit color channel of the 4-entry palette: entries 0 and 1 are the
/// endpoints, entries 2 and 3 interpolate them at one and two thirds.
pub open spec fn palette_channel(e0: u32, e1: u32, i: int) -> u8 {
    if i == 0 {
        e0 as u8
    } else if i == 1 {
        e1 as u8
    } else if i == 2 {
        ((2 * e0 + e1) / 3) as u8
    } else {
        ((e0 + 2 * e1) / 3) as u8
    }
}

/// The RGBA value of pixel (x, y) of an image decoded from blocks.
pub open spec fn dxt5_pixel(data: Seq<u8>, w: int, h: int, x: int, y: int) -> (u8, u8, u8, u8) {
    let base = 16 * ((y / 4) * blocks_across(w) + x / 4);
    let blk = data.subrange(base, base + 16);
    let p = (y % 4) * 4 + x % 4;
    let ai = ((alpha_bits(blk) >> ((3 * p) as u64)) & 7) as int;
    let a = alpha_value(blk[0], blk[1], ai);
    let c0 = color_word(blk, 0);
    let c1 = color_word(blk, 1);
    let ci = ((color_bits(blk) >> ((2 * p) as u32)) & 3) as int;
    (
        palette_channel(red_of(c0), red_of(c1), ci),
        palette_channel(green_of(c0), green_of(c1), ci),
        palette_channel(blue_of(c0), blue_of(c1), ci),
        a,
    )
}

/// The 32-bit little-endian color index field of one block.
pub open spec fn color_bits(blk: Seq<u8>) -> u32 {
    (blk[12] as u32) | (blk[13] as u32) << 8 | (blk[14] as u32) << 16 | (blk[15] as u32) << 24
}

/// The pixel buffer holds exactly w*h row-major RGBA quadruplets, each equal
/// to its block decoding; overhang columns and rows of edge blocks appear in
/// no quadruplet.
pub open spec fn decoded_pixels_ok(pix: Seq<u8>, data: Seq<u8>, w: int, h: int) -> bool {
    &&& pix.len() == 4 * w * h
    &&& forall|i: int|
        0 <= i < w * h ==> {
            let px = #[trigger] dxt5_pixel(data, w, h, i % w, i / w);
            pix[4 * i] == px.0 && pix[4 * i + 1] == px.1 && pix[4 * i + 2] == px.2 && pix[4 * i
                + 3] == px.3
        }
}

/// The decoded image: width, height and row-major RGBA bytes.
#[derive(Debug)]
pub struct DecodedImage {
    pub width: u32,
    pub height: u32,
    pub pixels: Vec<u8>,
}

/// Law: texture decoding is deterministic; two pixel buffers decoded from the
/// same compressed bytes and dimensions are bit-identical.
pub proof fn lemma_decode_deterministic(a: Seq<u8>, b: Seq<u8>, data: Seq<u8>, w: int, h: int)
    requires
        decoded_pixels_ok(a, data, w, h),
        decoded_pixels_ok(b, data, w, h),
        w >= 0,
        h >= 0,
    ensures
        a == b,
{
    assert forall|j: int| 0 <= j < a.len() implies a[j] == b[j] by {
        let i = j / 4;
        let k = j % 4;
        lemma_fundamental_div_mod(j, 4);
        assert(4 * w * h == 4 * (w * h)) by (nonlinear_arith);
        assert(0 <= i < w * h);
        let px = dxt5_pixel(data, w, h, i % w, i / w);
        assert(a[4 * i] == px.0 && a[4 * i + 1] == px.1 && a[4 * i + 2] == px.2 && a[4 * i + 3]
            == px.3);
        assert(b[4 * i] == px.0 && b[4 * i + 1] == px.1 && b[4 * i + 2] == px.2 && b[4 * i + 3]
            == px.3);
    }
    assert(a =~= b);
}


/// Decodes one pixel out of its 16-byte block.
#[verifier::spinoff_prover]
#[verifier::rlimit(100)]
fn dxt5_pixel_x(data: &[u8], w: u32, h: u32, x: u32, y: u32) -> (r: (u8, u8, u8, u8))
    requires
        x < w,
        y < h,
        data@.len() >= 16 * ((y as int / 4) * blocks_across(w as int) + x as int / 4) + 16,
    ensures
        r == dxt5_pixel(data@, w as int, h as int, x as int, y as int),
{
    let bw = ((w as u64) + 3) / 4;
    let yb = (y as u64) / 4;
    let xb = (x as u64) / 4;
    proof {
        assert(yb * bw <= 0x4000_0000_0000_0000u64) by (nonlinear_arith)
            requires
                yb <= 0x4000_0000u64 && bw <= 0x4000_0000u64,
        ;
    }
    let bi = yb * bw + xb;
    proof {
        assert(bi == (y as int / 4) * blocks_across(w as int) + x as int / 4);
        assert(16 * bi + 16 <= data@.len());
    }
    let dl = data.len();
    let base = (16 * bi) as usize;
    let ghost blk = data@.subrange(base as int, base as int + 16);
    let a0 = data[base];
    let a1 = data[base + 1];
    let abits = (data[base + 2] as u64) | (data[base + 3] as u64) << 8 | (data[base + 4] as u64)
        << 16 | (data[base + 5] as u64) << 24 | (data[base + 6] as u64) << 32 | (data[base
        + 7] as u64) << 40;
    let c0 = (data[base + 8] as u32) | (data[base + 9] as u32) << 8;
    let c1 = (data[base + 10] as u32) | (data[base + 11] as u32) << 8;
    let cbits = (data[base + 12] as u32) | (data[base + 13] as u32) << 8 | (data[base
        + 14] as u32) << 16 | (data[base + 15] as u32) << 24;
    proof {
        assert(a0 == blk[0] && a1 == blk[1]);
        assert(abits == alpha_bits(blk));
        assert(c0 == color_word(blk, 0) && c1 == color_word(blk, 1));
        assert(cbits == color_bits(blk));
    }
    let p = (y % 4) * 4 + x % 4;
    let ai = ((abits >> ((3 * p) as u64)) & 7) as u32;
    proof {
        assert(((abits >> ((3 * p) as u64)) & 7) <= 7) by (bit_vector);
    }
    let a0w = a0 as u32;
    let a1w = a1 as u32;
    let a: u32;
    if ai == 0 {
        a = a0w;
    } else if ai == 1 {
        a = a1w;
    } else if a0 > a1 {
        proof {
            assert((8 - ai) * a0w + (ai - 1) * a1w <= 2040) by (nonlinear_arith)
                requires
                    2 <= ai && ai <= 7 && a0w <= 255 && a1w <= 255,
            ;
        }
        a = ((8 - ai) * a0w + (ai - 1) * a1w) / 7;
    } else if ai == 6 {
        a = 0;
    } else if ai == 7 {
        a = 255;
    } else {
        proof {
            assert((6 - ai) * a0w + (ai - 1) * a1w <= 2040) by (nonlinear_arith)
                requires
                    2 <= ai && ai <= 5 && a0w <= 255 && a1w <= 255,
            ;
        }
        a = ((6 - ai) * a0w + (ai - 1) * a1w) / 5;
    }
    proof {
        assert(ai <= 7);
        assert(a == alpha_value(blk[0], blk[1], ai as int)) by {
            assert(blk[0] == a0 && blk[1] == a1);
            if ai == 0 {
                assert(alpha_value(a0, a1, 0) == a0);
                assert(a == a0w);
            } else if ai == 1 {
                assert(alpha_value(a0, a1, 1) == a1);
                assert(a == a1w);
            } else if a0 > a1 {
                assert((8 - ai as int) * a0 + (ai as int - 1) * a1 <= 1785) by (nonlinear_arith)
                    requires
                        2 <= ai && ai <= 7 && a0 <= 255 && a1 <= 255,
                ;
                assert(alpha_value(a0, a1, ai as int) == (((8 - ai as int) * a0 + (ai as int - 1)
                    * a1) / 7) as u8);
                assert(a == ((8 - ai) * a0w + (ai - 1) * a1w) / 7);
            } else if ai == 6 {
                assert(alpha_value(a0, a1, 6) == 0);
                assert(a == 0);
            } else if ai == 7 {
                assert(alpha_value(a0, a1, 7) == 255);
                assert(a == 255);
            } else {
                assert((6 - ai as int) * a0 + (ai as int - 1) * a1 <= 1275) by (nonlinear_arith)
                    requires
                        2 <= ai && ai <= 5 && a0 <= 255 && a1 <= 255,
                ;
                assert(alpha_value(a0, a1, ai as int) == (((6 - ai as int) * a0 + (ai as int - 1)
                    * a1) / 5) as u8);
                assert(a == ((6 - ai) * a0w + (ai - 1) * a1w) / 5);
            }
        }
        assert(a <= 255);
    }
    let ci = ((cbits >> ((2 * p) as u32)) & 3) as u32;
    let r0 = {
        let v = (c0 >> 11) & 31;
        (v << 3) | (v >> 2)
    };
    let g0 = {
        let v = (c0 >> 5) & 63;
        (v << 2) | (v >> 4)
    };
    let b0 = {
        let v = c0 & 31;
        (v << 3) | (v >> 2)
    };
    let r1 = {
        let v = (c1 >> 11) & 31;
        (v << 3) | (v >> 2)
    };
    let g1 = {
        let v = (c1 >> 5) & 63;
        (v << 2) | (v >> 4)
    };
    let b1 = {
        let v = c1 & 31;
        (v << 3) | (v >> 2)
    };
    proof {
        assert(r0 == red_of(c0) && g0 == green_of(c0) && b0 == blue_of(c0));
        assert(r1 == red_of(c1) && g1 == green_of(c1) && b1 == blue_of(c1));
        assert(r0 <= 255 && g0 <= 255 && b0 <= 255 && r1 <= 255 && g1 <= 255 && b1 <= 255) by (bit_vector)
            requires
                r0 == ((((c0 >> 11) & 31) << 3) | (((c0 >> 11) & 31) >> 2))
                    && g0 == ((((c0 >> 5) & 63) << 2) | (((c0 >> 5) & 63) >> 4))
                    && b0 == (((c0 & 31) << 3) | ((c0 & 31) >> 2))
                    && r1 == ((((c1 >> 11) & 31) << 3) | (((c1 >> 11) & 31) >> 2))
                    && g1 == ((((c1 >> 5) & 63) << 2) | (((c1 >> 5) & 63) >> 4))
                    && b1 == (((c1 & 31) << 3) | ((c1 & 31) >> 2)),
        ;
        assert(((cbits >> ((2 * p) as u32)) & 3) <= 3) by (bit_vector);
    }
    let rr: u32;
    let gg: u32;
    let bb: u32;
    if ci == 0 {
        rr = r0;
        gg = g0;
        bb = b0;
    } else if ci == 1 {
        rr = r1;
        gg = g1;
        bb = b1;
    } else if ci == 2 {
        rr = (2 * r0 + r1) / 3;
        gg = (2 * g0 + g1) / 3;
        bb = (2 * b0 + b1) / 3;
    } else {
        rr = (r0 + 2 * r1) / 3;
        gg = (g0 + 2 * g1) / 3;
        bb = (b0 + 2 * b1) / 3;
    }
    proof {
        assert(rr == palette_channel(red_of(c0), red_of(c1), ci as int));
        assert(gg == palette_channel(green_of(c0), green_of(c1), ci as int));
        assert(bb == palette_channel(blue_of(c0), blue_of(c1), ci as int));
        assert(3 * p <= 45 && 2 * p <= 30);
    }
    (rr as u8, gg as u8, bb as u8, a as u8)
}

/// The only pixel format the decoder accepts.
pub open spec fn dxt5_name() -> Seq<u8> {
    seq![80u8, 70u8, 95u8, 68u8, 88u8, 84u8, 53u8]
}

/// Checks a pixel-format name for the one supported format.
pub fn is_dxt5(pixel_format: &Vec<u8>) -> (r: bool)
    ensures
        r <==> pixel_format@ == dxt5_name(),
{
    let ok = pixel_format.len() == 7 && *pixel_format.get(0).unwrap() == 80
        && *pixel_format.get(1).unwrap() == 70 && *pixel_format.get(2).unwrap() == 95
        && *pixel_format.get(3).unwrap() == 68 && *pixel_format.get(4).unwrap() == 88
        && *pixel_format.get(5).unwrap() == 84 && *pixel_format.get(6).unwrap() == 53;
    proof {
        if ok {
            assert(pixel_format@ =~= dxt5_name());
        }
    }
    ok
}

/// Decodes a block-compressed texture into raw RGBA pixels. A pixel format
/// other than the supported one is an unsupported-format condition; a buffer
/// with fewer bytes than the block count requires is a structural violation.
#[verifier::spinoff_prover]
#[verifier::rlimit(100)]
pub fn decode_texture(pixel_format: &Vec<u8>, data: &[u8], width: u32, height: u32) -> (r: Result<
    DecodedImage,
    ParserError,
>)
    requires
        4 * (width as int) * (height as int) <= usize::MAX,
    ensures
        r is Ok <==> pixel_format@ == dxt5_name() && data@.len() >= 16 * blocks_across(
            width as int,
        ) * blocks_across(height as int),
        r is Ok ==> {
            let img = r->Ok_0;
            img.width == width && img.height == height && decoded_pixels_ok(
                img.pixels@,
                data@,
                width as int,
                height as int,
            )
        },
        r is Err ==> (r->Err_0 is Unsupported <==> !(pixel_format@ == dxt5_name())),
        r is Err ==> (r->Err_0 is Format <==> pixel_format@ == dxt5_name()),
{
    if !is_dxt5(pixel_format) {
        return Err(ParserError::Unsupported);
    }
    let bw = ((width as u64) + 3) / 4;
    let bh = ((height as u64) + 3) / 4;
    proof {
        assert(bw == blocks_across(width as int) && bh == blocks_across(height as int));
        assert((bw as u128) * (bh as u128) <= 0x4000_0000_0000_0000u128) by (nonlinear_arith)
            requires
                bw <= 0x4000_0000u64 && bh <= 0x4000_0000u64,
        ;
    }
    let need: u128 = 16u128 * ((bw as u128) * (bh as u128));
    if (data.len() as u128) < need {
        proof {
            assert(16 * (blocks_across(width as int) * blocks_across(height as int)) == 16
                * blocks_across(width as int) * blocks_across(height as int)) by (nonlinear_arith);
        }
        return Err(ParserError::Format);
    }
    proof {
        assert(16 * (blocks_across(width as int) * blocks_across(height as int)) == 16
            * blocks_across(width as int) * blocks_across(height as int)) by (nonlinear_arith);
    }
    let ghost w = width as int;
    let ghost h = height as int;
    let mut pixels: Vec<u8> = Vec::new();
    let mut y: u32 = 0;
    while y < height
        invariant
            y <= height,
            4 * w * h <= usize::MAX,
            w == width as int,
            h == height as int,
            data@.len() >= 16 * (blocks_across(w) * blocks_across(h)),
            pixels@.len() == 4 * ((y as int) * w),
            forall|i: int|
                0 <= i < y as int * w ==> {
                    let px = #[trigger] dxt5_pixel(data@, w, h, i % w, i / w);
                    pixels@[4 * i] == px.0 && pixels@[4 * i + 1] == px.1 && pixels@[4 * i + 2]
                        == px.2 && pixels@[4 * i + 3] == px.3
                },
        decreases height - y,
    {
        let mut x: u32 = 0;
        while x < width
            invariant
                y < height,
                x <= width,
                4 * w * h <= usize::MAX,
                w == width as int,
                h == height as int,
                data@.len() >= 16 * (blocks_across(w) * blocks_across(h)),
                pixels@.len() == 4 * ((y as int) * w + x as int),
                forall|i: int|
                    0 <= i < y as int * w + x as int ==> {
                        let px = #[trigger] dxt5_pixel(data@, w, h, i % w, i / w);
                        pixels@[4 * i] == px.0 && pixels@[4 * i + 1] == px.1 && pixels@[4 * i + 2]
                            == px.2 && pixels@[4 * i + 3] == px.3
                    },
            decreases width - x,
        {
            proof {
                assert((y as int / 4) * blocks_across(w) + x as int / 4 + 1 <= blocks_across(h)
                    * blocks_across(w)) by (nonlinear_arith)
                    requires
                        0 <= x as int && (x as int) < w && 0 <= y as int && (y as int) < h
                            && blocks_across(w) == (w + 3) / 4 && blocks_across(h) == (h + 3) / 4,
                ;
                assert(blocks_across(h) * blocks_across(w) == blocks_across(w) * blocks_across(h))
                    by (nonlinear_arith);
                assert(16 * ((y as int / 4) * blocks_across(w) + x as int / 4) + 16 <= 16 * (
                blocks_across(w) * blocks_across(h)));
                assert(4 * (y as int * w + x as int) + 4 <= 4 * w * h) by (nonlinear_arith)
                    requires
                        0 <= x as int && (x as int) < w && 0 <= y as int && (y as int) < h,
                ;
            }
            let px = dxt5_pixel_x(data, width, height, x, y);
            pixels.push(px.0);
            pixels.push(px.1);
            pixels.push(px.2);
            pixels.push(px.3);
            proof {
                let i0 = y as int * w + x as int;
                lemma_fundamental_div_mod_converse(i0, w, y as int, x as int);
                assert(i0 % w == x as int && i0 / w == y as int);
                assert forall|i: int| 0 <= i < i0 + 1 implies {
                    let px2 = #[trigger] dxt5_pixel(data@, w, h, i % w, i / w);
                    pixels@[4 * i] == px2.0 && pixels@[4 * i + 1] == px2.1 && pixels@[4 * i + 2]
                        == px2.2 && pixels@[4 * i + 3] == px2.3
                } by {
                    if i < i0 {
                        assert(4 * i + 3 < 4 * i0);
                    }
                }
            }
            x = x + 1;
        }
        proof {
            assert((y as int) * w + w == (y as int + 1) * w) by (nonlinear_arith);
            assert(pixels@.len() == 4 * ((y as int + 1) * w));
        }
        y = y + 1;
    }
    proof {
        assert(decoded_pixels_ok(pixels@, data@, w, h)) by {
            assert(4 * ((height as int) * w) == 4 * w * h) by (nonlinear_arith)
                requires
                    w == width as int && h == height as int,
            ;
            assert(h * w == w * h) by (nonlinear_arith);
        }
    }
    Ok(DecodedImage { width, height, pixels })
}

} // verus!
