//! Pixel conversion for rendered pages.
//!
//! Rendered pages arrive as premultiplied RGBA bytes; the platform
//! wants plain RGB.  A fully transparent pixel becomes white; any
//! other pixel is un-premultiplied, scaling each channel by the ratio
//! of full alpha to its own and saturating at full intensity.

use vstd::prelude::*;

verus! {

/// One un-premultiplied channel: `x * 255 / a`, saturated at 255.
pub open spec fn unmult(x: u8, a: u8) -> u8 {
    let v = (x as int * 255) / (a as int);
    if v > 255 {
        255u8
    } else {
        v as u8
    }
}

/// The RGB bytes for one RGBA chunk.
pub open spec fn chunk_rgb(r: u8, g: u8, b: u8, a: u8) -> Seq<u8> {
    if a == 0 {
        seq![255u8, 255u8, 255u8]
    } else {
        seq![unmult(r, a), unmult(g, a), unmult(b, a)]
    }
}

/// The RGB bytes for a whole premultiplied RGBA buffer, taken four
/// bytes at a time; a trailing fragment shorter than one pixel is
/// dropped.
pub open spec fn spec_rgb(pixels: Seq<u8>) -> Seq<u8>
    decreases pixels.len(),
{
    if pixels.len() < 4 {
        Seq::<u8>::empty()
    } else {
        chunk_rgb(pixels[0], pixels[1], pixels[2], pixels[3]) + spec_rgb(pixels.skip(4))
    }
}

/// Converts a premultiplied RGBA buffer to plain RGB, pixel by pixel.
pub fn rgba_to_rgb(pixels: &[u8]) -> (rgb: Vec<u8>)
    ensures
        rgb@ == spec_rgb(pixels@),
{
    let mut rgb: Vec<u8> = Vec::new();
    let n = pixels.len();
    let mut i: usize = 0;
    proof {
        assert(pixels@.skip(0) =~= pixels@);
        assert(rgb@ =~= Seq::<u8>::empty());
    }
    while i < n && n - i >= 4
        invariant
            n == pixels@.len(),
            i <= n,
            spec_rgb(pixels@) == rgb@ + spec_rgb(pixels@.skip(i as int)),
        decreases n - i,
    {
        let r = pixels[i];
        let g = pixels[i + 1];
        let b = pixels[i + 2];
        let a = pixels[i + 3];
        let ghost rest = pixels@.skip(i as int);
        proof {
            assert(rest[0] == pixels@[i as int]);
            assert(rest[1] == pixels@[i as int + 1]);
            assert(rest[2] == pixels@[i as int + 2]);
            assert(rest[3] == pixels@[i as int + 3]);
            assert(rest.skip(4) =~= pixels@.skip(i as int + 4));
        }
        let ghost before = rgb@;
        if a == 0 {
            rgb.push(255);
            rgb.push(255);
            rgb.push(255);
            proof {
                assert(rgb@ =~= before + chunk_rgb(r, g, b, a));
            }
        } else {
            let av = a as u32;
            let rv = ((r as u32) * 255) / av;
            let gv = ((g as u32) * 255) / av;
            let bv = ((b as u32) * 255) / av;
            let rc: u8 = if rv > 255 {
                255
            } else {
                rv as u8
            };
            let gc: u8 = if gv > 255 {
                255
            } else {
                gv as u8
            };
            let bc: u8 = if bv > 255 {
                255
            } else {
                bv as u8
            };
            rgb.push(rc);
            rgb.push(gc);
            rgb.push(bc);
            proof {
                assert(rc == unmult(r, a));
                assert(gc == unmult(g, a));
                assert(bc == unmult(b, a));
                assert(rgb@ =~= before + chunk_rgb(r, g, b, a));
            }
        }
        proof {
            assert(before + chunk_rgb(r, g, b, a) + spec_rgb(pixels@.skip(i as int + 4))
                =~= before + spec_rgb(rest));
        }
        i = i + 4;
    }
    proof {
        assert(spec_rgb(pixels@.skip(i as int)) =~= Seq::<u8>::empty());
    }
    rgb
}

} // verus!
