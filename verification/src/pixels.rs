//! Pixel layout conversion for decoded images handed to the GPU.
use vstd::prelude::*;

verus! {

/// Number of whole three-byte pixels in an RGB buffer of `len` bytes.
pub open spec fn rgb_pixel_count(len: nat) -> nat {
    len / 3
}

/// Expands packed RGB pixels to RGBA, each pixel fully opaque: pixel `p`
/// of the result holds the three colour bytes of pixel `p` of `rgb`
/// followed by an alpha of 255. Trailing bytes that do not make a whole
/// pixel are ignored.
pub fn rgb_to_rgba(rgb: &[u8]) -> (out: Vec<u8>)
    requires
        rgb@.len() / 3 * 4 <= usize::MAX,
    ensures
        out@.len() == 4 * rgb_pixel_count(rgb@.len()),
        forall|p: int, c: int|
            0 <= p < rgb_pixel_count(rgb@.len()) && 0 <= c < 3 ==> #[trigger] out@[4 * p + c]
                == rgb@[3 * p + c],
        forall|p: int| 0 <= p < rgb_pixel_count(rgb@.len()) ==> #[trigger] out@[4 * p + 3] == 255,
{
    let n = rgb.len() / 3;
    let mut out: Vec<u8> = Vec::new();
    let mut i: usize = 0;
    while i < n
        invariant
            n == rgb@.len() / 3,
            n * 4 <= usize::MAX,
            i <= n,
            out@.len() == 4 * i,
            forall|p: int, c: int| 0 <= p < i && 0 <= c < 3 ==> #[trigger] out@[4 * p + c] == rgb@[3 * p + c],
            forall|p: int| 0 <= p < i ==> #[trigger] out@[4 * p + 3] == 255,
        decreases n - i,
    {
        let base = 3 * i;
        let ghost before = out@;
        out.push(rgb[base]);
        out.push(rgb[base + 1]);
        out.push(rgb[base + 2]);
        out.push(255);
        assert forall|p: int, c: int| 0 <= p < i + 1 && 0 <= c < 3 implies #[trigger] out@[4 * p + c]
            == rgb@[3 * p + c] by {
            if p < i {
                assert(out@[4 * p + c] == before[4 * p + c]);
            }
        }
        assert forall|p: int| 0 <= p < i + 1 implies #[trigger] out@[4 * p + 3] == 255 by {
            if p < i {
                assert(out@[4 * p + 3] == before[4 * p + 3]);
            }
        }
        i = i + 1;
    }
    out
}

} // verus!
