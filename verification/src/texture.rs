//! The average colour of an embedded texture image: the image is decoded to
//! 8-bit RGB, and about 4096 of its pixels are sampled evenly; this computes
//! the channel sums and the number of samples, whose quotients the caller
//! takes in floating point.
use vstd::prelude::*;

verus! {

/// What `image::load_from_memory(bytes)` followed by `to_rgb8` yields: the
/// width, the height and the RGB bytes of the decoded image, row by row; or
/// none when the bytes do not decode.
pub uninterp spec fn decoded_rgb8(bytes: Seq<u8>) -> Option<(u32, u32, Seq<u8>)>;

/// `image::load_from_memory`, then `DynamicImage::to_rgb8`, `dimensions` and
/// `into_raw`: the decoded image as named by [`decoded_rgb8`]. The buffer of
/// an `image::ImageBuffer` always holds at least three bytes per pixel.
#[verifier::external_body]
fn decode_rgb8(bytes: &[u8]) -> (r: Option<(u32, u32, Vec<u8>)>)
    ensures
        match r {
            Some((w, h, px)) => decoded_rgb8(bytes@) == Some((w, h, px@)) && px@.len() >= 3 * w * h,
            None => decoded_rgb8(bytes@) is None,
        },
{
    image::load_from_memory(bytes).ok().map(|img| {
        let rgb = img.to_rgb8();
        let (w, h) = rgb.dimensions();
        (w, h, rgb.into_raw())
    })
}

/// The distance between sampled pixels of a `w` by `h` image: one 4096th of
/// the pixels, and at least one.
pub open spec fn sample_step(w: u32, h: u32) -> nat {
    let q = ((w as nat) * (h as nat)) / 4096;
    if q >= 1 {
        q
    } else {
        1
    }
}

/// Whether pixel `i` is sampled.
pub open spec fn sampled(i: nat, step: nat) -> bool {
    i % step == 0
}

/// The sum of channel `c` over the sampled pixels among the first `k`.
pub open spec fn channel_total(px: Seq<u8>, step: nat, c: int, k: nat) -> nat
    decreases k,
{
    if k == 0 {
        0
    } else {
        channel_total(px, step, c, (k - 1) as nat) + if sampled((k - 1) as nat, step) {
            px[3 * (k - 1) + c] as nat
        } else {
            0
        }
    }
}

/// The number of sampled pixels among the first `k`.
pub open spec fn sample_count(step: nat, k: nat) -> nat
    decreases k,
{
    if k == 0 {
        0
    } else {
        sample_count(step, (k - 1) as nat) + if sampled((k - 1) as nat, step) {
            1nat
        } else {
            0
        }
    }
}

/// The red, green and blue sums over the sampled pixels of a `w` by `h` image
/// with bytes `px`, and the number of samples; none for an empty image.
pub open spec fn texture_sums(w: u32, h: u32, px: Seq<u8>) -> Option<(nat, nat, nat, nat)> {
    let p = (w as nat) * (h as nat);
    let s = sample_step(w, h);
    if w == 0 || h == 0 || sample_count(s, p) == 0 {
        None
    } else {
        Some((channel_total(px, s, 0, p), channel_total(px, s, 1, p), channel_total(px, s, 2, p), sample_count(s, p)))
    }
}

/// The sums of [`texture_sums`] as plain numbers.
pub open spec fn sums_view(r: Option<(u128, u128, u128, u64)>) -> Option<(nat, nat, nat, nat)> {
    match r {
        Some((a, b, c, n)) => Some((a as nat, b as nat, c as nat, n as nat)),
        None => None,
    }
}

proof fn lemma_totals_bounded(px: Seq<u8>, step: nat, k: nat)
    ensures
        channel_total(px, step, 0, k) <= 255 * k,
        channel_total(px, step, 1, k) <= 255 * k,
        channel_total(px, step, 2, k) <= 255 * k,
        sample_count(step, k) <= k,
    decreases k,
{
    if k > 0 {
        lemma_totals_bounded(px, step, (k - 1) as nat);
    }
}

/// The channel sums and sample count of the image `rgb`, `w` pixels wide and
/// `h` high (see [`texture_sums`]).
pub fn sample_sums(w: u32, h: u32, rgb: &Vec<u8>) -> (r: Option<(u128, u128, u128, u64)>)
    requires
        rgb@.len() >= 3 * w * h,
    ensures
        sums_view(r) == texture_sums(w, h, rgb@),
{
    if w == 0 || h == 0 {
        return None;
    }
    assert((w as u64) * (h as u64) <= 0xFFFF_FFFE_0000_0001u64) by (nonlinear_arith)
        requires
            w <= 0xFFFF_FFFFu32,
            h <= 0xFFFF_FFFFu32,
    ;
    assert(3 * w * h == 3 * ((w as nat) * (h as nat))) by (nonlinear_arith);
    let p: u64 = (w as u64) * (h as u64);
    let q: u64 = p / 4096;
    let step: u64 = if q >= 1 {
        q
    } else {
        1
    };
    let ghost s = sample_step(w, h);
    assert(step == s);
    let mut sr: u128 = 0;
    let mut sg: u128 = 0;
    let mut sb: u128 = 0;
    let mut n: u64 = 0;
    let mut i: u64 = 0;
    while i < p
        invariant
            p == (w as nat) * (h as nat),
            rgb@.len() >= 3 * p,
            step == s,
            step >= 1,
            i <= p,
            sr == channel_total(rgb@, s, 0, i as nat),
            sg == channel_total(rgb@, s, 1, i as nat),
            sb == channel_total(rgb@, s, 2, i as nat),
            n == sample_count(s, i as nat),
        decreases p - i,
    {
        proof {
            lemma_totals_bounded(rgb@, s, i as nat);
        }
        if i % step == 0 {
            assert(3 * i + 2 < rgb@.len());
            assert(rgb@.len() == rgb.len());
            let k: usize = 3 * (i as usize);
            sr = sr + rgb[k] as u128;
            sg = sg + rgb[k + 1] as u128;
            sb = sb + rgb[k + 2] as u128;
            n = n + 1;
        }
        i = i + 1;
    }
    if n == 0 {
        return None;
    }
    Some((sr, sg, sb, n))
}

/// The channel sums and sample count of an embedded texture image, or none
/// when its bytes do not decode or it has no pixels.
pub fn texture_channel_sums(bytes: &[u8]) -> (r: Option<(u128, u128, u128, u64)>)
    ensures
        match decoded_rgb8(bytes@) {
            Some((w, h, px)) => sums_view(r) == texture_sums(w, h, px),
            None => r is None,
        },
{
    match decode_rgb8(bytes) {
        Some((w, h, px)) => sample_sums(w, h, &px),
        None => None,
    }
}

} // verus!
