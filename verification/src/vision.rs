//! Integer statistics of a grayscale frame used by the frame quality check.
use vstd::prelude::*;

verus! {

/// Pixels at or below this value count as dark.
pub const DARK_LUMA: u8 = 32;

/// Pixels at or above this value count as bright.
pub const BRIGHT_LUMA: u8 = 224;

/// The smallest and largest pixel value, and how many pixels are dark and
/// how many bright.
#[derive(Debug, Clone, Copy, PartialEq, Eq, Structural)]
pub struct LumaCounts {
    pub min_luma: u8,
    pub max_luma: u8,
    pub dark_pixels: usize,
    pub bright_pixels: usize,
}

/// The counts over `pixels`; an empty frame has minimum 255 and maximum 0.
pub open spec fn luma_counts_spec(pixels: Seq<u8>) -> LumaCounts
    decreases pixels.len(),
{
    if pixels.len() == 0 {
        LumaCounts { min_luma: 255, max_luma: 0, dark_pixels: 0, bright_pixels: 0 }
    } else {
        let c = luma_counts_spec(pixels.drop_last());
        let p = pixels.last();
        LumaCounts {
            min_luma: if p < c.min_luma {
                p
            } else {
                c.min_luma
            },
            max_luma: if p > c.max_luma {
                p
            } else {
                c.max_luma
            },
            dark_pixels: (c.dark_pixels + if p <= DARK_LUMA {
                1int
            } else {
                0int
            }) as usize,
            bright_pixels: (c.bright_pixels + if p >= BRIGHT_LUMA {
                1int
            } else {
                0int
            }) as usize,
        }
    }
}

proof fn lemma_counts_bounded(pixels: Seq<u8>)
    ensures
        luma_counts_spec(pixels).dark_pixels <= pixels.len(),
        luma_counts_spec(pixels).bright_pixels <= pixels.len(),
        pixels.len() > 0 ==> exists|i: int|
            0 <= i < pixels.len() && pixels[i] == luma_counts_spec(pixels).min_luma,
        pixels.len() > 0 ==> exists|i: int|
            0 <= i < pixels.len() && pixels[i] == luma_counts_spec(pixels).max_luma,
        forall|i: int|
            0 <= i < pixels.len() ==> luma_counts_spec(pixels).min_luma <= #[trigger] pixels[i]
                <= luma_counts_spec(pixels).max_luma,
    decreases pixels.len(),
{
    if pixels.len() > 0 {
        let t = pixels.drop_last();
        lemma_counts_bounded(t);
        assert forall|i: int|
            0 <= i < pixels.len() implies luma_counts_spec(pixels).min_luma <= #[trigger] pixels[i]
            <= luma_counts_spec(pixels).max_luma by {
            if i < t.len() {
                assert(pixels[i] == t[i]);
            }
        }
        if t.len() > 0 {
            let c = luma_counts_spec(t);
            let j = choose|j: int| 0 <= j < t.len() && t[j] == c.min_luma;
            let k = choose|k: int| 0 <= k < t.len() && t[k] == c.max_luma;
            assert(pixels[j] == t[j]);
            assert(pixels[k] == t[k]);
            assert(pixels[pixels.len() - 1] == pixels.last());
        } else {
            assert(pixels[0] == pixels.last());
        }
    }
}

/// The smallest and largest pixel value of a frame, and how many pixels
/// are dark (at most 32) and how many bright (at least 224).
pub fn luma_counts(pixels: &[u8]) -> (c: LumaCounts)
    ensures
        c == luma_counts_spec(pixels@),
        pixels@.len() > 0 ==> exists|i: int| 0 <= i < pixels@.len() && pixels@[i] == c.min_luma,
        pixels@.len() > 0 ==> exists|i: int| 0 <= i < pixels@.len() && pixels@[i] == c.max_luma,
        forall|i: int| 0 <= i < pixels@.len() ==> c.min_luma <= #[trigger] pixels@[i] <= c.max_luma,
        c.dark_pixels <= pixels@.len(),
        c.bright_pixels <= pixels@.len(),
{
    let mut c = LumaCounts { min_luma: 255, max_luma: 0, dark_pixels: 0, bright_pixels: 0 };
    let mut i: usize = 0;
    while i < pixels.len()
        invariant
            i <= pixels@.len(),
            c == luma_counts_spec(pixels@.subrange(0, i as int)),
        decreases pixels@.len() - i,
    {
        let ghost prefix = pixels@.subrange(0, i + 1);
        assert(prefix.drop_last() =~= pixels@.subrange(0, i as int));
        proof {
            lemma_counts_bounded(pixels@.subrange(0, i as int));
        }
        let p = pixels[i];
        if p < c.min_luma {
            c.min_luma = p;
        }
        if p > c.max_luma {
            c.max_luma = p;
        }
        if p <= DARK_LUMA {
            c.dark_pixels = c.dark_pixels + 1;
        }
        if p >= BRIGHT_LUMA {
            c.bright_pixels = c.bright_pixels + 1;
        }
        i = i + 1;
    }
    assert(pixels@.subrange(0, pixels@.len() as int) =~= pixels@);
    proof {
        lemma_counts_bounded(pixels@);
    }
    c
}

} // verus!
