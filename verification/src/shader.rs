use crate::vertex::Vertex;
use vstd::prelude::*;

verus! {

/// The denominator of every channel of a `Fragment`: 255 for a colour byte
/// times 765 for the sum of three texel bytes.
pub const FRAGMENT_UNIT: u32 = 195075;

/// The colour of one pixel as the fragment stage puts it out. Every channel is
/// a numerator over `FRAGMENT_UNIT`.
#[derive(Clone, Copy, Debug, PartialEq, Eq)]
pub struct Fragment {
    pub color: [u32; 3],
    pub alpha: u32,
}

/// The mean of a texel's three channels, over `FRAGMENT_UNIT`.
pub open spec fn luminance(texel: [u8; 3]) -> int {
    255 * (texel[0] + texel[1] + texel[2])
}

/// One tinted channel, over `FRAGMENT_UNIT`: the background plus the
/// luminance times the step from the background to the foreground.
pub open spec fn tinted(fg: u8, bg: u8, texel: [u8; 3]) -> int {
    765 * bg + (texel[0] + texel[1] + texel[2]) * (fg - bg)
}

/// One channel of the texel itself, over `FRAGMENT_UNIT`.
pub open spec fn passed_through(value: u8) -> int {
    765 * value
}

/// The fragment that a texel gives on a quad with the attributes of `v`.
/// Tinted: every channel goes from the background to the foreground by the
/// texel's luminance; on layer 0 the pixel is opaque, on an overlay its alpha
/// is the luminance. True colour: the texel as it is, opaque.
pub open spec fn shaded(v: Vertex, texel: [u8; 3]) -> Fragment {
    if v.use_true_color {
        Fragment {
            color: [
                passed_through(texel[0]) as u32,
                passed_through(texel[1]) as u32,
                passed_through(texel[2]) as u32,
            ],
            alpha: FRAGMENT_UNIT,
        }
    } else {
        Fragment {
            color: [
                tinted(v.fg[0], v.bg[0], texel) as u32,
                tinted(v.fg[1], v.bg[1], texel) as u32,
                tinted(v.fg[2], v.bg[2], texel) as u32,
            ],
            alpha: if v.layer > 0 {
                luminance(texel) as u32
            } else {
                FRAGMENT_UNIT
            },
        }
    }
}

/// A tinted channel lies between 0 and `FRAGMENT_UNIT`.
pub proof fn lemma_tinted_bounds(fg: u8, bg: u8, texel: [u8; 3])
    ensures
        0 <= tinted(fg, bg, texel) <= FRAGMENT_UNIT,
        tinted(fg, bg, texel) == bg * (765 - (texel[0] + texel[1] + texel[2])) + fg * (texel[0]
            + texel[1] + texel[2]),
{
    let s = texel[0] + texel[1] + texel[2];
    assert(765 * bg + s * (fg - bg) == bg * (765 - s) + fg * s) by (nonlinear_arith);
    assert(0 <= bg * (765 - s) <= 255 * (765 - s) && 0 <= fg * s <= 255 * s) by (nonlinear_arith)
        requires
            0 <= s <= 765,
            0 <= bg <= 255,
            0 <= fg <= 255,
    ;
}

/// Tinting white on black gives the texel's luminance on every channel. The
/// pixel is opaque on layer 0, and on an overlay its alpha is the luminance.
pub proof fn lemma_tint_white_on_black(v: Vertex, texel: [u8; 3])
    requires
        !v.use_true_color,
        v.fg[0] == 255 && v.fg[1] == 255 && v.fg[2] == 255,
        v.bg[0] == 0 && v.bg[1] == 0 && v.bg[2] == 0,
    ensures
        shaded(v, texel).color[0] == luminance(texel),
        shaded(v, texel).color[1] == luminance(texel),
        shaded(v, texel).color[2] == luminance(texel),
        v.layer == 0 ==> shaded(v, texel).alpha == FRAGMENT_UNIT,
        v.layer > 0 ==> shaded(v, texel).alpha == luminance(texel),
{
    lemma_tinted_bounds(v.fg[0], v.bg[0], texel);
    lemma_tinted_bounds(v.fg[1], v.bg[1], texel);
    lemma_tinted_bounds(v.fg[2], v.bg[2], texel);
}

/// One tinted channel.
fn tint(fg: u8, bg: u8, sum: u32) -> (channel: u32)
    requires
        sum <= 765,
    ensures
        channel == bg * (765 - sum) + fg * sum,
        channel <= FRAGMENT_UNIT,
{
    assert(0 <= bg * (765 - sum) <= 255 * (765 - sum) && 0 <= fg * sum <= 255 * sum)
        by (nonlinear_arith)
        requires
            0 <= sum <= 765,
            0 <= bg <= 255,
            0 <= fg <= 255,
    ;
    bg as u32 * (765 - sum) + fg as u32 * sum
}

/// The colour that the fragment stage gives a pixel of a quad with the
/// attributes of `v`, where the texture holds `texel`.
pub fn shade(v: &Vertex, texel: [u8; 3]) -> (fragment: Fragment)
    ensures
        fragment == shaded(*v, texel),
{
    if v.use_true_color {
        Fragment {
            color: [765 * texel[0] as u32, 765 * texel[1] as u32, 765 * texel[2] as u32],
            alpha: FRAGMENT_UNIT,
        }
    } else {
        let sum: u32 = texel[0] as u32 + texel[1] as u32 + texel[2] as u32;
        proof {
            lemma_tinted_bounds(v.fg[0], v.bg[0], texel);
            lemma_tinted_bounds(v.fg[1], v.bg[1], texel);
            lemma_tinted_bounds(v.fg[2], v.bg[2], texel);
        }
        Fragment {
            color: [
                tint(v.fg[0], v.bg[0], sum),
                tint(v.fg[1], v.bg[1], sum),
                tint(v.fg[2], v.bg[2], sum),
            ],
            alpha: if v.layer > 0 {
                255 * sum
            } else {
                FRAGMENT_UNIT
            },
        }
    }
}

} // verus!
