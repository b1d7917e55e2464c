//! Colours of the stars of the space-flight animation.
use vstd::prelude::*;

verus! {

/// The colour of a star: white, or, when shifted, white shifted by
/// `shift_sample % 150` towards blue (red and green lowered) or towards red
/// (green and blue lowered).
pub open spec fn star_rgb(shifted: bool, shift_sample: u8, toward_blue: bool) -> (u8, u8, u8) {
    let shift = (shift_sample % 150) as u8;
    if !shifted {
        (255, 255, 255)
    } else if toward_blue {
        ((255 - shift) as u8, (255 - shift) as u8, 255)
    } else {
        (255, (255 - shift) as u8, (255 - shift) as u8)
    }
}

/// The colour of a star from its random draws: whether it is shifted, the
/// raw shift sample, and the direction of the shift.
pub fn star_color(shifted: bool, shift_sample: u8, toward_blue: bool) -> (rgb: (u8, u8, u8))
    ensures
        rgb == star_rgb(shifted, shift_sample, toward_blue),
{
    let mut color: (u8, u8, u8) = (255, 255, 255);
    if shifted {
        let shift = shift_sample % 150;
        if toward_blue {
            color.0 = 255 - shift;
            color.1 = 255 - shift;
            color.2 = 255;
        } else {
            color.0 = 255;
            color.1 = 255 - shift;
            color.2 = 255 - shift;
        }
    }
    color
}

/// An unshifted star is white, whatever the other draws. A star shifted
/// towards blue keeps full blue and has red and green both lowered by
/// `shift_sample % 150`; a star shifted towards red keeps full red and has
/// green and blue both lowered by that amount.
pub proof fn lemma_star_color_shift(shifted: bool, shift_sample: u8, toward_blue: bool)
    ensures
        !shifted ==> star_rgb(shifted, shift_sample, toward_blue) == (255u8, 255u8, 255u8),
        shifted && toward_blue ==> star_rgb(shifted, shift_sample, toward_blue).2 == 255 && star_rgb(
            shifted,
            shift_sample,
            toward_blue,
        ).0 + shift_sample % 150 == 255 && star_rgb(shifted, shift_sample, toward_blue).1 + shift_sample % 150
            == 255,
        shifted && !toward_blue ==> star_rgb(shifted, shift_sample, toward_blue).0 == 255 && star_rgb(
            shifted,
            shift_sample,
            toward_blue,
        ).1 + shift_sample % 150 == 255 && star_rgb(shifted, shift_sample, toward_blue).2 + shift_sample % 150
            == 255,
{
}

/// A shifted star keeps one channel at full intensity and never drops the
/// others below 106.
pub proof fn lemma_star_color_range(shifted: bool, shift_sample: u8, toward_blue: bool)
    ensures
        ({
            let c = star_rgb(shifted, shift_sample, toward_blue);
            c.0 >= 106 && c.1 >= 106 && c.2 >= 106 && (c.0 == 255 || c.2 == 255)
        }),
{
}

} // verus!
