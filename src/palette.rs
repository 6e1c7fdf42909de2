//! The colour ramp that turns a heat intensity into a display colour.
use vstd::prelude::*;

verus! {

/// Number of entries in the colour ramp; intensities run from 0 to one less.
pub const PALETTE_SIZE: usize = 37;

/// The hottest intensity, shown as white.
pub const MAX_INTENSITY: u8 = 36;

/// An opaque colour with 8-bit channels.
#[derive(Clone, Copy, Debug, PartialEq, Eq, Structural)]
pub struct Rgb {
    pub r: u8,
    pub g: u8,
    pub b: u8,
}

pub open spec fn rgb(r: u8, g: u8, b: u8) -> Rgb {
    Rgb { r, g, b }
}

/// The ramp, from near-black through reds and yellows to white: the classic
/// blackbody-like fire palette.
pub open spec fn palette_rgb(i: int) -> Rgb {
    if i == 0 {
        rgb(7, 7, 7)
    } else if i == 1 {
        rgb(31, 7, 7)
    } else if i == 2 {
        rgb(47, 15, 7)
    } else if i == 3 {
        rgb(71, 15, 7)
    } else if i == 4 {
        rgb(87, 23, 7)
    } else if i == 5 {
        rgb(103, 31, 7)
    } else if i == 6 {
        rgb(119, 31, 7)
    } else if i == 7 {
        rgb(143, 39, 7)
    } else if i == 8 {
        rgb(159, 47, 7)
    } else if i == 9 {
        rgb(175, 63, 7)
    } else if i == 10 {
        rgb(191, 71, 7)
    } else if i == 11 {
        rgb(199, 71, 7)
    } else if i == 12 {
        rgb(223, 79, 7)
    } else if i == 13 {
        rgb(223, 87, 7)
    } else if i == 14 {
        rgb(223, 87, 7)
    } else if i == 15 {
        rgb(215, 95, 7)
    } else if i == 16 {
        rgb(215, 95, 7)
    } else if i == 17 {
        rgb(215, 103, 15)
    } else if i == 18 {
        rgb(207, 111, 15)
    } else if i == 19 {
        rgb(207, 119, 15)
    } else if i == 20 {
        rgb(207, 127, 15)
    } else if i == 21 {
        rgb(207, 135, 23)
    } else if i == 22 {
        rgb(199, 135, 23)
    } else if i == 23 {
        rgb(199, 143, 23)
    } else if i == 24 {
        rgb(199, 151, 31)
    } else if i == 25 {
        rgb(191, 159, 31)
    } else if i == 26 {
        rgb(191, 159, 31)
    } else if i == 27 {
        rgb(191, 167, 39)
    } else if i == 28 {
        rgb(191, 167, 39)
    } else if i == 29 {
        rgb(191, 175, 47)
    } else if i == 30 {
        rgb(183, 175, 47)
    } else if i == 31 {
        rgb(183, 183, 47)
    } else if i == 32 {
        rgb(183, 183, 55)
    } else if i == 33 {
        rgb(207, 207, 111)
    } else if i == 34 {
        rgb(223, 223, 159)
    } else if i == 35 {
        rgb(239, 239, 199)
    } else {
        rgb(255, 255, 255)
    }
}

/// Sum of the three channels, used to compare how bright two entries are.
pub open spec fn brightness(c: Rgb) -> int {
    c.r + c.g + c.b
}

/// The colour of a heat intensity.
pub fn color_of(intensity: u8) -> (c: Rgb)
    requires
        intensity <= MAX_INTENSITY,
    ensures
        c == palette_rgb(intensity as int),
{
    match intensity {
        0 => Rgb { r: 7, g: 7, b: 7 },
        1 => Rgb { r: 31, g: 7, b: 7 },
        2 => Rgb { r: 47, g: 15, b: 7 },
        3 => Rgb { r: 71, g: 15, b: 7 },
        4 => Rgb { r: 87, g: 23, b: 7 },
        5 => Rgb { r: 103, g: 31, b: 7 },
        6 => Rgb { r: 119, g: 31, b: 7 },
        7 => Rgb { r: 143, g: 39, b: 7 },
        8 => Rgb { r: 159, g: 47, b: 7 },
        9 => Rgb { r: 175, g: 63, b: 7 },
        10 => Rgb { r: 191, g: 71, b: 7 },
        11 => Rgb { r: 199, g: 71, b: 7 },
        12 => Rgb { r: 223, g: 79, b: 7 },
        13 => Rgb { r: 223, g: 87, b: 7 },
        14 => Rgb { r: 223, g: 87, b: 7 },
        15 => Rgb { r: 215, g: 95, b: 7 },
        16 => Rgb { r: 215, g: 95, b: 7 },
        17 => Rgb { r: 215, g: 103, b: 15 },
        18 => Rgb { r: 207, g: 111, b: 15 },
        19 => Rgb { r: 207, g: 119, b: 15 },
        20 => Rgb { r: 207, g: 127, b: 15 },
        21 => Rgb { r: 207, g: 135, b: 23 },
        22 => Rgb { r: 199, g: 135, b: 23 },
        23 => Rgb { r: 199, g: 143, b: 23 },
        24 => Rgb { r: 199, g: 151, b: 31 },
        25 => Rgb { r: 191, g: 159, b: 31 },
        26 => Rgb { r: 191, g: 159, b: 31 },
        27 => Rgb { r: 191, g: 167, b: 39 },
        28 => Rgb { r: 191, g: 167, b: 39 },
        29 => Rgb { r: 191, g: 175, b: 47 },
        30 => Rgb { r: 183, g: 175, b: 47 },
        31 => Rgb { r: 183, g: 183, b: 47 },
        32 => Rgb { r: 183, g: 183, b: 55 },
        33 => Rgb { r: 207, g: 207, b: 111 },
        34 => Rgb { r: 223, g: 223, b: 159 },
        35 => Rgb { r: 239, g: 239, b: 199 },
        _ => Rgb { r: 255, g: 255, b: 255 },
    }
}

/// The whole ramp as a vector, entry `i` being the colour of intensity `i`.
pub fn palette() -> (p: Vec<Rgb>)
    ensures
        p@.len() == PALETTE_SIZE,
        forall|i: int| 0 <= i < PALETTE_SIZE ==> #[trigger] p@[i] == palette_rgb(i),
{
    let mut p: Vec<Rgb> = Vec::new();
    let mut i: u8 = 0;
    while i <= MAX_INTENSITY
        invariant
            i <= MAX_INTENSITY + 1,
            p@.len() == i,
            forall|j: int| 0 <= j < i ==> #[trigger] p@[j] == palette_rgb(j),
        decreases MAX_INTENSITY + 1 - i,
    {
        p.push(color_of(i));
        i = i + 1;
    }
    p
}

/// Every intensity from 0 to 36 has a colour; intensity 0 is the darkest
/// entry of the ramp and the hottest intensity is pure white.
pub proof fn lemma_palette_ends()
    ensures
        forall|i: int| 0 <= i <= MAX_INTENSITY ==> brightness(#[trigger] palette_rgb(i)) >= brightness(palette_rgb(0)),
        palette_rgb(0) == rgb(7, 7, 7),
        palette_rgb(MAX_INTENSITY as int) == rgb(255, 255, 255),
{
}

} // verus!
