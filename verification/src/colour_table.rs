//! The 256-colour palette of xterm: sixteen system colours, a six-level
//! colour cube and a ramp of grays.
use vstd::prelude::*;
use crate::primitives::Rgb8;

verus! {

/// The sixteen system colours: the eight normal ones, then the eight bright ones.
pub open spec fn system_colour(index: nat) -> Rgb8 {
    if index == 0 { Rgb8 { r: 0x00, g: 0x00, b: 0x00 } }
    else if index == 1 { Rgb8 { r: 0xcd, g: 0x00, b: 0x00 } }
    else if index == 2 { Rgb8 { r: 0x00, g: 0xcd, b: 0x00 } }
    else if index == 3 { Rgb8 { r: 0xcd, g: 0xcd, b: 0x00 } }
    else if index == 4 { Rgb8 { r: 0x00, g: 0x00, b: 0xee } }
    else if index == 5 { Rgb8 { r: 0xcd, g: 0x00, b: 0xcd } }
    else if index == 6 { Rgb8 { r: 0x00, g: 0xcd, b: 0xcd } }
    else if index == 7 { Rgb8 { r: 0xe5, g: 0xe5, b: 0xe5 } }
    else if index == 8 { Rgb8 { r: 0x7f, g: 0x7f, b: 0x7f } }
    else if index == 9 { Rgb8 { r: 0xff, g: 0x00, b: 0x00 } }
    else if index == 10 { Rgb8 { r: 0x00, g: 0xff, b: 0x00 } }
    else if index == 11 { Rgb8 { r: 0xff, g: 0xff, b: 0x00 } }
    else if index == 12 { Rgb8 { r: 0x5c, g: 0x5c, b: 0xff } }
    else if index == 13 { Rgb8 { r: 0xff, g: 0x00, b: 0xff } }
    else if index == 14 { Rgb8 { r: 0x00, g: 0xff, b: 0xff } }
    else { Rgb8 { r: 0xff, g: 0xff, b: 0xff } }
}

/// Intensity of step `level` (of six) of the colour cube.
pub open spec fn cube_level(level: nat) -> u8 {
    if level == 0 { 0 } else { (55 + 40 * level) as u8 }
}

/// Colour `index` of the palette.
pub open spec fn xterm_colour_spec(index: nat) -> Rgb8 {
    if index < 16 {
        system_colour(index)
    } else if index < 232 {
        let k = (index - 16) as nat;
        Rgb8 { r: cube_level(k / 36), g: cube_level((k / 6) % 6), b: cube_level(k % 6) }
    } else {
        let v = (8 + 10 * (index - 232)) as u8;
        Rgb8 { r: v, g: v, b: v }
    }
}

fn cube_intensity(level: u8) -> (r: u8)
    requires
        level < 6,
    ensures
        r == cube_level(level as nat),
{
    if level == 0 { 0 } else { 55 + 40 * level }
}

/// Colour `index` of the palette.
pub fn xterm_colour(index: u8) -> (r: Rgb8)
    ensures
        r == xterm_colour_spec(index as nat),
{
    if index < 16 {
        match index {
            0 => Rgb8 { r: 0x00, g: 0x00, b: 0x00 },
            1 => Rgb8 { r: 0xcd, g: 0x00, b: 0x00 },
            2 => Rgb8 { r: 0x00, g: 0xcd, b: 0x00 },
            3 => Rgb8 { r: 0xcd, g: 0xcd, b: 0x00 },
            4 => Rgb8 { r: 0x00, g: 0x00, b: 0xee },
            5 => Rgb8 { r: 0xcd, g: 0x00, b: 0xcd },
            6 => Rgb8 { r: 0x00, g: 0xcd, b: 0xcd },
            7 => Rgb8 { r: 0xe5, g: 0xe5, b: 0xe5 },
            8 => Rgb8 { r: 0x7f, g: 0x7f, b: 0x7f },
            9 => Rgb8 { r: 0xff, g: 0x00, b: 0x00 },
            10 => Rgb8 { r: 0x00, g: 0xff, b: 0x00 },
            11 => Rgb8 { r: 0xff, g: 0xff, b: 0x00 },
            12 => Rgb8 { r: 0x5c, g: 0x5c, b: 0xff },
            13 => Rgb8 { r: 0xff, g: 0x00, b: 0xff },
            14 => Rgb8 { r: 0x00, g: 0xff, b: 0xff },
            _ => Rgb8 { r: 0xff, g: 0xff, b: 0xff },
        }
    } else if index < 232 {
        let k = index - 16;
        Rgb8 { r: cube_intensity(k / 36), g: cube_intensity((k / 6) % 6), b: cube_intensity(k % 6) }
    } else {
        let v = 8 + 10 * (index - 232);
        Rgb8 { r: v, g: v, b: v }
    }
}

/// The whole palette, colour `i` at index `i`.
pub fn xterm_colour_table() -> (r: Vec<Rgb8>)
    ensures
        r@.len() == 256,
        forall|i: int| 0 <= i < 256 ==> #[trigger] r@[i] == xterm_colour_spec(i as nat),
{
    let mut table: Vec<Rgb8> = Vec::with_capacity(256);
    let mut i: usize = 0;
    while i < 256
        invariant
            i <= 256,
            table@.len() == i,
            forall|k: int| 0 <= k < i ==> #[trigger] table@[k] == xterm_colour_spec(k as nat),
        decreases 256 - i,
    {
        table.push(xterm_colour(i as u8));
        i = i + 1;
    }
    table
}

} // verus!
