//! Color scaling for the display collaborator: 8-bit RGB components
//! widened to the 16-bit-per-channel values color allocation expects.

use vstd::prelude::*;

verus! {

/// Split a 24-bit `0xRRGGBB` color into 16-bit red, green and blue
/// components: each 8-bit component is scaled by 0x101, so 0x00 maps to
/// 0x0000 and 0xFF maps to 0xFFFF exactly.
pub fn color_components(rgb: u32) -> (r: (u16, u16, u16))
    requires
        rgb <= 0xFFFFFF,
    ensures
        r.0 == (rgb as int / 0x10000) * 0x101,
        r.1 == ((rgb as int / 0x100) % 0x100) * 0x101,
        r.2 == (rgb as int % 0x100) * 0x101,
{
    let red = ((rgb / 0x10000) * 0x101) as u16;
    let green = ((rgb / 0x100 % 0x100) * 0x101) as u16;
    let blue = ((rgb % 0x100) * 0x101) as u16;
    (red, green, blue)
}

} // verus!
