//! Color arithmetic for avatars: the backend hands accent colors as one
//! packed integer; the UI wants the three channels. The host wraps the
//! triple into its toolkit's color type.

use vstd::prelude::*;

verus! {

/// The red, green and blue channels of a packed `0x00RRGGBB` value, in
/// that order; the top byte is ignored.
pub fn color_from_u32(v: u32) -> (r: (u8, u8, u8))
    ensures
        r.0 == (v >> 16) & 0xff,
        r.1 == (v >> 8) & 0xff,
        r.2 == v & 0xff,
{
    let b = (0b0000_0000_0000_0000_0000_0000_1111_1111u32 & v) as u8;
    let g = ((0b0000_0000_0000_0000_1111_1111_0000_0000u32 & v) >> 8) as u8;
    let r = ((0b0000_0000_1111_1111_0000_0000_0000_0000u32 & v) >> 16) as u8;
    proof {
        assert(r == (v >> 16) & 0xff && g == (v >> 8) & 0xff && b == v & 0xff) by (bit_vector)
            requires
                r == ((0b0000_0000_1111_1111_0000_0000_0000_0000u32 & v) >> 16) as u8,
                g == ((0b0000_0000_0000_0000_1111_1111_0000_0000u32 & v) >> 8) as u8,
                b == (0b0000_0000_0000_0000_0000_0000_1111_1111u32 & v) as u8,
        ;
    }
    (r, g, b)
}

} // verus!
