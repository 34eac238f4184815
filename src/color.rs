use vstd::prelude::*;

verus! {

/// An 8-bit RGBA color. Vertex and texture colors use premultiplied alpha.
#[derive(Clone, Copy, Debug, PartialEq, Eq, Structural)]
pub struct Color32 {
    pub r: u8,
    pub g: u8,
    pub b: u8,
    pub a: u8,
}

/// One premultiplied channel divided by alpha and re-quantized to 8 bits.
/// A zero alpha gives zero; a channel larger than its alpha saturates.
pub open spec fn straight_channel(c: int, a: int) -> int {
    if a == 0 {
        0
    } else if c >= a {
        255
    } else {
        c * 255 / a
    }
}

/// The straight-alpha form of a premultiplied color.
pub open spec fn straight_spec(c: Color32) -> Color32 {
    Color32 {
        r: straight_channel(c.r as int, c.a as int) as u8,
        g: straight_channel(c.g as int, c.a as int) as u8,
        b: straight_channel(c.b as int, c.a as int) as u8,
        a: c.a,
    }
}

fn straight_channel_exec(c: u8, a: u8) -> (r: u8)
    ensures
        r as int == straight_channel(c as int, a as int),
{
    if a == 0 {
        0
    } else if c >= a {
        255
    } else {
        let n: u32 = (c as u32) * 255;
        proof {
            let ci = c as int;
            let ai = a as int;
            assert(ci * 255 < ai * 255) by (nonlinear_arith)
                requires
                    ci < ai,
            ;
            assert(ci * 255 / ai < 255) by (nonlinear_arith)
                requires
                    ci * 255 < ai * 255,
                    ai > 0,
                    ci >= 0,
            ;
        }
        (n / (a as u32)) as u8
    }
}

impl Color32 {
    /// Converts a premultiplied color to straight alpha, without dividing by a zero alpha.
    pub fn to_straight(self) -> (r: Color32)
        ensures
            r == straight_spec(self),
            self.a == 0 ==> r == (Color32 { r: 0, g: 0, b: 0, a: 0 }),
    {
        Color32 {
            r: straight_channel_exec(self.r, self.a),
            g: straight_channel_exec(self.g, self.a),
            b: straight_channel_exec(self.b, self.a),
            a: self.a,
        }
    }
}

/// A fully transparent color converts to all zero channels.
pub proof fn lemma_transparent_converts_to_zero(c: Color32)
    requires
        c.a == 0,
    ensures
        straight_spec(c) == (Color32 { r: 0, g: 0, b: 0, a: 0 }),
{
}

} // verus!
