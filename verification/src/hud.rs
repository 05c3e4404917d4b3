//! Pixel formats of the application icon.
//!
//! The icon is drawn by the application as BGRA with premultiplied alpha (what
//! `CreateIcon` expects); the window of the interface wants plain RGBA.
use vstd::prelude::*;

verus! {

/// Channel `shift` (0 blue, 8 green, 16 red, 24 alpha) of a packed BGRA pixel.
pub open spec fn channel(p: u32, shift: int) -> int {
    if shift == 0 {
        (p % 0x100) as int
    } else if shift == 8 {
        ((p / 0x100) % 0x100) as int
    } else if shift == 16 {
        ((p / 0x10000) % 0x100) as int
    } else {
        ((p / 0x1000000) % 0x100) as int
    }
}

/// A premultiplied channel brought back to straight alpha: `c * 255 / a`, at most
/// 255; 0 where the pixel is transparent.
pub open spec fn unpremultiply(c: int, a: int) -> int {
    if a == 0 {
        0
    } else if c * 255 / a > 255 {
        255
    } else {
        c * 255 / a
    }
}

/// The RGBA bytes of the BGRA premultiplied pixels.
pub open spec fn spec_rgba(px: Seq<u32>) -> Seq<u8>
    decreases px.len(),
{
    if px.len() == 0 {
        seq![]
    } else {
        let p = px.last();
        let a = channel(p, 24);
        spec_rgba(px.drop_last()) + seq![
            unpremultiply(channel(p, 16), a) as u8,
            unpremultiply(channel(p, 8), a) as u8,
            unpremultiply(channel(p, 0), a) as u8,
            a as u8,
        ]
    }
}

fn unpremul(c: u32, a: u32) -> (r: u8)
    requires
        c < 0x100,
        a < 0x100,
    ensures
        r == unpremultiply(c as int, a as int),
{
    if a == 0 {
        0
    } else {
        let v = c * 255 / a;
        if v > 255 {
            255
        } else {
            v as u8
        }
    }
}

/// The icon as plain RGBA (straight alpha), for the window of the interface.
pub fn icon_rgba(px: &[u32]) -> (r: Vec<u8>)
    ensures
        r@ == spec_rgba(px@),
{
    let mut out: Vec<u8> = Vec::new();
    let mut i: usize = 0;
    assert(px@.take(0) =~= Seq::<u32>::empty());
    while i < px.len()
        invariant
            i <= px.len(),
            out@ == spec_rgba(px@.take(i as int)),
        decreases px.len() - i,
    {
        let p = px[i];
        let a = (p >> 24) & 0xFF;
        let r = (p >> 16) & 0xFF;
        let g = (p >> 8) & 0xFF;
        let b = p & 0xFF;
        assert(a == (p / 0x1000000) % 0x100 && a < 0x100) by (bit_vector)
            requires
                a == (p >> 24) & 0xFF,
        ;
        assert(r == (p / 0x10000) % 0x100 && r < 0x100) by (bit_vector)
            requires
                r == (p >> 16) & 0xFF,
        ;
        assert(g == (p / 0x100) % 0x100 && g < 0x100) by (bit_vector)
            requires
                g == (p >> 8) & 0xFF,
        ;
        assert(b == p % 0x100 && b < 0x100) by (bit_vector)
            requires
                b == p & 0xFF,
        ;
        let ghost before = out@;
        out.push(unpremul(r, a));
        out.push(unpremul(g, a));
        out.push(unpremul(b, a));
        out.push(a as u8);
        assert(px@.take(i + 1).drop_last() =~= px@.take(i as int));
        assert(out@ =~= spec_rgba(px@.take(i + 1)));
        i += 1;
    }
    assert(px@.take(px.len() as int) =~= px@);
    out
}

} // verus!
