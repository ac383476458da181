//! The 8-bit-per-channel RGB color sample and its fixed text rendering.

use vstd::prelude::*;

verus! {

/// The ASCII decimal digits of `n`, most significant first.
pub open spec fn dec_bytes(n: nat) -> Seq<u8>
    decreases n,
{
    if n < 10 {
        seq![(48 + n) as u8]
    } else {
        dec_bytes(n / 10) + seq![(48 + n % 10) as u8]
    }
}

/// Appends the ASCII decimal digits of `n` to `out`.
pub fn push_dec(out: &mut Vec<u8>, n: u64)
    ensures
        final(out)@ == old(out)@ + dec_bytes(n as nat),
    decreases n,
{
    if n < 10 {
        out.push((48 + n) as u8);
        proof {
            assert(out@ =~= old(out)@ + dec_bytes(n as nat));
        }
    } else {
        push_dec(out, n / 10);
        out.push((48 + n % 10) as u8);
        proof {
            assert(out@ =~= old(out)@ + dec_bytes(n as nat));
        }
    }
}

/// An 8-bit RGB color sample: three independent channels, no alpha.
#[derive(Debug, PartialEq, Eq, Structural, Copy, Clone)]
pub struct Pixel {
    pub r: u8,
    pub g: u8,
    pub b: u8,
}

/// The fixed text rendering of one pixel: the three channel values in
/// decimal, space-separated, on a line of their own.
pub open spec fn pixel_bytes(p: Pixel) -> Seq<u8> {
    dec_bytes(p.r as nat) + seq![32u8] + dec_bytes(p.g as nat) + seq![32u8] + dec_bytes(
        p.b as nat,
    ) + seq![10u8]
}

impl Pixel {
    /// Construction from the three channel values.
    pub fn new(r: u8, g: u8, b: u8) -> (p: Self)
        ensures
            p.r == r,
            p.g == g,
            p.b == b,
    {
        Self { r, g, b }
    }

    /// Appends the pixel's text rendering to `out`.
    pub fn render_into(&self, out: &mut Vec<u8>)
        ensures
            final(out)@ == old(out)@ + pixel_bytes(*self),
    {
        push_dec(out, self.r as u64);
        out.push(32);
        push_dec(out, self.g as u64);
        out.push(32);
        push_dec(out, self.b as u64);
        out.push(10);
        proof {
            assert(out@ =~= old(out)@ + pixel_bytes(*self));
        }
    }
}

impl Default for Pixel {
    /// The zeroed, black pixel.
    fn default() -> (p: Self)
        ensures
            p.r == 0,
            p.g == 0,
            p.b == 0,
    {
        Pixel::new(0, 0, 0)
    }
}

} // verus!
