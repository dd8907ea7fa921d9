//! Colors with four channels of eight bits each.

use vstd::prelude::*;

verus! {

/// A color. A channel holds the intensity in 255ths: 0 is none, 255 is full.
#[derive(Debug, Clone, Copy, PartialEq, Eq, Structural)]
pub struct RGBA {
    pub r: u8,
    pub g: u8,
    pub b: u8,
    pub a: u8,
}

/// One channel of a blend: `coeff` 255ths of `one` and the rest of `two`,
/// rounded down.
pub open spec fn mix(one: u8, two: u8, coeff: u8) -> int {
    (coeff * one + (255 - coeff) * two) / 255
}

/// A blend of two channels lies between 0 and 255, is the first channel at
/// full weight and the second at none.
pub proof fn lemma_mix(one: u8, two: u8, coeff: u8)
    ensures
        0 <= mix(one, two, coeff) <= 255,
        mix(one, two, 255) == one,
        mix(one, two, 0) == two,
{
    assert(0 <= coeff * one + (255 - coeff) * two <= 255 * 255) by (nonlinear_arith)
        requires
            0 <= one <= 255,
            0 <= two <= 255,
            0 <= coeff <= 255,
    ;
}

impl RGBA {
    /// Pure red, opaque.
    pub open spec fn spec_red() -> RGBA {
        RGBA { r: 255, g: 0, b: 0, a: 255 }
    }

    /// Pure green, opaque.
    pub open spec fn spec_green() -> RGBA {
        RGBA { r: 0, g: 255, b: 0, a: 255 }
    }

    /// Pure blue, opaque.
    pub open spec fn spec_blue() -> RGBA {
        RGBA { r: 0, g: 0, b: 255, a: 255 }
    }

    /// Black, opaque.
    pub open spec fn spec_black() -> RGBA {
        RGBA { r: 0, g: 0, b: 0, a: 255 }
    }

    /// White, opaque.
    pub open spec fn spec_white() -> RGBA {
        RGBA { r: 255, g: 255, b: 255, a: 255 }
    }

    /// The blend of `coeff` 255ths of `one` with the rest of `two`, channel by
    /// channel.
    pub open spec fn spec_lerp(one: RGBA, two: RGBA, coeff: u8) -> RGBA {
        RGBA {
            r: mix(one.r, two.r, coeff) as u8,
            g: mix(one.g, two.g, coeff) as u8,
            b: mix(one.b, two.b, coeff) as u8,
            a: mix(one.a, two.a, coeff) as u8,
        }
    }

    #[verifier::when_used_as_spec(spec_red)]
    pub fn red() -> (c: RGBA)
        ensures
            c == Self::spec_red(),
    {
        RGBA { r: 255, g: 0, b: 0, a: 255 }
    }

    #[verifier::when_used_as_spec(spec_green)]
    pub fn green() -> (c: RGBA)
        ensures
            c == Self::spec_green(),
    {
        RGBA { r: 0, g: 255, b: 0, a: 255 }
    }

    #[verifier::when_used_as_spec(spec_blue)]
    pub fn blue() -> (c: RGBA)
        ensures
            c == Self::spec_blue(),
    {
        RGBA { r: 0, g: 0, b: 255, a: 255 }
    }

    #[verifier::when_used_as_spec(spec_black)]
    pub fn black() -> (c: RGBA)
        ensures
            c == Self::spec_black(),
    {
        RGBA { r: 0, g: 0, b: 0, a: 255 }
    }

    #[verifier::when_used_as_spec(spec_white)]
    pub fn white() -> (c: RGBA)
        ensures
            c == Self::spec_white(),
    {
        RGBA { r: 255, g: 255, b: 255, a: 255 }
    }

    /// Blends two colors: `coeff` 255ths of `one` and the rest of `two`. At
    /// 255 the result is `one`, at 0 it is `two`.
    pub fn lerp(one: &RGBA, two: &RGBA, coeff: u8) -> (c: RGBA)
        ensures
            c == Self::spec_lerp(*one, *two, coeff),
            coeff == 255 ==> c == *one,
            coeff == 0 ==> c == *two,
    {
        proof {
            lemma_mix(one.r, two.r, coeff);
            lemma_mix(one.g, two.g, coeff);
            lemma_mix(one.b, two.b, coeff);
            lemma_mix(one.a, two.a, coeff);
        }
        RGBA {
            r: mix_channel(one.r, two.r, coeff),
            g: mix_channel(one.g, two.g, coeff),
            b: mix_channel(one.b, two.b, coeff),
            a: mix_channel(one.a, two.a, coeff),
        }
    }
}

/// Blends one channel.
fn mix_channel(one: u8, two: u8, coeff: u8) -> (c: u8)
    ensures
        c == mix(one, two, coeff),
{
    proof {
        lemma_mix(one, two, coeff);
        assert(coeff * one <= 255 * 255 && (255 - coeff) * two <= 255 * 255) by (nonlinear_arith)
            requires
                0 <= one <= 255,
                0 <= two <= 255,
                0 <= coeff <= 255,
        ;
    }
    let weighted: u32 = (coeff as u32) * (one as u32) + ((255 - coeff) as u32) * (two as u32);
    (weighted / 255) as u8
}

} // verus!
