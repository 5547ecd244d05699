//! Shading ramps: from an illumination value to a glyph.

use vstd::prelude::*;

verus! {

/// Glyphs of the torus ramp, from the darkest to the brightest.
pub const TORUS_RAMP: [char; 12] = ['.', ',', '-', '~', ':', ';', '=', '!', '*', '#', '$', '@'];

/// Glyphs of the wave ramp, from the darkest to the brightest.
pub const WAVE_RAMP: [char; 4] = [' ', '.', '*', '+'];

/// Position on a ramp of `entries` glyphs that an illumination value maps to:
/// the ramp divides the 256 values into `entries` bands of equal width.
pub open spec fn shade_index(illumination: u8, entries: nat) -> int {
    (illumination as int * entries as int) / 256
}

/// Every illumination value maps to a position on the ramp.
pub proof fn lemma_shade_index_in_range(illumination: u8, entries: nat)
    requires
        entries > 0,
    ensures
        0 <= shade_index(illumination, entries) < entries,
{
    assert(0 <= (illumination as int * entries as int) / 256 < entries) by (nonlinear_arith)
        requires
            0 <= illumination < 256,
            entries > 0,
    ;
}

/// A brighter value never maps to an earlier position.
pub proof fn lemma_shade_index_monotone(darker: u8, brighter: u8, entries: nat)
    requires
        darker <= brighter,
    ensures
        shade_index(darker, entries) <= shade_index(brighter, entries),
{
    assert((darker as int * entries as int) / 256 <= (brighter as int * entries as int) / 256)
        by (nonlinear_arith)
        requires
            0 <= darker <= brighter,
            0 <= entries,
    ;
}

/// On a ramp of at most 256 glyphs the smallest illumination maps to the first
/// position and the largest to the last.
pub proof fn lemma_shade_index_ends(entries: nat)
    requires
        0 < entries <= 256,
    ensures
        shade_index(0, entries) == 0,
        shade_index(255, entries) == entries - 1,
{
    assert((255 * entries as int) / 256 == entries - 1) by (nonlinear_arith)
        requires
            0 < entries <= 256,
    ;
}

/// Glyph of the torus ramp for an illumination value.
pub fn torus_glyph(illumination: u8) -> (glyph: char)
    ensures
        glyph == TORUS_RAMP@[shade_index(illumination, 12)],
{
    proof {
        lemma_shade_index_in_range(illumination, 12);
    }
    let index: usize = (illumination as usize) * 12 / 256;
    TORUS_RAMP[index]
}

/// Glyph of the wave ramp for a shade.
pub fn wave_glyph(shade: u8) -> (glyph: char)
    ensures
        glyph == WAVE_RAMP@[shade_index(shade, 4)],
{
    proof {
        lemma_shade_index_in_range(shade, 4);
    }
    let index: usize = (shade as usize) * 4 / 256;
    WAVE_RAMP[index]
}

/// Shade of the wave at `theta` degrees: it grows evenly from 0 at the start
/// of the turn towards 255 at its end and stays at 255 beyond.
pub open spec fn wave_shade_at(theta: nat) -> int {
    if theta as int * 255 / 360 > 255 {
        255
    } else {
        theta as int * 255 / 360
    }
}

/// Shade of the wave at `theta` degrees.
pub fn wave_shade(theta: usize) -> (shade: u8)
    ensures
        shade == wave_shade_at(theta as nat),
{
    if theta >= 360 {
        255
    } else {
        (theta * 255 / 360) as u8
    }
}

} // verus!
