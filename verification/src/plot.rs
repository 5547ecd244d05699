//! Cursor-addressed drawing: glyphs put at given positions, one by one. A
//! sample whose position is off the drawing area is discarded.

use crate::canvas::{cell_offset, Terminal3d};
use crate::shading::{shade_index, wave_glyph, wave_shade, wave_shade_at, WAVE_RAMP};
use vstd::prelude::*;

verus! {

/// Glyph that marks a sample of the sphere.
pub const SPHERE_GLYPH: char = '*';

/// One glyph at one position of the drawing area.
#[derive(Clone, Copy, Debug, PartialEq, Eq, Structural)]
pub struct Plot {
    pub column: u16,
    pub row: u16,
    pub glyph: char,
}

/// The position `(column, row)` is a cell of a drawing area of
/// `width × height` cells.
pub open spec fn on_area(width: nat, height: nat, point: (i64, i64)) -> bool {
    cell_offset(width, height, point.0 as int, point.1 as int) is Some
}

/// The instruction that puts `glyph` at `point`.
pub open spec fn plot_at(point: (i64, i64), glyph: char) -> Plot {
    Plot { column: point.0 as u16, row: point.1 as u16, glyph }
}

/// Glyph of the `k`-th sample. A sample of the wave stands at `k` degrees, and
/// its glyph is that of the wave ramp for the shade at that angle; every
/// sample of the sphere has the same glyph.
pub open spec fn glyph_of(wave: bool, k: int) -> char {
    if wave {
        WAVE_RAMP@[shade_index(wave_shade_at(k as nat) as u8, 4)]
    } else {
        SPHERE_GLYPH
    }
}

/// The instructions for the samples that land on the drawing area, in the
/// order of the samples. Sample `k` lands at `points[k]` and is drawn with
/// `glyph_of(wave, k)`; a sample that lands off the area leaves no
/// instruction.
pub open spec fn kept_plots(
    width: nat,
    height: nat,
    points: Seq<(i64, i64)>,
    wave: bool,
) -> Seq<Plot>
    decreases points.len(),
{
    if points.len() == 0 {
        Seq::empty()
    } else {
        let earlier = kept_plots(width, height, points.drop_last(), wave);
        let k = points.len() - 1;
        if on_area(width, height, points[k]) {
            earlier.push(plot_at(points[k], glyph_of(wave, k)))
        } else {
            earlier
        }
    }
}

/// The instructions for the first `count` samples stand unchanged at the
/// start of the instructions for all of them.
pub proof fn lemma_kept_plots_grow(
    width: nat,
    height: nat,
    points: Seq<(i64, i64)>,
    wave: bool,
    count: int,
)
    requires
        0 <= count <= points.len(),
    ensures
        kept_plots(width, height, points.take(count), wave).len() <= kept_plots(
            width,
            height,
            points,
            wave,
        ).len(),
        forall|i: int|
            0 <= i < kept_plots(width, height, points.take(count), wave).len()
                ==> #[trigger] kept_plots(width, height, points, wave)[i] == kept_plots(
                width,
                height,
                points.take(count),
                wave,
            )[i],
    decreases points.len(),
{
    if count == points.len() {
        assert(points.take(count) =~= points);
    } else {
        assert(points.drop_last().take(count) =~= points.take(count));
        lemma_kept_plots_grow(width, height, points.drop_last(), wave, count);
    }
}

/// A sample on the drawing area is drawn, with its own glyph, after the
/// instructions of the samples before it: its instruction stands at the
/// position that is the number of earlier samples on the area.
pub proof fn lemma_sample_on_area_is_drawn(
    width: nat,
    height: nat,
    points: Seq<(i64, i64)>,
    wave: bool,
    k: int,
)
    requires
        0 <= k < points.len(),
        on_area(width, height, points[k]),
    ensures
        kept_plots(width, height, points.take(k), wave).len() < kept_plots(
            width,
            height,
            points,
            wave,
        ).len(),
        kept_plots(width, height, points, wave)[kept_plots(
            width,
            height,
            points.take(k),
            wave,
        ).len() as int] == plot_at(points[k], glyph_of(wave, k)),
{
    let upto = points.take(k + 1);
    assert(upto.drop_last() =~= points.take(k));
    assert(upto[k] == points[k]);
    lemma_kept_plots_grow(width, height, points, wave, k + 1);
    let here = kept_plots(width, height, points.take(k), wave).len() as int;
    assert(kept_plots(width, height, upto, wave)[here] == plot_at(points[k], glyph_of(wave, k)));
}

/// Every instruction draws a sample that is on the drawing area, at a column
/// below the width and a row below the height, with that sample's glyph.
pub proof fn lemma_kept_plots_are_on_area(
    width: nat,
    height: nat,
    points: Seq<(i64, i64)>,
    wave: bool,
    i: int,
)
    requires
        width <= u16::MAX,
        height <= u16::MAX,
        0 <= i < kept_plots(width, height, points, wave).len(),
    ensures
        kept_plots(width, height, points, wave)[i].column < width,
        kept_plots(width, height, points, wave)[i].row < height,
        exists|k: int|
            0 <= k < points.len() && on_area(width, height, #[trigger] points[k]) && kept_plots(
                width,
                height,
                points,
                wave,
            )[i] == plot_at(points[k], glyph_of(wave, k)),
    decreases points.len(),
{
    let earlier = kept_plots(width, height, points.drop_last(), wave);
    let last = points.len() - 1;
    if i < earlier.len() {
        lemma_kept_plots_are_on_area(width, height, points.drop_last(), wave, i);
        let k = choose|k: int|
            0 <= k < points.drop_last().len() && on_area(
                width,
                height,
                #[trigger] points.drop_last()[k],
            ) && earlier[i] == plot_at(points.drop_last()[k], glyph_of(wave, k));
        assert(points[k] == points.drop_last()[k]);
    } else {
        assert(on_area(width, height, points[last]));
    }
}

impl Terminal3d {
    /// The instructions for the samples that land on this drawing area.
    fn keep_on_area(&self, points: &Vec<(i64, i64)>, wave: bool) -> (plots: Vec<Plot>)
        ensures
            plots@ == kept_plots(self.width(), self.height(), points@, wave),
            forall|i: int|
                0 <= i < plots@.len() ==> (#[trigger] plots@[i]).column < self.width()
                    && plots@[i].row < self.height(),
    {
        proof {
            use_type_invariant(self);
            self.lemma_sides();
        }
        let mut plots: Vec<Plot> = Vec::new();
        let mut k: usize = 0;
        while k < points.len()
            invariant
                k <= points.len(),
                0 < self.width() <= u16::MAX,
                0 < self.height() <= u16::MAX,
                plots@ == kept_plots(self.width(), self.height(), points@.take(k as int), wave),
                forall|i: int|
                    0 <= i < plots@.len() ==> (#[trigger] plots@[i]).column < self.width()
                        && plots@[i].row < self.height(),
            decreases points.len() - k,
        {
            let point: (i64, i64) = points[k];
            proof {
                assert(points@.take(k + 1).drop_last() =~= points@.take(k as int));
                assert(points@.take(k + 1)[k as int] == point);
            }
            if self.cell_index(point.0, point.1).is_some() {
                let glyph: char = if wave {
                    wave_glyph(wave_shade(k))
                } else {
                    SPHERE_GLYPH
                };
                plots.push(Plot { column: point.0 as u16, row: point.1 as u16, glyph });
            }
            k = k + 1;
        }
        proof {
            assert(points@.take(k as int) =~= points@);
        }
        plots
    }

    /// The instructions that draw a sphere whose samples, in the order of the
    /// grid, land at `points`: the same glyph at every position that is on the
    /// drawing area, and nothing for a sample that lands off it.
    pub fn draw_3d_sphere(&self, points: &Vec<(i64, i64)>) -> (plots: Vec<Plot>)
        ensures
            plots@ == kept_plots(self.width(), self.height(), points@, false),
            forall|i: int|
                0 <= i < plots@.len() ==> (#[trigger] plots@[i]).column < self.width()
                    && plots@[i].row < self.height(),
    {
        self.keep_on_area(points, false)
    }

    /// The instructions that draw a wave whose samples, in the order of the
    /// grid, land at `points`: at every position that is on the drawing area
    /// the glyph of the shade that the wave has at the sample's angle, and
    /// nothing for a sample that lands off it.
    pub fn draw_3d_wave(&self, points: &Vec<(i64, i64)>) -> (plots: Vec<Plot>)
        ensures
            plots@ == kept_plots(self.width(), self.height(), points@, true),
            forall|i: int|
                0 <= i < plots@.len() ==> (#[trigger] plots@[i]).column < self.width()
                    && plots@[i].row < self.height(),
    {
        self.keep_on_area(points, true)
    }
}

} // verus!
