//! The surface sampler: the fixed grid of parameter pairs that covers a shape.

use vstd::arithmetic::div_mod::lemma_fundamental_div_mod_converse;
use vstd::prelude::*;

verus! {

/// The shapes that can be drawn. Each is a surface over two angles, `theta`
/// and `phi`, sampled on a fixed grid.
#[derive(Clone, Copy, Debug, PartialEq, Eq, Structural)]
pub enum Shape {
    /// `theta` runs over the longitudes 0..360 and `phi` over the latitudes
    /// -90..=90, both in whole degrees.
    Sphere,
    /// `theta` runs over 0..360 in whole degrees; `phi` stays 0.
    Wave,
    /// `theta` runs round the tube in steps of 7 and `phi` round the axis in
    /// steps of 2, both in hundredths of a radian from 0 up to 628.
    Torus,
}

/// One pair of surface angles, in the unit of the shape it was drawn from.
#[derive(Clone, Copy, Debug, PartialEq, Eq, Structural)]
pub struct SurfaceSample {
    pub theta: i16,
    pub phi: i16,
}

impl Shape {
    /// Number of values that `theta` takes.
    pub open spec fn theta_steps(self) -> int {
        match self {
            Shape::Sphere => 360,
            Shape::Wave => 360,
            Shape::Torus => 90,
        }
    }

    /// Number of values that `phi` takes.
    pub open spec fn phi_steps(self) -> int {
        match self {
            Shape::Sphere => 181,
            Shape::Wave => 1,
            Shape::Torus => 314,
        }
    }

    /// The `step`-th value of `theta`.
    pub open spec fn theta_at(self, step: int) -> int {
        match self {
            Shape::Sphere => step,
            Shape::Wave => step,
            Shape::Torus => 7 * step,
        }
    }

    /// The `step`-th value of `phi`.
    pub open spec fn phi_at(self, step: int) -> int {
        match self {
            Shape::Sphere => step - 90,
            Shape::Wave => 0,
            Shape::Torus => 2 * step,
        }
    }

    /// Number of samples on the grid.
    pub open spec fn grid_len(self) -> int {
        self.theta_steps() * self.phi_steps()
    }

    /// The `k`-th sample: `theta` is held while `phi` runs through all of its
    /// values, then `theta` moves on.
    pub open spec fn grid_at(self, k: int) -> SurfaceSample {
        SurfaceSample {
            theta: self.theta_at(k / self.phi_steps()) as i16,
            phi: self.phi_at(k % self.phi_steps()) as i16,
        }
    }

    /// The whole grid, in the order in which it is walked.
    pub open spec fn grid(self) -> Seq<SurfaceSample> {
        Seq::new(self.grid_len() as nat, |k: int| self.grid_at(k))
    }

    /// Number of values that `theta` takes.
    pub fn theta_count(&self) -> (count: usize)
        ensures
            count == self.theta_steps(),
    {
        match self {
            Shape::Sphere => 360,
            Shape::Wave => 360,
            Shape::Torus => 90,
        }
    }

    /// Number of values that `phi` takes.
    pub fn phi_count(&self) -> (count: usize)
        ensures
            count == self.phi_steps(),
    {
        match self {
            Shape::Sphere => 181,
            Shape::Wave => 1,
            Shape::Torus => 314,
        }
    }

    /// Number of samples on the grid.
    pub fn sample_count(&self) -> (count: usize)
        ensures
            count == self.grid_len(),
    {
        match self {
            Shape::Sphere => 65160,
            Shape::Wave => 360,
            Shape::Torus => 28260,
        }
    }

    /// The sample that pairs the `i`-th value of `theta` with the `j`-th value
    /// of `phi`.
    fn pair(&self, i: usize, j: usize) -> (sample: SurfaceSample)
        requires
            i < self.theta_steps(),
            j < self.phi_steps(),
        ensures
            sample.theta == self.theta_at(i as int),
            sample.phi == self.phi_at(j as int),
    {
        match self {
            Shape::Sphere => SurfaceSample { theta: i as i16, phi: (j as i16) - 90 },
            Shape::Wave => SurfaceSample { theta: i as i16, phi: 0 },
            Shape::Torus => SurfaceSample { theta: 7 * (i as i16), phi: 2 * (j as i16) },
        }
    }

    /// The `k`-th sample of the grid, or `None` when the grid has no such
    /// sample.
    pub fn sample(&self, k: usize) -> (sample: Option<SurfaceSample>)
        ensures
            sample == if k < self.grid_len() {
                Some(self.grid_at(k as int))
            } else {
                None
            },
    {
        if k >= self.sample_count() {
            return None;
        }
        let columns: usize = self.phi_count();
        proof {
            lemma_grid_position(*self, k as int);
        }
        Some(self.pair(k / columns, k % columns))
    }

    /// All samples of the grid, in order. The grid is the same at every call.
    pub fn samples(&self) -> (samples: Vec<SurfaceSample>)
        ensures
            samples@ == self.grid(),
    {
        let rows: usize = self.theta_count();
        let columns: usize = self.phi_count();
        let mut samples: Vec<SurfaceSample> = Vec::new();
        let mut i: usize = 0;
        while i < rows
            invariant
                rows == self.theta_steps(),
                columns == self.phi_steps(),
                i <= rows,
                samples@.len() == i * columns,
                forall|k: int| 0 <= k < samples@.len() ==> samples@[k] == self.grid_at(k),
            decreases rows - i,
        {
            let mut j: usize = 0;
            while j < columns
                invariant
                    rows == self.theta_steps(),
                    columns == self.phi_steps(),
                    i < rows,
                    j <= columns,
                    samples@.len() == i * columns + j,
                    forall|k: int| 0 <= k < samples@.len() ==> samples@[k] == self.grid_at(k),
                decreases columns - j,
            {
                proof {
                    lemma_fundamental_div_mod_converse(
                        i * columns + j,
                        columns as int,
                        i as int,
                        j as int,
                    );
                }
                samples.push(self.pair(i, j));
                j = j + 1;
            }
            proof {
                assert(i * columns + columns == (i + 1) * columns) by (nonlinear_arith);
            }
            i = i + 1;
        }
        proof {
            assert(samples@ =~= self.grid());
        }
        samples
    }
}

/// Position `k` of the grid lies in row `k / phi_steps` and column
/// `k % phi_steps`, both within the grid.
pub proof fn lemma_grid_position(shape: Shape, k: int)
    requires
        0 <= k < shape.grid_len(),
    ensures
        0 <= k / shape.phi_steps() < shape.theta_steps(),
        0 <= k % shape.phi_steps() < shape.phi_steps(),
{
    match shape {
        Shape::Sphere => {},
        Shape::Wave => {},
        Shape::Torus => {},
    }
}

/// The grid holds every pair of a `theta` value and a `phi` value: the pair of
/// the `i`-th `theta` and the `j`-th `phi` stands at position
/// `i * phi_steps + j`.
pub proof fn lemma_grid_holds_every_pair(shape: Shape, i: int, j: int)
    requires
        0 <= i < shape.theta_steps(),
        0 <= j < shape.phi_steps(),
    ensures
        0 <= i * shape.phi_steps() + j < shape.grid_len(),
        shape.grid()[i * shape.phi_steps() + j] == (SurfaceSample {
            theta: shape.theta_at(i) as i16,
            phi: shape.phi_at(j) as i16,
        }),
{
    let columns = shape.phi_steps();
    let k = i * columns + j;
    lemma_fundamental_div_mod_converse(k, columns, i, j);
    assert(0 <= i * columns && i * columns + columns <= shape.theta_steps() * columns)
        by (nonlinear_arith)
        requires
            0 <= i < shape.theta_steps(),
            0 < columns,
    ;
}

/// The torus grid covers the whole turn of both angles: every `theta` and
/// every `phi` from 0 up to 628 hundredths of a radian lies less than one step
/// above the angles of a sample, the one at position
/// `(theta / 7) * 314 + phi / 2`.
pub proof fn lemma_torus_grid_covers_turn(theta: int, phi: int)
    requires
        0 <= theta < 628,
        0 <= phi < 628,
    ensures
        0 <= (theta / 7) * 314 + phi / 2 < Shape::Torus.grid_len(),
        Shape::Torus.grid()[(theta / 7) * 314 + phi / 2].theta <= theta
            < Shape::Torus.grid()[(theta / 7) * 314 + phi / 2].theta + 7,
        Shape::Torus.grid()[(theta / 7) * 314 + phi / 2].phi <= phi
            < Shape::Torus.grid()[(theta / 7) * 314 + phi / 2].phi + 2,
{
    lemma_grid_holds_every_pair(Shape::Torus, theta / 7, phi / 2);
}

/// No pair stands on the grid twice.
pub proof fn lemma_grid_has_no_repeats(shape: Shape, k: int, l: int)
    requires
        0 <= k < shape.grid_len(),
        0 <= l < shape.grid_len(),
        shape.grid()[k] == shape.grid()[l],
    ensures
        k == l,
{
    lemma_grid_position(shape, k);
    lemma_grid_position(shape, l);
    match shape {
        Shape::Sphere => {},
        Shape::Wave => {},
        Shape::Torus => {},
    }
}

} // verus!
