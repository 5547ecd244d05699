//! The rotation state: two angles that advance by a fixed step with every
//! frame and wrap at a full turn.
//!
//! An angle is a fraction of a turn in units of 2^-64 of a turn, so that a
//! `u64` holds exactly the angles of one turn and arithmetic modulo 2^64 is
//! arithmetic modulo a full turn. However long the animation runs, an angle
//! neither overflows nor loses precision.

use vstd::prelude::*;

verus! {

/// Number of angle units in a full turn.
pub open spec fn turn() -> int {
    0x1_0000_0000_0000_0000
}

/// Advance of the azimuth for every cell drawn: eight microradians, to the
/// nearest unit.
pub const AZIMUTH_PER_CELL: u64 = 23_487_124_026_256;

/// Advance of the polar angle for every cell drawn: five microradians, to the
/// nearest unit.
pub const POLAR_PER_CELL: u64 = 14_679_452_516_410;

/// The two rotation angles of a frame.
#[derive(Clone, Copy, Debug, PartialEq, Eq, Structural)]
pub struct RotationState {
    pub azimuth: u64,
    pub polar: u64,
}

/// The amounts by which the two angles advance from one frame to the next.
#[derive(Clone, Copy, Debug, PartialEq, Eq, Structural)]
pub struct AngleStep {
    pub azimuth: u64,
    pub polar: u64,
}

impl AngleStep {
    /// The step of a frame of `cells` cells: the advance per cell, `cells`
    /// times, modulo a full turn.
    pub open spec fn of_cells(cells: nat) -> AngleStep {
        AngleStep {
            azimuth: ((cells * AZIMUTH_PER_CELL) % turn()) as u64,
            polar: ((cells * POLAR_PER_CELL) % turn()) as u64,
        }
    }

    /// The step of a frame of `cells` cells.
    pub fn per_frame(cells: usize) -> (step: AngleStep)
        ensures
            step == AngleStep::of_cells(cells as nat),
    {
        let count: u64 = cells as u64;
        AngleStep {
            azimuth: count.wrapping_mul(AZIMUTH_PER_CELL),
            polar: count.wrapping_mul(POLAR_PER_CELL),
        }
    }
}

impl RotationState {
    /// The state in which an animation starts: both angles zero.
    pub open spec fn origin() -> RotationState {
        RotationState { azimuth: 0, polar: 0 }
    }

    /// The state one frame later: each angle advanced by its step, modulo a
    /// full turn.
    pub open spec fn advanced(self, step: AngleStep) -> RotationState {
        RotationState {
            azimuth: ((self.azimuth + step.azimuth) % turn()) as u64,
            polar: ((self.polar + step.polar) % turn()) as u64,
        }
    }

    /// The state `frames` frames later.
    pub open spec fn after_frames(self, step: AngleStep, frames: nat) -> RotationState
        decreases frames,
    {
        if frames == 0 {
            self
        } else {
            self.after_frames(step, (frames - 1) as nat).advanced(step)
        }
    }

    /// The state in which an animation starts.
    pub fn new() -> (state: RotationState)
        ensures
            state == RotationState::origin(),
    {
        RotationState { azimuth: 0, polar: 0 }
    }

    /// The state one frame later.
    pub fn advance(self, step: AngleStep) -> (next: RotationState)
        ensures
            next == self.advanced(step),
    {
        RotationState {
            azimuth: self.azimuth.wrapping_add(step.azimuth),
            polar: self.polar.wrapping_add(step.polar),
        }
    }
}

/// Angles accumulate: after `frames` frames each angle is its first value plus
/// `frames` times its step, modulo a full turn.
pub proof fn lemma_angle_accumulation(state: RotationState, step: AngleStep, frames: nat)
    ensures
        state.after_frames(step, frames).azimuth == (state.azimuth + frames * step.azimuth)
            % turn(),
        state.after_frames(step, frames).polar == (state.polar + frames * step.polar) % turn(),
    decreases frames,
{
    if frames > 0 {
        let before = (frames - 1) as nat;
        lemma_angle_accumulation(state, step, before);
        assert(frames * step.azimuth == before * step.azimuth + step.azimuth) by (nonlinear_arith)
            requires
                before == frames - 1,
        ;
        assert(frames * step.polar == before * step.polar + step.polar) by (nonlinear_arith)
            requires
                before == frames - 1,
        ;
    }
}

/// A step of nothing repeats the frame: with both steps zero the rotation is
/// the same after any number of frames. A canvas without cells would give such
/// a step; every canvas has cells.
pub proof fn lemma_zero_step_stands_still(state: RotationState, frames: nat)
    ensures
        state.after_frames(AngleStep { azimuth: 0, polar: 0 }, frames) == state,
        AngleStep::of_cells(0) == (AngleStep { azimuth: 0, polar: 0 }),
    decreases frames,
{
    if frames > 0 {
        lemma_zero_step_stands_still(state, (frames - 1) as nat);
    }
}

} // verus!
