//! The animation driver: the decisions of the frame loop, as a state machine.
//!
//! The caller owns the loop. It performs the action that the driver hands
//! out (clear the screen, draw a frame, wait) and reports how that went; the
//! driver answers with its next state and the next action.

use crate::canvas::Terminal3d;
use crate::rotation::{AngleStep, RotationState};
use vstd::prelude::*;

verus! {

/// Pause between two frames, in milliseconds.
pub const FRAME_DELAY_MILLIS: u64 = 200;

/// Where the animation stands.
#[derive(Clone, Copy, Debug, PartialEq, Eq, Structural)]
pub enum Phase {
    /// The screen is being cleared, once, before the first frame.
    Clearing,
    /// A frame is being computed and drawn.
    Rendering,
    /// The pause between two frames.
    PacedWait,
    /// The output failed; the animation is over.
    Failed,
    /// The animation was called off from outside; it is over.
    Cancelled,
}

/// What the caller reports back.
#[derive(Clone, Copy, Debug, PartialEq, Eq, Structural)]
pub enum Event {
    /// The last action was carried out.
    Completed,
    /// Writing to the terminal failed.
    OutputFailed,
    /// The animation is to stop.
    Cancelled,
}

/// What the caller is to do next.
#[derive(Clone, Copy, Debug, PartialEq, Eq, Structural)]
pub enum Action {
    /// Clear the screen.
    ClearScreen,
    /// Compute and draw the frame of this rotation.
    DrawFrame(RotationState),
    /// Wait for this many milliseconds.
    Sleep(u64),
    /// Leave the loop.
    Stop,
}

/// The state of an animation: its phase, the rotation of the frame that is
/// drawn next or being drawn, and the step from one frame to the next.
#[derive(Clone, Copy, Debug, PartialEq, Eq, Structural)]
pub struct Driver {
    pub phase: Phase,
    pub rotation: RotationState,
    pub step: AngleStep,
}

impl Phase {
    /// The animation is not over.
    pub open spec fn running(self) -> bool {
        self == Phase::Clearing || self == Phase::Rendering || self == Phase::PacedWait
    }
}

impl Driver {
    /// The driver of a new animation with this step, and its first action.
    pub open spec fn initial(step: AngleStep) -> (Driver, Action) {
        (
            Driver { phase: Phase::Clearing, rotation: RotationState::origin(), step },
            Action::ClearScreen,
        )
    }

    /// The next state and the next action after `event`.
    ///
    /// A running animation that is told of a failure or called off is over.
    /// Otherwise the clearing is followed by the first frame, a frame by a
    /// pause, during which the rotation already stands advanced, and a pause
    /// by the next frame. An animation that is over stays so.
    pub open spec fn transition(self, event: Event) -> (Driver, Action) {
        if !self.phase.running() {
            (self, Action::Stop)
        } else {
            match event {
                Event::OutputFailed => (
                    Driver { phase: Phase::Failed, rotation: self.rotation, step: self.step },
                    Action::Stop,
                ),
                Event::Cancelled => (
                    Driver { phase: Phase::Cancelled, rotation: self.rotation, step: self.step },
                    Action::Stop,
                ),
                Event::Completed => match self.phase {
                    Phase::Rendering => (
                        Driver {
                            phase: Phase::PacedWait,
                            rotation: self.rotation.advanced(self.step),
                            step: self.step,
                        },
                        Action::Sleep(FRAME_DELAY_MILLIS),
                    ),
                    _ => (
                        Driver {
                            phase: Phase::Rendering,
                            rotation: self.rotation,
                            step: self.step,
                        },
                        Action::DrawFrame(self.rotation),
                    ),
                },
            }
        }
    }

    /// The state after a run of events.
    pub open spec fn run(self, events: Seq<Event>) -> Driver
        decreases events.len(),
    {
        if events.len() == 0 {
            self
        } else {
            self.run(events.drop_last()).transition(events.last()).0
        }
    }

    /// The driver of a new animation on `canvas`, and its first action: the
    /// screen is cleared once. Both angles start at zero and advance with
    /// every frame by the step of a frame of the canvas's size.
    pub fn start(canvas: &Terminal3d) -> (begun: (Driver, Action))
        ensures
            begun == Driver::initial(AngleStep::of_cells(canvas.width() * canvas.height())),
    {
        let step: AngleStep = AngleStep::per_frame(canvas.cell_count());
        (
            Driver { phase: Phase::Clearing, rotation: RotationState::new(), step },
            Action::ClearScreen,
        )
    }

    /// The next state and the next action after `event`.
    pub fn step(self, event: Event) -> (next: (Driver, Action))
        ensures
            next == self.transition(event),
    {
        match self.phase {
            Phase::Failed => (self, Action::Stop),
            Phase::Cancelled => (self, Action::Stop),
            _ => match event {
                Event::OutputFailed => (
                    Driver { phase: Phase::Failed, rotation: self.rotation, step: self.step },
                    Action::Stop,
                ),
                Event::Cancelled => (
                    Driver { phase: Phase::Cancelled, rotation: self.rotation, step: self.step },
                    Action::Stop,
                ),
                Event::Completed => match self.phase {
                    Phase::Rendering => (
                        Driver {
                            phase: Phase::PacedWait,
                            rotation: self.rotation.advance(self.step),
                            step: self.step,
                        },
                        Action::Sleep(FRAME_DELAY_MILLIS),
                    ),
                    _ => (
                        Driver {
                            phase: Phase::Rendering,
                            rotation: self.rotation,
                            step: self.step,
                        },
                        Action::DrawFrame(self.rotation),
                    ),
                },
            },
        }
    }
}

/// A run of `count` events, each reporting that the last action was carried
/// out.
pub open spec fn completions(count: nat) -> Seq<Event> {
    Seq::new(count, |i: int| Event::Completed)
}

/// In normal operation the animation never ends: as long as every action is
/// carried out, a running driver keeps running.
pub proof fn lemma_normal_operation_never_stops(driver: Driver, count: nat)
    requires
        driver.phase.running(),
    ensures
        driver.run(completions(count)).phase.running(),
        driver.run(completions(count)).step == driver.step,
    decreases count,
{
    if count > 0 {
        assert(completions(count).drop_last() =~= completions((count - 1) as nat));
        lemma_normal_operation_never_stops(driver, (count - 1) as nat);
    }
}

/// Frames and pauses alternate, and the angles accumulate: a driver that is
/// rendering is rendering again after every two completed actions, and after
/// `frames` such rounds each angle has advanced by `frames` steps.
pub proof fn lemma_frames_accumulate(driver: Driver, frames: nat)
    requires
        driver.phase == Phase::Rendering,
    ensures
        driver.run(completions(2 * frames)).phase == Phase::Rendering,
        driver.run(completions(2 * frames)).rotation == driver.rotation.after_frames(
            driver.step,
            frames,
        ),
        driver.run(completions(2 * frames)).step == driver.step,
        frames > 0 ==> driver.run(completions((2 * frames - 1) as nat)).phase == Phase::PacedWait,
    decreases frames,
{
    if frames > 0 {
        let before = (frames - 1) as nat;
        lemma_frames_accumulate(driver, before);
        let two = completions(2 * frames);
        let one = completions((2 * frames - 1) as nat);
        assert(two.drop_last() =~= one);
        assert(one.drop_last() =~= completions(2 * before));
    }
}

/// The screen is cleared once: no event makes the driver ask for it again.
pub proof fn lemma_screen_is_cleared_once(driver: Driver, event: Event)
    ensures
        driver.transition(event).1 != Action::ClearScreen,
        driver.transition(event).0.phase != Phase::Clearing,
{
}

/// Once the animation is over, nothing starts it again.
pub proof fn lemma_over_stays_over(driver: Driver, events: Seq<Event>)
    requires
        !driver.phase.running(),
    ensures
        driver.run(events) == driver,
    decreases events.len(),
{
    if events.len() > 0 {
        lemma_over_stays_over(driver, events.drop_last());
    }
}

} // verus!
