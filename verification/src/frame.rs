//! The depth-buffered compositor: a depth buffer and a pixel buffer, aligned
//! cell for cell, on which projected samples compete by a strict depth test.

use crate::canvas::{cell_offset, lemma_offset_in_range, Terminal3d};
use crate::visibility::{lemma_shown_sample, lemma_untouched_cell_unchanged, shows, untouched};
use vstd::prelude::*;

verus! {

/// Depth metric of a cell that no sample has reached. A sample is retained
/// only when its metric is larger than the one in its cell, so a sample whose
/// metric is `EMPTY_DEPTH` is never retained.
pub const EMPTY_DEPTH: u64 = 0;

/// A surface sample after rotation and projection: the cell position it maps
/// to, its depth metric (larger is nearer to the viewer) and its illumination.
///
/// The depth metric is an integer. A caller that computes depth in floating
/// point hands over any integer that keeps the order of its values, such as
/// the bit pattern of a positive float.
#[derive(Clone, Copy, Debug, PartialEq, Eq, Structural)]
pub struct ProjectedSample {
    pub x: i64,
    pub y: i64,
    pub depth: u64,
    pub illumination: u8,
}

/// What a frame buffer holds: its sides and, in row-major order, the depth
/// metric and the illumination of every cell.
pub struct Frame {
    pub width: nat,
    pub height: nat,
    pub depth: Seq<u64>,
    pub pixels: Seq<u8>,
}

impl Frame {
    /// Both buffers have one entry per cell of a grid with positive sides.
    pub open spec fn wf(self) -> bool {
        &&& 0 < self.width <= u16::MAX
        &&& 0 < self.height <= u16::MAX
        &&& self.depth.len() == self.width * self.height
        &&& self.pixels.len() == self.width * self.height
    }

    /// The frame at the start of a tick: every cell empty and dark.
    pub open spec fn blank(width: nat, height: nat) -> Frame {
        Frame {
            width,
            height,
            depth: Seq::new(width * height, |i: int| EMPTY_DEPTH),
            pixels: Seq::new(width * height, |i: int| 0u8),
        }
    }

    /// Offset of the cell that `sample` maps to, if it maps to one.
    pub open spec fn target(self, sample: ProjectedSample) -> Option<int> {
        cell_offset(self.width, self.height, sample.x as int, sample.y as int)
    }

    /// The depth test: `sample` maps to a cell and is strictly nearer than
    /// what that cell holds.
    pub open spec fn admits(self, sample: ProjectedSample) -> bool {
        self.target(sample) matches Some(i) && sample.depth > self.depth[i]
    }

    /// A cell holds a sample.
    pub open spec fn occupied(self, offset: int) -> bool {
        self.depth[offset] != EMPTY_DEPTH
    }

    /// The frame after `sample` has been offered: its cell is overwritten if
    /// the depth test admits it, and nothing changes otherwise.
    pub open spec fn plot(self, sample: ProjectedSample) -> Frame {
        if self.admits(sample) {
            let i = self.target(sample).unwrap();
            Frame {
                width: self.width,
                height: self.height,
                depth: self.depth.update(i, sample.depth),
                pixels: self.pixels.update(i, sample.illumination),
            }
        } else {
            self
        }
    }

    /// The frame after the samples have been offered one by one, in order.
    pub open spec fn plot_all(self, samples: Seq<ProjectedSample>) -> Frame
        decreases samples.len(),
    {
        if samples.len() == 0 {
            self
        } else {
            self.plot_all(samples.drop_last()).plot(samples.last())
        }
    }
}

/// The cell that a sample maps to is one of the frame's cells.
pub proof fn lemma_target_in_range(frame: Frame, sample: ProjectedSample)
    requires
        frame.wf(),
    ensures
        frame.target(sample) matches Some(i) ==> 0 <= i < frame.width * frame.height,
{
    if frame.target(sample) is Some {
        lemma_offset_in_range(frame.width, frame.height, sample.x as int, sample.y as int);
    }
}

/// Offering a sample keeps a frame well formed and its sides unchanged.
pub proof fn lemma_plot_keeps_shape(frame: Frame, sample: ProjectedSample)
    requires
        frame.wf(),
    ensures
        frame.plot(sample).wf(),
        frame.plot(sample).width == frame.width,
        frame.plot(sample).height == frame.height,
{
    lemma_target_in_range(frame, sample);
}

/// Offering any number of samples keeps a frame well formed and its sides
/// unchanged.
pub proof fn lemma_plot_all_keeps_shape(frame: Frame, samples: Seq<ProjectedSample>)
    requires
        frame.wf(),
    ensures
        frame.plot_all(samples).wf(),
        frame.plot_all(samples).width == frame.width,
        frame.plot_all(samples).height == frame.height,
    decreases samples.len(),
{
    if samples.len() > 0 {
        lemma_plot_all_keeps_shape(frame, samples.drop_last());
        lemma_plot_keeps_shape(frame.plot_all(samples.drop_last()), samples.last());
    }
}

/// A depth buffer and a pixel buffer for one frame.
#[derive(Debug, PartialEq, Eq)]
pub struct FrameBuffer {
    canvas: Terminal3d,
    depth: Vec<u64>,
    pixels: Vec<u8>,
}

impl View for FrameBuffer {
    type V = Frame;

    closed spec fn view(&self) -> Frame {
        Frame {
            width: self.canvas.width(),
            height: self.canvas.height(),
            depth: self.depth@,
            pixels: self.pixels@,
        }
    }
}

impl FrameBuffer {
    /// Each buffer has one entry for every cell of the drawing area.
    #[verifier::type_invariant]
    closed spec fn inv(&self) -> bool {
        &&& self.canvas.wf()
        &&& self.depth@.len() == self.canvas.width() * self.canvas.height()
        &&& self.pixels@.len() == self.canvas.width() * self.canvas.height()
    }

    /// A fresh frame for `canvas`: every cell empty and dark.
    pub fn new(canvas: &Terminal3d) -> (buffer: FrameBuffer)
        ensures
            buffer@ == Frame::blank(canvas.width(), canvas.height()),
            buffer@.wf(),
    {
        let cells: usize = canvas.cell_count();
        let depth: Vec<u64> = vec![EMPTY_DEPTH; cells];
        let pixels: Vec<u8> = vec![0u8; cells];
        proof {
            use_type_invariant(canvas);
            canvas.lemma_sides();
            assert(depth@ =~= Seq::new(canvas.width() * canvas.height(), |i: int| EMPTY_DEPTH));
            assert(pixels@ =~= Seq::new(canvas.width() * canvas.height(), |i: int| 0u8));
        }
        FrameBuffer { canvas: *canvas, depth, pixels }
    }

    /// Offers one sample to the frame. The sample is retained, overwriting the
    /// depth and the illumination of its cell, exactly when it maps to a cell
    /// of the drawing area and its depth metric is strictly larger than the one
    /// the cell holds; otherwise the frame is left as it was. Returns whether
    /// the sample was retained.
    pub fn plot(&mut self, sample: ProjectedSample) -> (retained: bool)
        ensures
            final(self)@ == old(self)@.plot(sample),
            retained == old(self)@.admits(sample),
            retained ==> 0 <= sample.x < old(self)@.width && 0 <= sample.y < old(self)@.height
                && sample.depth > EMPTY_DEPTH,
            final(self)@.wf(),
    {
        proof {
            use_type_invariant(&*self);
            self.canvas.lemma_sides();
        }
        match self.canvas.cell_index(sample.x, sample.y) {
            Some(offset) => {
                if sample.depth > self.depth[offset] {
                    self.depth[offset] = sample.depth;
                    self.pixels[offset] = sample.illumination;
                    true
                } else {
                    false
                }
            },
            None => false,
        }
    }

    /// Offers the samples to the frame one by one, in order.
    pub fn plot_all(&mut self, samples: &Vec<ProjectedSample>)
        ensures
            final(self)@ == old(self)@.plot_all(samples@),
            final(self)@.wf(),
    {
        proof {
            use_type_invariant(&*self);
            self.canvas.lemma_sides();
        }
        let mut k: usize = 0;
        while k < samples.len()
            invariant
                k <= samples.len(),
                self@ == old(self)@.plot_all(samples@.take(k as int)),
                self@.wf(),
            decreases samples.len() - k,
        {
            let sample: ProjectedSample = samples[k];
            self.plot(sample);
            proof {
                assert(samples@.take(k + 1).drop_last() =~= samples@.take(k as int));
            }
            k = k + 1;
        }
        proof {
            assert(samples@.take(k as int) =~= samples@);
        }
    }

    /// The frame that the samples give on an empty drawing area: each cell
    /// holds the nearest sample that maps to it, and of equally near ones the
    /// first.
    pub fn composite(canvas: &Terminal3d, samples: &Vec<ProjectedSample>) -> (buffer: FrameBuffer)
        ensures
            buffer@ == Frame::blank(canvas.width(), canvas.height()).plot_all(samples@),
            buffer@.wf(),
            buffer@.width == canvas.width(),
            buffer@.height == canvas.height(),
            forall|cell: int, i: int|
                #![trigger shows(Frame::blank(canvas.width(), canvas.height()), samples@, cell, i)]
                0 <= cell < canvas.width() * canvas.height() && shows(
                    Frame::blank(canvas.width(), canvas.height()),
                    samples@,
                    cell,
                    i,
                ) ==> buffer@.depth[cell] == samples@[i].depth && buffer@.pixels[cell]
                    == samples@[i].illumination,
            forall|cell: int|
                #![trigger untouched(Frame::blank(canvas.width(), canvas.height()), samples@, cell)]
                0 <= cell < canvas.width() * canvas.height() && untouched(
                    Frame::blank(canvas.width(), canvas.height()),
                    samples@,
                    cell,
                ) ==> buffer@.depth[cell] == EMPTY_DEPTH && buffer@.pixels[cell] == 0,
    {
        let mut buffer: FrameBuffer = FrameBuffer::new(canvas);
        buffer.plot_all(samples);
        proof {
            let blank = Frame::blank(canvas.width(), canvas.height());
            lemma_plot_all_keeps_shape(blank, samples@);
            assert forall|cell: int, i: int|
                0 <= cell < canvas.width() * canvas.height() && shows(
                    blank,
                    samples@,
                    cell,
                    i,
                ) implies buffer@.depth[cell] == samples@[i].depth && buffer@.pixels[cell]
                == samples@[i].illumination by {
                lemma_shown_sample(blank, samples@, cell, i);
            }
            assert forall|cell: int|
                0 <= cell < canvas.width() * canvas.height() && untouched(
                    blank,
                    samples@,
                    cell,
                ) implies buffer@.depth[cell] == EMPTY_DEPTH && buffer@.pixels[cell] == 0 by {
                lemma_untouched_cell_unchanged(blank, samples@, cell);
            }
        }
        buffer
    }

    /// The drawing area that the frame covers.
    pub fn canvas(&self) -> (canvas: Terminal3d)
        ensures
            canvas.width() == self@.width,
            canvas.height() == self@.height,
            self@.wf(),
    {
        proof {
            use_type_invariant(self);
            self.canvas.lemma_sides();
        }
        self.canvas
    }

    /// Depth metric and illumination of the sample that the cell in column `x`
    /// of row `y` holds; `None` for an empty cell and for a position off the
    /// drawing area.
    pub fn cell(&self, x: i64, y: i64) -> (held: Option<(u64, u8)>)
        ensures
            held == match cell_offset(self@.width, self@.height, x as int, y as int) {
                Some(i) => if self@.occupied(i) {
                    Some((self@.depth[i], self@.pixels[i]))
                } else {
                    None
                },
                None => None,
            },
    {
        proof {
            use_type_invariant(self);
        }
        match self.canvas.cell_index(x, y) {
            Some(offset) => {
                if self.depth[offset] != EMPTY_DEPTH {
                    Some((self.depth[offset], self.pixels[offset]))
                } else {
                    None
                }
            },
            None => None,
        }
    }
}

} // verus!
