//! The frame renderer: from a composited frame to the instructions that draw
//! it, cell by cell in row-major order, with a line break after every row.

use crate::canvas::{lemma_offset_in_range, Terminal3d};
use crate::frame::{
    lemma_plot_all_keeps_shape, lemma_target_in_range, Frame, FrameBuffer, ProjectedSample,
    EMPTY_DEPTH,
};
use crate::visibility::lemma_occupied_cells;
use crate::shading::{
    lemma_shade_index_ends, lemma_shade_index_in_range, lemma_shade_index_monotone, shade_index,
    torus_glyph, TORUS_RAMP,
};
use vstd::arithmetic::div_mod::lemma_fundamental_div_mod_converse;
use vstd::prelude::*;

verus! {

/// How an occupied cell is drawn.
#[derive(Clone, Copy, Debug, PartialEq, Eq, Structural)]
pub enum RenderMode {
    /// The glyph of the torus ramp for the cell's illumination.
    Ascii,
    /// One fixed glyph in a gray whose level is the cell's illumination.
    Grayscale,
}

/// One drawing instruction.
#[derive(Clone, Copy, Debug, PartialEq, Eq, Structural)]
pub enum Paint {
    /// An empty cell: background.
    Blank,
    /// A glyph in the terminal's own colours.
    Plain(char),
    /// The fixed glyph in the gray of this level, from black at 0 to white at
    /// 255.
    Gray(u8),
    /// The end of a row.
    LineBreak,
}

/// Glyph that stands in every occupied cell of a grayscale frame.
pub const GRAY_GLYPH: char = '*';

/// The instruction that draws the cell at `offset`.
pub open spec fn paint_of(frame: Frame, mode: RenderMode, offset: int) -> Paint {
    if !frame.occupied(offset) {
        Paint::Blank
    } else {
        match mode {
            RenderMode::Ascii => Paint::Plain(
                TORUS_RAMP@[shade_index(frame.pixels[offset], 12)],
            ),
            RenderMode::Grayscale => Paint::Gray(frame.pixels[offset]),
        }
    }
}

/// The instructions that draw a frame: `height` rows, each of `width` cells
/// from left to right followed by a line break.
pub open spec fn rendered(frame: Frame, mode: RenderMode) -> Seq<Paint> {
    Seq::new(
        frame.height * (frame.width + 1),
        |k: int|
            {
                let row = k / (frame.width as int + 1);
                let column = k % (frame.width as int + 1);
                if column == frame.width as int {
                    Paint::LineBreak
                } else {
                    paint_of(frame, mode, row * frame.width as int + column)
                }
            },
    )
}

/// Where the instructions of a row stand: the cell in column `column` of row
/// `row` is drawn by instruction `row * (width + 1) + column`, and the
/// instruction that follows the last cell of the row is the line break.
pub proof fn lemma_row_layout(frame: Frame, mode: RenderMode, row: int, column: int)
    requires
        frame.wf(),
        0 <= row < frame.height,
        0 <= column <= frame.width,
    ensures
        0 <= row * (frame.width + 1) + column < rendered(frame, mode).len(),
        column < frame.width ==> rendered(frame, mode)[row * (frame.width + 1) + column]
            == paint_of(frame, mode, row * frame.width + column),
        column == frame.width ==> rendered(frame, mode)[row * (frame.width + 1) + column]
            == Paint::LineBreak,
{
    let stride = frame.width as int + 1;
    lemma_offset_in_range((frame.width + 1) as nat, frame.height, column, row);
    lemma_fundamental_div_mod_converse(row * stride + column, stride, row, column);
}

/// Brightness is kept in order: of two occupied cells the brighter one is
/// drawn with a glyph at the same or a later position of the ramp, and with
/// the same or a lighter gray. The darkest illumination gets the first glyph
/// of the ramp and the brightest the last.
pub proof fn lemma_brightness_is_kept_in_order(frame: Frame, darker: int, brighter: int)
    requires
        frame.occupied(darker),
        frame.occupied(brighter),
        frame.pixels[darker] <= frame.pixels[brighter],
    ensures
        paint_of(frame, RenderMode::Ascii, darker) == Paint::Plain(
            TORUS_RAMP@[shade_index(frame.pixels[darker], 12)],
        ),
        paint_of(frame, RenderMode::Ascii, brighter) == Paint::Plain(
            TORUS_RAMP@[shade_index(frame.pixels[brighter], 12)],
        ),
        0 <= shade_index(frame.pixels[darker], 12) <= shade_index(frame.pixels[brighter], 12)
            < 12,
        frame.pixels[darker] == 0 ==> shade_index(frame.pixels[darker], 12) == 0,
        frame.pixels[brighter] == 255 ==> shade_index(frame.pixels[brighter], 12) == 11,
        paint_of(frame, RenderMode::Grayscale, darker) == Paint::Gray(frame.pixels[darker]),
        paint_of(frame, RenderMode::Grayscale, brighter) == Paint::Gray(frame.pixels[brighter]),
{
    lemma_shade_index_in_range(frame.pixels[darker], 12);
    lemma_shade_index_in_range(frame.pixels[brighter], 12);
    lemma_shade_index_monotone(frame.pixels[darker], frame.pixels[brighter], 12);
    lemma_shade_index_ends(12);
}

/// A frame is not empty once a sample lands on it: when some sample with a
/// depth metric above `EMPTY_DEPTH` maps to the cell in column `x` of row `y`,
/// the instruction for that cell is a glyph or a gray, not a blank.
pub proof fn lemma_landed_sample_is_drawn(
    width: nat,
    height: nat,
    samples: Seq<ProjectedSample>,
    mode: RenderMode,
    j: int,
)
    requires
        0 < width <= u16::MAX,
        0 < height <= u16::MAX,
        0 <= j < samples.len(),
        Frame::blank(width, height).target(samples[j]) is Some,
        samples[j].depth > EMPTY_DEPTH,
    ensures
        0 <= samples[j].y * (width + 1) + samples[j].x < rendered(
            Frame::blank(width, height).plot_all(samples),
            mode,
        ).len(),
        rendered(Frame::blank(width, height).plot_all(samples), mode)[samples[j].y * (width + 1)
            + samples[j].x] != Paint::Blank,
{
    let blank = Frame::blank(width, height);
    let frame = blank.plot_all(samples);
    let cell = blank.target(samples[j]).unwrap();
    lemma_plot_all_keeps_shape(blank, samples);
    lemma_target_in_range(blank, samples[j]);
    lemma_occupied_cells(width, height, samples, cell);
    lemma_row_layout(frame, mode, samples[j].y as int, samples[j].x as int);
}

/// A frame is a function of its samples: on drawing areas of the same size,
/// two runs over the same samples composite to the same frame and render to
/// the same instructions.
pub proof fn lemma_frame_is_determined(
    width: nat,
    height: nat,
    one: Seq<ProjectedSample>,
    other: Seq<ProjectedSample>,
    mode: RenderMode,
)
    requires
        one.len() == other.len(),
        forall|k: int| 0 <= k < one.len() ==> one[k] == other[k],
    ensures
        Frame::blank(width, height).plot_all(one) == Frame::blank(width, height).plot_all(other),
        rendered(Frame::blank(width, height).plot_all(one), mode) == rendered(
            Frame::blank(width, height).plot_all(other),
            mode,
        ),
{
    assert(one =~= other);
}

impl FrameBuffer {
    /// The instructions that draw the frame. An empty cell is blank; an
    /// occupied one is drawn from its illumination as `mode` says.
    pub fn render(&self, mode: RenderMode) -> (paints: Vec<Paint>)
        ensures
            paints@ == rendered(self@, mode),
    {
        let canvas: Terminal3d = self.canvas();
        let (width, height): (usize, usize) = canvas.get_size();
        let mut paints: Vec<Paint> = Vec::new();
        let mut row: usize = 0;
        while row < height
            invariant
                width == self@.width,
                height == self@.height,
                self@.wf(),
                row <= height,
                paints@.len() == row * (width + 1),
                forall|k: int| 0 <= k < paints@.len() ==> paints@[k] == rendered(self@, mode)[k],
            decreases height - row,
        {
            let mut column: usize = 0;
            while column < width
                invariant
                    width == self@.width,
                    height == self@.height,
                    self@.wf(),
                    row < height,
                    column <= width,
                    paints@.len() == row * (width + 1) + column,
                    forall|k: int|
                        0 <= k < paints@.len() ==> paints@[k] == rendered(self@, mode)[k],
                decreases width - column,
            {
                proof {
                    lemma_row_layout(self@, mode, row as int, column as int);
                }
                let paint: Paint = match self.cell(column as i64, row as i64) {
                    None => Paint::Blank,
                    Some((_, illumination)) => match mode {
                        RenderMode::Ascii => Paint::Plain(torus_glyph(illumination)),
                        RenderMode::Grayscale => Paint::Gray(illumination),
                    },
                };
                paints.push(paint);
                column = column + 1;
            }
            proof {
                lemma_row_layout(self@, mode, row as int, width as int);
                assert(row * (width + 1) + width + 1 == (row + 1) * (width + 1))
                    by (nonlinear_arith);
            }
            paints.push(Paint::LineBreak);
            row = row + 1;
        }
        proof {
            assert(paints@ =~= rendered(self@, mode));
        }
        paints
    }
}

impl Terminal3d {
    /// The instructions that draw one frame of the torus: the samples are
    /// composited on an empty drawing area, nearest first wherever several
    /// map to one cell, and the frame is rendered row by row.
    pub fn draw_donut(&self, samples: &Vec<ProjectedSample>, mode: RenderMode) -> (paints: Vec<
        Paint,
    >)
        ensures
            paints@ == rendered(
                Frame::blank(self.width(), self.height()).plot_all(samples@),
                mode,
            ),
    {
        let buffer: FrameBuffer = FrameBuffer::composite(self, samples);
        buffer.render(mode)
    }
}

} // verus!
