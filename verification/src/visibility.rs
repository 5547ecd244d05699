//! What the depth test amounts to over a whole frame: which sample a cell
//! shows, and why the order of the samples does not matter.

use crate::frame::{
    lemma_plot_all_keeps_shape, lemma_plot_keeps_shape, lemma_target_in_range, Frame,
    ProjectedSample, EMPTY_DEPTH,
};
use vstd::prelude::*;

verus! {

/// No sample that maps to `cell` has a depth metric above `bound`, and those
/// before position `before` stay strictly below it.
pub open spec fn none_nearer(
    frame: Frame,
    samples: Seq<ProjectedSample>,
    cell: int,
    bound: int,
    before: int,
) -> bool {
    forall|j: int|
        0 <= j < samples.len() && frame.target(#[trigger] samples[j]) == Some(cell) ==> {
            &&& samples[j].depth <= bound
            &&& j < before ==> samples[j].depth < bound
        }
}

/// Sample `i` is the one that `cell` shows once `samples` have been offered to
/// `frame`: it maps to the cell, is nearer than what the cell held before, no
/// sample on the cell is nearer, and every earlier sample on the cell is
/// strictly farther.
pub open spec fn shows(frame: Frame, samples: Seq<ProjectedSample>, cell: int, i: int) -> bool {
    &&& 0 <= i < samples.len()
    &&& frame.target(samples[i]) == Some(cell)
    &&& samples[i].depth > frame.depth[cell]
    &&& none_nearer(frame, samples, cell, samples[i].depth as int, i)
}

/// No sample that maps to `cell` is nearer than what the cell holds in `frame`.
pub open spec fn untouched(frame: Frame, samples: Seq<ProjectedSample>, cell: int) -> bool {
    none_nearer(frame, samples, cell, frame.depth[cell] as int, 0)
}

/// A bound that holds of all samples but the last, and of the last, holds of
/// all.
proof fn lemma_none_nearer_extends(
    frame: Frame,
    samples: Seq<ProjectedSample>,
    cell: int,
    bound: int,
    before: int,
)
    requires
        samples.len() > 0,
        none_nearer(frame, samples.drop_last(), cell, bound, before),
        frame.target(samples.last()) == Some(cell) ==> samples.last().depth <= bound && (
        samples.len() - 1 < before ==> samples.last().depth < bound),
    ensures
        none_nearer(frame, samples, cell, bound, before),
{
    assert forall|j: int|
        0 <= j < samples.len() && frame.target(#[trigger] samples[j]) == Some(
            cell,
        ) implies samples[j].depth <= bound && (j < before ==> samples[j].depth < bound) by {
        if j < samples.len() - 1 {
            assert(samples.drop_last()[j] == samples[j]);
        }
    }
}

/// A bound that holds of all samples holds of all but the last.
proof fn lemma_none_nearer_shrinks(
    frame: Frame,
    samples: Seq<ProjectedSample>,
    cell: int,
    bound: int,
    before: int,
)
    requires
        samples.len() > 0,
        none_nearer(frame, samples, cell, bound, before),
    ensures
        none_nearer(frame, samples.drop_last(), cell, bound, before),
{
    assert forall|j: int|
        0 <= j < samples.drop_last().len() && frame.target(#[trigger] samples.drop_last()[j])
            == Some(cell) implies samples.drop_last()[j].depth <= bound && (j < before
        ==> samples.drop_last()[j].depth < bound) by {
        assert(samples.drop_last()[j] == samples[j]);
    }
}

/// Two samples that meet on a cell with the same depth metric carry the same
/// illumination.
pub open spec fn ties_agree(frame: Frame, samples: Seq<ProjectedSample>) -> bool {
    forall|i: int, j: int|
        0 <= i < samples.len() && 0 <= j < samples.len() && frame.target(#[trigger] samples[i])
            is Some && frame.target(samples[i]) == frame.target(#[trigger] samples[j])
            && samples[i].depth == samples[j].depth ==> samples[i].illumination
            == samples[j].illumination
}

/// A cell written twice keeps the nearer sample, whichever was offered first:
/// when `far` and `near` map to the same cell, `near` has the larger depth
/// metric and the frame admits it, both orders give the same frame, and its
/// cell holds the depth and the illumination of `near`.
pub proof fn lemma_nearer_sample_wins(frame: Frame, far: ProjectedSample, near: ProjectedSample)
    requires
        frame.wf(),
        frame.target(far) == frame.target(near),
        far.depth < near.depth,
        frame.admits(near),
    ensures
        frame.plot(far).plot(near) == frame.plot(near).plot(far),
        frame.plot(far).plot(near).depth[frame.target(near).unwrap()] == near.depth,
        frame.plot(far).plot(near).pixels[frame.target(near).unwrap()] == near.illumination,
{
    lemma_target_in_range(frame, near);
    lemma_plot_commutes(frame, far, near);
}

/// Offering two samples in either order gives the same frame, unless they
/// meet on a cell with the same depth metric and different illumination.
pub proof fn lemma_plot_commutes(frame: Frame, a: ProjectedSample, b: ProjectedSample)
    requires
        frame.wf(),
        frame.target(a) is Some && frame.target(a) == frame.target(b) && a.depth == b.depth
            ==> a.illumination == b.illumination,
    ensures
        frame.plot(a).plot(b) == frame.plot(b).plot(a),
{
    lemma_target_in_range(frame, a);
    lemma_target_in_range(frame, b);
    lemma_plot_keeps_shape(frame, a);
    lemma_plot_keeps_shape(frame, b);
    let one = frame.plot(a).plot(b);
    let other = frame.plot(b).plot(a);
    assert(one.depth =~= other.depth);
    assert(one.pixels =~= other.pixels);
}

/// Offering samples leaves alone every cell that none of them maps to with a
/// larger depth metric than the cell holds.
pub proof fn lemma_untouched_cell_unchanged(
    frame: Frame,
    samples: Seq<ProjectedSample>,
    cell: int,
)
    requires
        frame.wf(),
        0 <= cell < frame.width * frame.height,
        untouched(frame, samples, cell),
    ensures
        frame.plot_all(samples).depth[cell] == frame.depth[cell],
        frame.plot_all(samples).pixels[cell] == frame.pixels[cell],
    decreases samples.len(),
{
    if samples.len() > 0 {
        let earlier = samples.drop_last();
        let before = frame.plot_all(earlier);
        lemma_plot_all_keeps_shape(frame, earlier);
        lemma_none_nearer_shrinks(frame, samples, cell, frame.depth[cell] as int, 0);
        lemma_untouched_cell_unchanged(frame, earlier, cell);
        assert(samples.last() == samples[samples.len() - 1]);
        lemma_target_in_range(before, samples.last());
    }
}

/// The cell shows the sample that `shows` singles out: after the samples have
/// been offered, it holds that sample's depth metric and illumination.
pub proof fn lemma_shown_sample(frame: Frame, samples: Seq<ProjectedSample>, cell: int, i: int)
    requires
        frame.wf(),
        0 <= cell < frame.width * frame.height,
        shows(frame, samples, cell, i),
    ensures
        frame.plot_all(samples).depth[cell] == samples[i].depth,
        frame.plot_all(samples).pixels[cell] == samples[i].illumination,
    decreases samples.len(),
{
    let earlier = samples.drop_last();
    let last = samples.last();
    let before = frame.plot_all(earlier);
    lemma_plot_all_keeps_shape(frame, earlier);
    assert(last == samples[samples.len() - 1]);
    lemma_none_nearer_shrinks(frame, samples, cell, samples[i].depth as int, i);
    lemma_target_in_range(before, last);
    if i == samples.len() - 1 {
        lemma_cell_outcome(frame, earlier, cell);
        if exists|k: int| shows(frame, earlier, cell, k) {
            let k = choose|k: int| shows(frame, earlier, cell, k);
            lemma_shown_sample(frame, earlier, cell, k);
            assert(earlier[k] == samples[k]);
        } else {
            lemma_untouched_cell_unchanged(frame, earlier, cell);
        }
    } else {
        assert(earlier[i] == samples[i]);
        lemma_shown_sample(frame, earlier, cell, i);
    }
}

/// Every cell either shows one of the samples or is reached by none.
pub proof fn lemma_cell_outcome(frame: Frame, samples: Seq<ProjectedSample>, cell: int)
    requires
        frame.wf(),
        0 <= cell < frame.width * frame.height,
    ensures
        (exists|i: int| shows(frame, samples, cell, i)) || untouched(frame, samples, cell),
    decreases samples.len(),
{
    if samples.len() > 0 {
        let earlier = samples.drop_last();
        let last = samples.last();
        let n = samples.len() - 1;
        let lands = frame.target(last) == Some(cell);
        assert(last == samples[n]);
        lemma_cell_outcome(frame, earlier, cell);
        if exists|k: int| shows(frame, earlier, cell, k) {
            let k = choose|k: int| shows(frame, earlier, cell, k);
            assert(earlier[k] == samples[k]);
            let winner = if lands && last.depth > samples[k].depth {
                n
            } else {
                k
            };
            lemma_none_nearer_extends(frame, samples, cell, samples[winner].depth as int, winner);
            assert(shows(frame, samples, cell, winner));
        } else if lands && last.depth > frame.depth[cell] {
            lemma_none_nearer_extends(frame, samples, cell, last.depth as int, n);
            assert(shows(frame, samples, cell, n));
        } else {
            lemma_none_nearer_extends(frame, samples, cell, frame.depth[cell] as int, 0);
        }
    }
}

/// On a frame that starts empty, a cell ends up occupied exactly when some
/// sample with a depth metric above `EMPTY_DEPTH` maps to it.
pub proof fn lemma_occupied_cells(
    width: nat,
    height: nat,
    samples: Seq<ProjectedSample>,
    cell: int,
)
    requires
        0 < width <= u16::MAX,
        0 < height <= u16::MAX,
        0 <= cell < width * height,
    ensures
        Frame::blank(width, height).plot_all(samples).occupied(cell) <==> exists|j: int|
            0 <= j < samples.len() && Frame::blank(width, height).target(#[trigger] samples[j])
                == Some(cell) && samples[j].depth > EMPTY_DEPTH,
{
    let frame = Frame::blank(width, height);
    lemma_cell_outcome(frame, samples, cell);
    if exists|i: int| shows(frame, samples, cell, i) {
        let i = choose|i: int| shows(frame, samples, cell, i);
        lemma_shown_sample(frame, samples, cell, i);
    } else {
        lemma_untouched_cell_unchanged(frame, samples, cell);
    }
}

/// After the same samples in another order, a cell holds the same depth
/// metric, and the same illumination where ties agree.
proof fn lemma_cell_order_irrelevant(
    frame: Frame,
    a: Seq<ProjectedSample>,
    b: Seq<ProjectedSample>,
    cell: int,
)
    requires
        frame.wf(),
        0 <= cell < frame.width * frame.height,
        forall|s: ProjectedSample| a.contains(s) <==> b.contains(s),
    ensures
        frame.plot_all(a).depth[cell] == frame.plot_all(b).depth[cell],
        ties_agree(frame, a) ==> frame.plot_all(a).pixels[cell] == frame.plot_all(b).pixels[cell],
{
    lemma_cell_outcome(frame, a, cell);
    lemma_cell_outcome(frame, b, cell);
    if exists|i: int| shows(frame, a, cell, i) {
        let i = choose|i: int| shows(frame, a, cell, i);
        assert(a.contains(a[i]));
        let m = choose|m: int| 0 <= m < b.len() && b[m] == a[i];
        if exists|k: int| shows(frame, b, cell, k) {
            let k = choose|k: int| shows(frame, b, cell, k);
            assert(b.contains(b[k]));
            let n = choose|n: int| 0 <= n < a.len() && a[n] == b[k];
            assert(b[m].depth <= b[k].depth);
            assert(a[n].depth <= a[i].depth);
            assert(ties_agree(frame, a) ==> a[i].illumination == a[n].illumination);
            lemma_shown_sample(frame, a, cell, i);
            lemma_shown_sample(frame, b, cell, k);
        } else {
            assert(b[m].depth <= frame.depth[cell]);
        }
    } else {
        if exists|k: int| shows(frame, b, cell, k) {
            let k = choose|k: int| shows(frame, b, cell, k);
            assert(b.contains(b[k]));
            let n = choose|n: int| 0 <= n < a.len() && a[n] == b[k];
            assert(a[n].depth <= frame.depth[cell]);
        } else {
            lemma_untouched_cell_unchanged(frame, a, cell);
            lemma_untouched_cell_unchanged(frame, b, cell);
        }
    }
}

/// The depth buffer does not depend on the order in which the samples are
/// offered: two sequences that hold the same samples give the same depth
/// metric in every cell, hence the same occupied cells.
pub proof fn lemma_depth_order_irrelevant(
    frame: Frame,
    a: Seq<ProjectedSample>,
    b: Seq<ProjectedSample>,
)
    requires
        frame.wf(),
        forall|s: ProjectedSample| a.contains(s) <==> b.contains(s),
    ensures
        frame.plot_all(a).depth == frame.plot_all(b).depth,
{
    lemma_plot_all_keeps_shape(frame, a);
    lemma_plot_all_keeps_shape(frame, b);
    assert forall|cell: int| 0 <= cell < frame.width * frame.height implies frame.plot_all(
        a,
    ).depth[cell] == frame.plot_all(b).depth[cell] by {
        lemma_cell_order_irrelevant(frame, a, b, cell);
    }
    assert(frame.plot_all(a).depth =~= frame.plot_all(b).depth);
}

/// The frame does not depend on the order in which the samples are offered:
/// two sequences that hold the same samples give the same frame, provided that
/// samples which meet on a cell with the same depth metric agree in
/// illumination. (Of two such samples that differ in illumination the cell
/// shows the one offered first.)
pub proof fn lemma_order_irrelevant(
    frame: Frame,
    a: Seq<ProjectedSample>,
    b: Seq<ProjectedSample>,
)
    requires
        frame.wf(),
        forall|s: ProjectedSample| a.contains(s) <==> b.contains(s),
        ties_agree(frame, a),
    ensures
        frame.plot_all(a) == frame.plot_all(b),
{
    let one = frame.plot_all(a);
    let other = frame.plot_all(b);
    lemma_plot_all_keeps_shape(frame, a);
    lemma_plot_all_keeps_shape(frame, b);
    lemma_depth_order_irrelevant(frame, a, b);
    assert forall|cell: int| 0 <= cell < frame.width * frame.height implies one.pixels[cell]
        == other.pixels[cell] by {
        lemma_cell_order_irrelevant(frame, a, b, cell);
    }
    assert(one.pixels =~= other.pixels);
}

} // verus!
