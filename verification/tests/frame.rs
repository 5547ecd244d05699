use terminal3d::canvas::Terminal3d;
use terminal3d::frame::{FrameBuffer, ProjectedSample, EMPTY_DEPTH};

fn sample(x: i64, y: i64, depth: u64, illumination: u8) -> ProjectedSample {
    ProjectedSample { x, y, depth, illumination }
}

fn area(width: u16, height: u16) -> Terminal3d {
    Terminal3d::new(width, height).unwrap()
}

#[test]
fn a_new_frame_is_empty() {
    let buffer = FrameBuffer::new(&area(4, 3));
    for y in 0..3 {
        for x in 0..4 {
            assert_eq!(buffer.cell(x, y), None);
        }
    }
    assert_eq!(buffer.canvas().get_size(), (4, 3));
}

#[test]
fn plot_retains_a_sample_on_an_empty_cell() {
    let mut buffer = FrameBuffer::new(&area(4, 3));
    assert!(buffer.plot(sample(1, 2, 10, 200)));
    assert_eq!(buffer.cell(1, 2), Some((10, 200)));
    assert_eq!(buffer.cell(2, 1), None);
    assert_eq!(buffer.cell(0, 0), None);
}

#[test]
fn plot_takes_the_first_row_and_the_first_column() {
    let mut buffer = FrameBuffer::new(&area(4, 3));
    assert!(buffer.plot(sample(0, 0, 1, 9)));
    assert!(buffer.plot(sample(3, 0, 1, 8)));
    assert!(buffer.plot(sample(0, 2, 1, 7)));
    assert!(buffer.plot(sample(3, 2, 1, 6)));
    assert_eq!(buffer.cell(0, 0), Some((1, 9)));
    assert_eq!(buffer.cell(3, 0), Some((1, 8)));
    assert_eq!(buffer.cell(0, 2), Some((1, 7)));
    assert_eq!(buffer.cell(3, 2), Some((1, 6)));
}

#[test]
fn plot_discards_a_sample_off_the_area() {
    let mut buffer = FrameBuffer::new(&area(4, 3));
    let empty = FrameBuffer::new(&area(4, 3));
    assert!(!buffer.plot(sample(4, 0, 10, 200)));
    assert!(!buffer.plot(sample(0, 3, 10, 200)));
    assert!(!buffer.plot(sample(-1, 0, 10, 200)));
    assert!(!buffer.plot(sample(0, -1, 10, 200)));
    assert!(!buffer.plot(sample(i64::MAX, i64::MIN, u64::MAX, 255)));
    assert_eq!(buffer, empty);
}

#[test]
fn plot_never_retains_the_empty_depth() {
    let mut buffer = FrameBuffer::new(&area(4, 3));
    assert!(!buffer.plot(sample(1, 1, EMPTY_DEPTH, 200)));
    assert_eq!(buffer.cell(1, 1), None);
    assert_eq!(buffer, FrameBuffer::new(&area(4, 3)));
}

#[test]
fn plot_overwrites_with_a_nearer_sample() {
    let mut buffer = FrameBuffer::new(&area(4, 3));
    assert!(buffer.plot(sample(2, 1, 10, 50)));
    assert!(buffer.plot(sample(2, 1, 11, 60)));
    assert_eq!(buffer.cell(2, 1), Some((11, 60)));
}

#[test]
fn plot_discards_a_farther_sample() {
    let mut buffer = FrameBuffer::new(&area(4, 3));
    assert!(buffer.plot(sample(2, 1, 11, 60)));
    assert!(!buffer.plot(sample(2, 1, 10, 50)));
    assert_eq!(buffer.cell(2, 1), Some((11, 60)));
}

#[test]
fn plot_keeps_the_earlier_of_two_equally_near_samples() {
    let mut buffer = FrameBuffer::new(&area(4, 3));
    assert!(buffer.plot(sample(2, 1, 10, 50)));
    assert!(!buffer.plot(sample(2, 1, 10, 60)));
    assert_eq!(buffer.cell(2, 1), Some((10, 50)));
}

#[test]
fn the_nearer_sample_wins_in_either_order() {
    let far = sample(3, 2, 7, 100);
    let near = sample(3, 2, 9, 30);
    let mut one = FrameBuffer::new(&area(4, 3));
    one.plot(far);
    one.plot(near);
    let mut other = FrameBuffer::new(&area(4, 3));
    other.plot(near);
    other.plot(far);
    assert_eq!(one, other);
    assert_eq!(one.cell(3, 2), Some((9, 30)));
}

#[test]
fn plot_all_offers_the_samples_in_order() {
    let samples = vec![
        sample(0, 0, 5, 1),
        sample(1, 0, 5, 2),
        sample(0, 0, 6, 3),
        sample(1, 0, 4, 4),
        sample(9, 9, 9, 9),
        sample(0, 0, 6, 5),
    ];
    let mut batch = FrameBuffer::new(&area(2, 2));
    batch.plot_all(&samples);
    let mut single = FrameBuffer::new(&area(2, 2));
    for s in &samples {
        single.plot(*s);
    }
    assert_eq!(batch, single);
    assert_eq!(batch.cell(0, 0), Some((6, 3)));
    assert_eq!(batch.cell(1, 0), Some((5, 2)));
    assert_eq!(batch.cell(0, 1), None);
    assert_eq!(batch.cell(1, 1), None);
}

#[test]
fn plot_all_builds_on_what_the_frame_holds() {
    let mut buffer = FrameBuffer::new(&area(2, 2));
    buffer.plot(sample(1, 1, 8, 80));
    buffer.plot_all(&vec![sample(1, 1, 7, 70), sample(0, 1, 1, 10)]);
    assert_eq!(buffer.cell(1, 1), Some((8, 80)));
    assert_eq!(buffer.cell(0, 1), Some((1, 10)));
}

#[test]
fn composite_starts_from_an_empty_frame() {
    let samples = vec![sample(1, 0, 3, 30), sample(1, 0, 2, 20), sample(0, 1, 1, 10)];
    let buffer = FrameBuffer::composite(&area(2, 2), &samples);
    assert_eq!(buffer.cell(0, 0), None);
    assert_eq!(buffer.cell(1, 0), Some((3, 30)));
    assert_eq!(buffer.cell(0, 1), Some((1, 10)));
    assert_eq!(buffer.cell(1, 1), None);
    assert_eq!(FrameBuffer::composite(&area(2, 2), &vec![]), FrameBuffer::new(&area(2, 2)));
}

#[test]
fn composite_does_not_depend_on_the_order_of_the_samples() {
    let samples = vec![
        sample(0, 0, 5, 1),
        sample(1, 0, 5, 2),
        sample(0, 0, 6, 3),
        sample(1, 0, 4, 4),
        sample(1, 1, 2, 5),
        sample(1, 1, 3, 6),
        sample(1, 1, 1, 7),
        sample(-3, 1, 9, 8),
    ];
    let expected = FrameBuffer::composite(&area(2, 2), &samples);
    let mut reversed = samples.clone();
    reversed.reverse();
    assert_eq!(FrameBuffer::composite(&area(2, 2), &reversed), expected);
    let mut rotated = samples.clone();
    for _ in 0..samples.len() {
        rotated.rotate_left(1);
        assert_eq!(FrameBuffer::composite(&area(2, 2), &rotated), expected);
    }
    let mut doubled = samples.clone();
    doubled.extend(reversed);
    assert_eq!(FrameBuffer::composite(&area(2, 2), &doubled), expected);
}

#[test]
fn composite_shows_the_first_of_the_nearest_samples() {
    let samples = vec![
        sample(0, 0, 5, 1),
        sample(0, 0, 9, 2),
        sample(0, 0, 9, 3),
        sample(0, 0, 8, 4),
    ];
    let buffer = FrameBuffer::composite(&area(1, 1), &samples);
    assert_eq!(buffer.cell(0, 0), Some((9, 2)));
}

#[test]
fn cell_has_nothing_off_the_area() {
    let mut buffer = FrameBuffer::new(&area(2, 2));
    buffer.plot_all(&vec![sample(0, 0, 1, 1), sample(1, 1, 1, 1)]);
    assert_eq!(buffer.cell(2, 0), None);
    assert_eq!(buffer.cell(0, 2), None);
    assert_eq!(buffer.cell(-1, 1), None);
    assert_eq!(buffer.cell(1, -1), None);
}

#[test]
fn an_occupied_cell_may_be_dark() {
    let mut buffer = FrameBuffer::new(&area(2, 2));
    assert!(buffer.plot(sample(1, 0, 4, 0)));
    assert_eq!(buffer.cell(1, 0), Some((4, 0)));
}

#[test]
fn the_depths_do_not_depend_on_the_order_even_where_ties_disagree() {
    let samples = vec![
        sample(0, 0, 9, 1),
        sample(0, 0, 9, 2),
        sample(1, 0, 4, 3),
        sample(1, 0, 4, 4),
        sample(1, 0, 3, 5),
        sample(0, 1, 7, 6),
    ];
    let mut reversed = samples.clone();
    reversed.reverse();
    let one = FrameBuffer::composite(&area(2, 2), &samples);
    let other = FrameBuffer::composite(&area(2, 2), &reversed);
    for y in 0..2 {
        for x in 0..2 {
            assert_eq!(one.cell(x, y).map(|held| held.0), other.cell(x, y).map(|held| held.0));
        }
    }
    assert_eq!(one.cell(0, 0), Some((9, 1)));
    assert_eq!(other.cell(0, 0), Some((9, 2)));
    assert_eq!(one.cell(1, 0), Some((4, 3)));
    assert_eq!(other.cell(1, 0), Some((4, 4)));
    assert_eq!(one.cell(0, 1), other.cell(0, 1));
    assert_ne!(one, other);
}
