use terminal3d::canvas::Terminal3d;
use terminal3d::frame::{FrameBuffer, ProjectedSample};
use terminal3d::render::{Paint, RenderMode};
use terminal3d::rotation::{AngleStep, RotationState};
use terminal3d::sampler::{Shape, SurfaceSample};

fn radians(angle: u64) -> f64 {
    angle as f64 / 18446744073709551616.0 * std::f64::consts::TAU
}

/// Radii of a torus: from the axis to the middle of the tube, and of the tube.
#[derive(Clone, Copy)]
struct Torus {
    revolution: f64,
    tube: f64,
}

const SLIM: Torus = Torus { revolution: 2.0, tube: 0.8 };
const ROUND: Torus = Torus { revolution: 2.0, tube: 1.0 };

/// A sample of the torus as seen from distance 5, with the vertical halved for
/// the shape of a cell.
fn project(
    torus: Torus,
    sample: SurfaceSample,
    rotation: RotationState,
    size: (usize, usize),
) -> ProjectedSample {
    let (width, height) = (size.0 as f64, size.1 as f64);
    let theta = sample.theta as f64 / 100.0;
    let phi = sample.phi as f64 / 100.0;
    let (sin_a, cos_a) = radians(rotation.azimuth).sin_cos();
    let (sin_b, cos_b) = radians(rotation.polar).sin_cos();
    let (sin_t, cos_t) = theta.sin_cos();
    let (sin_p, cos_p) = phi.sin_cos();
    let h = torus.tube * cos_t + torus.revolution;
    let distance = 0.80 / (cos_p * h * sin_a + torus.tube * sin_t * cos_a + 5.0);
    let t = cos_p * h * cos_a - torus.tube * sin_t * sin_a;
    let x = width / 2.0 + width / 1.2 * distance * (sin_p * h * cos_b - t * sin_b);
    let y = height / 2.0 + height / 1.2 * distance * (sin_p * h * sin_b + t * cos_b) * 0.5;
    let light = (256.0
        * ((sin_t * sin_a - cos_p * cos_t * cos_a) * cos_b
            - cos_p * cos_t * sin_a
            - sin_t * cos_a
            - sin_p * cos_t * sin_b)
        + 256.0)
        / 2.0;
    ProjectedSample {
        x: x.floor() as i64,
        y: y.floor() as i64,
        depth: if distance > 0.0 { distance.to_bits() } else { 0 },
        illumination: light as u8,
    }
}

fn projected_torus(
    torus: Torus,
    canvas: &Terminal3d,
    rotation: RotationState,
) -> Vec<ProjectedSample> {
    Shape::Torus
        .samples()
        .into_iter()
        .map(|sample| project(torus, sample, rotation, canvas.get_size()))
        .collect()
}

fn projected(canvas: &Terminal3d, rotation: RotationState) -> Vec<ProjectedSample> {
    projected_torus(SLIM, canvas, rotation)
}

fn frame(canvas: &Terminal3d, rotation: RotationState) -> FrameBuffer {
    FrameBuffer::composite(canvas, &projected(canvas, rotation))
}

/// Number of occupied cells, largest illumination, first occupied row.
fn survey(buffer: &FrameBuffer) -> (usize, u8, Option<i64>) {
    let (width, height) = buffer.canvas().get_size();
    let mut occupied = 0;
    let mut brightest = 0u8;
    let mut top = None;
    for y in 0..height as i64 {
        for x in 0..width as i64 {
            if let Some((_, light)) = buffer.cell(x, y) {
                occupied += 1;
                brightest = brightest.max(light);
                if top.is_none() {
                    top = Some(y);
                }
            }
        }
    }
    (occupied, brightest, top)
}

fn wide() -> Terminal3d {
    Terminal3d::new(80, 24).unwrap()
}

#[test]
fn the_torus_at_rest_is_brightest_at_the_top_centre() {
    let samples = projected_torus(SLIM, &wide(), RotationState::new());
    assert_eq!(samples.len(), 90 * 314);
    let buffer = FrameBuffer::composite(&wide(), &samples);
    let (occupied, brightest, top) = survey(&buffer);
    assert!(occupied > 300, "only {} cells are occupied", occupied);
    assert_eq!(brightest, 255);
    let top = top.unwrap();
    assert!(top < 12, "the torus starts at row {}", top);
    let first = (0..24)
        .flat_map(|y| (0..80).map(move |x| (x, y)))
        .find(|(x, y)| matches!(buffer.cell(*x, *y), Some((_, 255))))
        .unwrap();
    assert_eq!(first.1, top);
    assert!(first.0 < 40);
    assert!(matches!(buffer.cell(40, top), Some((_, 255))));
    assert!(matches!(buffer.cell(39, top), Some((_, 255))));
    let paints = buffer.render(RenderMode::Grayscale);
    assert_eq!(paints[top as usize * 81 + 40], Paint::Gray(255));
    let ascii = buffer.render(RenderMode::Ascii);
    assert_eq!(ascii[top as usize * 81 + 40], Paint::Plain('@'));
}

#[test]
fn the_round_torus_at_rest_is_brightest_at_the_top_centre() {
    let samples = projected_torus(ROUND, &wide(), RotationState::new());
    let buffer = FrameBuffer::composite(&wide(), &samples);
    let (occupied, brightest, top) = survey(&buffer);
    assert!(occupied > 400, "only {} cells are occupied", occupied);
    assert_eq!(brightest, 255);
    let top = top.unwrap();
    assert!(top < 12, "the torus starts at row {}", top);
    assert!(matches!(buffer.cell(40, top), Some((_, 255))));
    assert!(matches!(buffer.cell(39, top), Some((_, 255))));
}

#[test]
fn the_torus_at_rest_mirrors_left_and_right() {
    let buffer = frame(&wide(), RotationState::new());
    let lit = |x: i64, y: i64| buffer.cell(x, y).is_some();
    let mut left = 0;
    let mut right = 0;
    for y in 0..24 {
        for x in 0..40 {
            left += lit(x, y) as i32;
            right += lit(79 - x, y) as i32;
        }
    }
    assert!((left - right).abs() <= 24, "{} cells left, {} right", left, right);
    assert!(buffer.cell(40, 11).is_none(), "the hole of the torus is empty");
}

#[test]
fn two_consecutive_frames_differ() {
    let canvas = wide();
    let step = AngleStep::per_frame(canvas.cell_count());
    assert_ne!(step, AngleStep { azimuth: 0, polar: 0 });
    let first = RotationState::new();
    let second = first.advance(step);
    assert_ne!(frame(&canvas, first), frame(&canvas, second));
    assert_ne!(
        canvas.draw_donut(&projected(&canvas, first), RenderMode::Grayscale),
        canvas.draw_donut(&projected(&canvas, second), RenderMode::Grayscale)
    );
}

#[test]
fn a_step_of_nothing_repeats_the_frame() {
    let canvas = wide();
    let first = RotationState { azimuth: 1 << 60, polar: 1 << 59 };
    let second = first.advance(AngleStep::per_frame(0));
    assert_eq!(first, second);
    assert_eq!(frame(&canvas, first), frame(&canvas, second));
}

#[test]
fn the_same_rotation_gives_the_same_frame() {
    let canvas = wide();
    for rotation in [
        RotationState::new(),
        RotationState { azimuth: 1 << 62, polar: 3 << 61 },
        RotationState { azimuth: u64::MAX, polar: 12345 },
    ] {
        let one = frame(&canvas, rotation);
        let other = frame(&canvas, rotation);
        assert_eq!(one, other);
        assert_eq!(one.render(RenderMode::Ascii), other.render(RenderMode::Ascii));
        assert_eq!(one.render(RenderMode::Grayscale), other.render(RenderMode::Grayscale));
    }
}

#[test]
fn every_retained_sample_lies_on_the_canvas() {
    for canvas in [wide(), Terminal3d::new(24, 24).unwrap(), Terminal3d::new(9, 5).unwrap()] {
        let (width, height) = canvas.get_size();
        let mut buffer = FrameBuffer::new(&canvas);
        let rotation = RotationState { azimuth: 3 << 61, polar: 1 << 63 };
        let mut retained = 0;
        for sample in projected(&canvas, rotation) {
            if buffer.plot(sample) {
                retained += 1;
                assert!(sample.depth > 0);
                assert!(0 <= sample.x && (sample.x as usize) < width);
                assert!(0 <= sample.y && (sample.y as usize) < height);
                assert_eq!(buffer.cell(sample.x, sample.y), Some((sample.depth, sample.illumination)));
            }
        }
        assert!(retained > 0);
    }
}

#[test]
fn every_occupied_cell_is_drawn_from_the_ramp() {
    let canvas = wide();
    let buffer = frame(&canvas, RotationState { azimuth: 1 << 61, polar: 1 << 60 });
    let ascii = buffer.render(RenderMode::Ascii);
    let gray = buffer.render(RenderMode::Grayscale);
    assert_eq!(ascii.len(), 24 * 81);
    assert_eq!(gray.len(), 24 * 81);
    for y in 0..24usize {
        for x in 0..80usize {
            let k = y * 81 + x;
            match buffer.cell(x as i64, y as i64) {
                None => {
                    assert_eq!(ascii[k], Paint::Blank);
                    assert_eq!(gray[k], Paint::Blank);
                }
                Some((_, light)) => {
                    assert_eq!(gray[k], Paint::Gray(light));
                    match ascii[k] {
                        Paint::Plain(glyph) => assert!(".,-~:;=!*#$@".contains(glyph)),
                        _ => panic!("an occupied cell has a glyph"),
                    }
                }
            }
        }
        assert_eq!(ascii[y * 81 + 80], Paint::LineBreak);
        assert_eq!(gray[y * 81 + 80], Paint::LineBreak);
    }
}

#[test]
fn the_frame_does_not_depend_on_the_order_of_the_samples() {
    let canvas = wide();
    let samples = projected(&canvas, RotationState { azimuth: 1 << 62, polar: 1 << 61 });
    let mut keyed: Vec<ProjectedSample> = Vec::new();
    let mut seen = std::collections::HashMap::new();
    for sample in samples {
        let light = *seen.entry((sample.x, sample.y, sample.depth)).or_insert(sample.illumination);
        keyed.push(ProjectedSample { illumination: light, ..sample });
    }
    let expected = FrameBuffer::composite(&canvas, &keyed);
    let mut reversed = keyed.clone();
    reversed.reverse();
    assert_eq!(FrameBuffer::composite(&canvas, &reversed), expected);
    let mut sorted = keyed.clone();
    sorted.sort_by_key(|s| (s.illumination, s.x, s.depth));
    assert_eq!(FrameBuffer::composite(&canvas, &sorted), expected);
}
