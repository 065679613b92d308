use fractal::escape::escape_decision;
use fractal::raster::{pixel_color, rasterize, PixelBuffer};
use fractal::sample::Sampler;
use num::complex::Complex;

/// Runs the orbit of `c` against the sampler until the current pixel has its count.
fn run_orbit(sampler: &mut Sampler, c: Complex<f64>) {
    let mut z: Complex<f64> = Complex::new(0.0, 0.0);
    while !sampler.observe(z.norm() > 2.0) {
        z = z * z + c;
    }
}

fn escape_count_at(cx: f64, cy: f64, max_iters: usize) -> usize {
    let mut sampler = Sampler::new(max_iters, 1, 1);
    run_orbit(&mut sampler, Complex::new(cx, cy));
    assert!(sampler.pixel().is_none());
    sampler.into_grid()[0][0]
}

fn sample_plane(
    max_iters: usize,
    x_min: f64,
    x_max: f64,
    y_min: f64,
    y_max: f64,
    width: usize,
    height: usize,
) -> Vec<Vec<usize>> {
    let mut sampler = Sampler::new(max_iters, width, height);
    while let Some((px, py)) = sampler.pixel() {
        let cx = x_min + (x_max - x_min) * (px as f64 / width as f64);
        let cy = y_min + (y_max - y_min) * (py as f64 / height as f64);
        run_orbit(&mut sampler, Complex::new(cx, cy));
    }
    sampler.into_grid()
}

fn rgb_at(buf: &PixelBuffer, x: u32, y: u32) -> [u8; 3] {
    buf.image.get_pixel(x, y).0
}

#[test]
fn decision_escaped_ends_orbit_at_step() {
    assert_eq!(escape_decision(3, 10, true), Some(3));
    assert_eq!(escape_decision(10, 10, true), Some(10));
}

#[test]
fn decision_last_step_caps_count() {
    assert_eq!(escape_decision(10, 10, false), Some(10));
}

#[test]
fn decision_continues_below_cap() {
    assert_eq!(escape_decision(0, 10, false), None);
    assert_eq!(escape_decision(9, 10, false), None);
}

#[test]
fn origin_never_escapes() {
    assert_eq!(escape_count_at(0.0, 0.0, 256), 256);
    assert_eq!(escape_count_at(0.0, 0.0, 1), 1);
}

#[test]
fn point_two_two_escapes_at_first_iterate() {
    // z_0 = 0 passes the test; z_1 = c has magnitude about 2.83.
    assert_eq!(escape_count_at(2.0, 2.0, 256), 1);
}

#[test]
fn zero_cutoff_gives_zero_counts() {
    assert_eq!(escape_count_at(0.0, 0.0, 0), 0);
    assert_eq!(escape_count_at(2.0, 2.0, 0), 0);
}

#[test]
fn sampler_walks_pixels_row_major() {
    let mut sampler = Sampler::new(0, 2, 2);
    let mut seen = Vec::new();
    while let Some(p) = sampler.pixel() {
        seen.push(p);
        assert!(sampler.observe(false));
    }
    assert_eq!(seen, vec![(0, 0), (1, 0), (0, 1), (1, 1)]);
}

#[test]
fn sampler_records_first_escape() {
    let mut sampler = Sampler::new(5, 2, 1);
    assert!(!sampler.observe(false));
    assert!(!sampler.observe(false));
    assert!(sampler.observe(true));
    assert_eq!(sampler.pixel(), Some((1, 0)));
    for _ in 0..5 {
        assert!(!sampler.observe(false));
    }
    assert!(sampler.observe(false));
    assert_eq!(sampler.pixel(), None);
    assert_eq!(sampler.into_grid(), vec![vec![2, 5]]);
}

#[test]
fn grid_shape_three_by_two() {
    let grid = sample_plane(256, -2.0, 1.0, -1.0, 1.0, 3, 2);
    assert_eq!(grid.len(), 2);
    for row in &grid {
        assert_eq!(row.len(), 3);
    }
}

#[test]
fn grid_cells_within_bounds() {
    let max_iters = 20;
    let grid = sample_plane(max_iters, -2.0, 1.0, -1.0, 1.0, 16, 9);
    assert_eq!(grid.len(), 9);
    for row in &grid {
        assert_eq!(row.len(), 16);
        for &v in row {
            assert!(v <= max_iters);
        }
    }
    assert!(grid.iter().flatten().any(|&v| v == max_iters));
    assert!(grid.iter().flatten().any(|&v| v < max_iters));
}

#[test]
fn sampling_is_deterministic() {
    let a = sample_plane(64, -2.0, 1.0, -1.0, 1.0, 12, 7);
    let b = sample_plane(64, -2.0, 1.0, -1.0, 1.0, 12, 7);
    assert_eq!(a, b);
}

#[test]
fn color_of_three_hundred() {
    assert_eq!(pixel_color(300), (45, 132, 52));
}

#[test]
fn color_edge_values() {
    assert_eq!(pixel_color(0), (0, 0, 0));
    assert_eq!(pixel_color(255), (0, 253, 249));
    assert_eq!(pixel_color(256), (1, 0, 0));
    assert_eq!(pixel_color(usize::MAX), ((usize::MAX % 255) as u8, 253, 249));
}

#[test]
fn rasterize_single_cell_three_hundred() {
    let buf = rasterize(&vec![vec![300]], 1, 1);
    assert_eq!(buf.image.dimensions(), (1, 1));
    assert_eq!(rgb_at(&buf, 0, 0), [45, 132, 52]);
}

#[test]
fn rasterize_keeps_row_major_layout() {
    let grid = vec![vec![1, 2, 3], vec![4, 5, 6]];
    let buf = rasterize(&grid, 3, 2);
    assert_eq!(buf.image.dimensions(), (3, 2));
    for y in 0..2u32 {
        for x in 0..3u32 {
            let (r, g, b) = pixel_color(grid[y as usize][x as usize]);
            assert_eq!(rgb_at(&buf, x, y), [r, g, b]);
        }
    }
    assert_eq!(
        buf.image.as_raw(),
        &vec![1, 3, 7, 2, 6, 14, 3, 9, 21, 4, 12, 28, 5, 15, 35, 6, 18, 42]
    );
}

#[test]
fn rasterizing_twice_gives_same_pixels() {
    let grid = sample_plane(256, -2.0, 1.0, -1.0, 1.0, 5, 4);
    let a = rasterize(&grid, 5, 4);
    let b = rasterize(&grid, 5, 4);
    assert_eq!(a.image.dimensions(), b.image.dimensions());
    assert_eq!(a.image.as_raw(), b.image.as_raw());
}

#[test]
fn end_to_end_four_by_two() {
    let grid = sample_plane(256, -2.0, 1.0, -1.0, 1.0, 4, 2);
    let buf = rasterize(&grid, 4, 2);
    assert_eq!(buf.image.dimensions(), (4, 2));
    let corner = escape_count_at(-2.0, -1.0, 256);
    assert_eq!(corner, 1);
    assert_eq!(grid[0][0], corner);
    assert_eq!(rgb_at(&buf, 0, 0), [1, 3, 7]);
}
