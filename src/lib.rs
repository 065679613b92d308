//! Escape-time sampling of the Mandelbrot set over a rectangle of the complex plane,
//! and rasterization of the sampled escape counts into an RGB pixel buffer.

pub mod escape;
pub mod sample;
pub mod raster;
