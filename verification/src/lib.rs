//! The decisions of a sphere path tracer, each with a contract that says
//! exactly what it returns.
//!
//! A path tracer calculates with single-precision numbers: it solves
//! quadratics, mirrors and bends directions, averages colours. That arithmetic
//! lives with the caller. This crate holds what is decided on top of it: which
//! surface a ray meets first, what a material does with the ray, when a light
//! path ends and in what light, which channel value a brightness gets, where a
//! pixel stands in the written image, and what the words of a command line
//! mean. A number on which a decision rests comes in as its bits, and the
//! crate compares and reads such numbers with whole-number arithmetic alone.

pub mod bits;
pub mod color;
pub mod config;
pub mod hittable;
pub mod image;
pub mod integrator;
pub mod material;
pub mod text;
pub mod vector;
