//! A stone skipping across water, simulated in the plane.
//!
//! A flat stone of any outline is thrown, flies, touches the water, and
//! either takes off again or sinks. The library derives the mass and the
//! moments of inertia of the stone from its outline, clips the outline
//! against the water line to find what is submerged, evaluates the forces of
//! the water on it, and integrates the motion with a Runge-Kutta scheme of
//! fourth order and fixed step.
//!
//! All quantities are fixed-point numbers with nine decimal places (see
//! [`fixed`]), in SI units. Every function is total: arithmetic clamps
//! instead of overflowing, and a quotient by zero is zero.
//!
//! - [`fixed`], [`trig`], [`summation`]: numbers, sine and cosine, finite sums.
//! - [`basic_structs`], with the law of unit length in [`norm_laws`]:
//!   vectors, quaternions, tensors.
//! - [`geometry`], with its laws in [`geometry_laws`] and [`clip_laws`]: area,
//!   centroid and clipping of closed polygons.
//! - [`stone_phy`], with the law of the outline's centroid in
//!   [`centroid_laws`] and the stone over a unit square in [`sample_laws`]:
//!   mass, inertia and sample points of a stone.
//! - [`solver2`], with the oscillators of [`calculate`] and the law of their
//!   energy in [`oscillator_laws`]: the integrator.
//! - [`physics`]: the phases of a throw, the forces with the laws of their
//!   directions, and the stepping loop.
//! - [`scoring`], [`bezier`], [`stone_editor`], [`print`]: the score of a
//!   throw, and the models behind the shape editor and the display.
pub mod basic_structs;
pub mod bezier;
pub mod calculate;
pub mod centroid_laws;
pub mod clip_laws;
pub mod fixed;
pub mod geometry;
pub mod geometry_laws;
pub mod norm_laws;
pub mod oscillator_laws;
pub mod physics;
pub mod print;
pub mod sample_laws;
pub mod scoring;
pub mod solver2;
pub mod stone_editor;
pub mod stone_phy;
pub mod summation;
pub mod trig;
