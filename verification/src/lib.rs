//! Escape-time fractal calculation: a grid of sample points, the escape-path
//! algorithm run on each, the paths folded into a pixel histogram, and the
//! statistics that judge a frame against a reference frame.
//!
//! An [`area::Area`] lays a pixel grid over a rectangle of the complex plane,
//! and a [`domain::Domain`] holds one sample point per pixel. A
//! [`machine::Machine`] calculates a frame: for every point it iterates the
//! recurrence of a fractal family ([`fractal::Math`]) until the iteration
//! escapes or reaches the cap, classifies the point, and records the path of
//! those that escaped late enough. The recorded paths make the histogram
//! ([`result_data::ResultData`], [`result_pixels::ResultPixels`]);
//! [`fractal_stats::Stats`] compares the counters of a frame with a baseline.
//!
//! The grid is divided into chunks ([`chunk`]), which are calculated
//! independently of each other, in a shuffled order ([`shuffle`]). A chunk is
//! calculated from a shared reference to the machine and hands back what it
//! found, so that chunks can be given to as many workers as there are; it is
//! proved that the histogram does not depend on the order.
//!
//! The numbers of the plane are abstract ([`scalar::Scalar`]): the verified
//! contracts say which operations are applied to which operands, not what
//! rounding makes of them.

pub mod area;
pub mod chunk;
pub mod domain;
pub mod domain_element;
pub mod fractal;
pub mod fractal_path;
pub mod fractal_stats;
pub mod machine;
pub mod mem;
pub mod result_data;
pub mod result_element_static;
pub mod result_pixels;
pub mod scalar;
pub mod shuffle;
