//! Shared helpers of the sample programs.

pub mod image;
