//! A software rendering core over exact fixed-point arithmetic.

pub mod fixed;
pub mod fragment;
pub mod framebuffer;
pub mod matrix;
pub mod obj;
pub mod pipeline;
pub mod shaders;
pub mod triangle;
pub mod vector;
pub mod vertex;
