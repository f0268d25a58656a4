//! Grid structure for a homogeneous-coordinate linear-algebra kernel: a
//! rectangular matrix of elements, a pixel canvas, and the textual image
//! format a canvas is written in.

pub mod matrix;
pub mod canvas;
