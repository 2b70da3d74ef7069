//! Dense row-major matrices with verified construction, element-wise and
//! linear-algebra arithmetic, and a box-drawn textual rendering.

pub mod element;
pub mod laws;
pub mod matrix;
pub mod render;
