//! A fixed-dimension matrix with two verified text renderings: a full grid of
//! uniformly wide cells, and a capped diagnostic grid that marks what it omits.

pub mod laws;
pub mod layout;
pub mod matrix;
pub mod render;
pub mod text;
