//! The maze: what each cell of the map holds, and the shape of the trees.

pub mod maze;
pub mod textures;
