pub mod block;
pub mod color;
pub mod field;
pub mod fits;
pub mod frame;
pub mod game;
pub mod grid;
pub mod piece;
pub mod rotation;
pub mod screen;
pub mod tetromino;
pub mod text;
