//! Verified core of a small pixel-art editor: the canvas model, the drawing
//! tools, flood fill, undo history and the new-project setup rules.

pub mod app;
pub mod editor;
pub mod export;
pub mod fill;
pub mod grid;
pub mod history;
pub mod paint;
pub mod pixel;
pub mod reference;
pub mod setup;
pub mod shapes;
pub mod sprite;
pub mod text;
