//! State and rules of a bridge that shows egui viewports inside a game engine's scene tree.

pub mod bridge;
pub mod canvas;
pub mod control;
pub mod input;
pub mod life;
pub mod mesh;
pub mod outside;
pub mod schedule;
pub mod screen;
pub mod shared;
pub mod signed;
pub mod single;
pub mod texture;
pub mod viewport;
