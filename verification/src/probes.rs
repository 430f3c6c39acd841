pub mod identity;
pub mod modes;
pub mod keyboard;
pub mod geometry;
pub mod graphics;
pub mod colors;
