//! Software rasterisation, colour cycling and motion rules for a small
//! animation playground, with their contracts.

pub mod canvas;
pub mod color;
pub mod utils;
pub mod draw;
pub mod dvd;
pub mod dvd_bounce;
pub mod mesh;
pub mod text;
pub mod cube;
pub mod drawable;
pub mod curves;
pub mod space_flight;
pub mod batch;
