pub mod camera;
pub mod color_io;
pub mod denoise;
pub mod gpu;
pub mod pdf;
pub mod perlin;
pub mod rng;
pub mod scene;
pub mod texture;
