//! Building blocks of a recursive path tracer: the scene container and its
//! builder, the pixel grid that a render fills, and the plain-text PPM
//! encoding of a finished image.

pub mod image;
pub mod ppm;
pub mod renderer;
pub mod utils;

pub use image::Image;
pub use ppm::{encode_ppm, Rgb8};
pub use renderer::{
    build_scene, obj, samples_per_worker, DefaultSky, Scene, SceneBuilder, SceneObject, SceneSky,
    DEFAULT_SKY,
};
pub use utils::to_static;
