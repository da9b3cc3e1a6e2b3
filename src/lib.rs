//! Flat-shaded ray casting: colours and materials, the projection modes of the
//! camera, nearest-hit selection over a scene, the background gradient and the
//! row-major pixel buffer handed to an image encoder.
//!
//! The floating-point geometry (vectors, rays, primitive intersection and the
//! camera basis) lives in the application around this library; this crate holds
//! the decisions that are made on the results of that geometry.

pub mod camera;
pub mod color;
pub mod image;
pub mod scene;

pub use camera::CameraMode;
pub use color::Color;
pub use color::Material;
pub use scene::Scene;
pub use scene::SceneObject;
pub use image::check_pixel_buffer;
pub use image::PixelBufferError;
