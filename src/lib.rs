//! A small ray tracer over axis-aligned boxes, computed in saturating
//! fixed-point arithmetic so that every step of the shading kernel is
//! specified and checked.
//!
//! - `fixed`: fixed-point scalars and their exact meaning.
//! - `vector`, `color`: points, directions and colors built on them.
//! - `texture`, `material`: surfaces and their per-face lookups.
//! - `cube`: the ray/box test, with face, normal and texture coordinates.
//! - `light`, `camera`: the scene's lights and viewpoint.
//! - `optics`: reflection, refraction and the Fresnel split.
//! - `shade`: shadows, the nearest hit and the recursive shader.
//! - `render`: the frame loop that fills a framebuffer.

pub mod camera;
pub mod color;
pub mod cube;
pub mod fixed;
pub mod light;
pub mod material;
pub mod optics;
pub mod render;
pub mod shade;
pub mod texture;
pub mod vector;

pub use camera::Camera;
pub use color::Color;
pub use cube::{Cube, Intersect};
pub use fixed::{fx_add, fx_div, fx_mul, fx_sqrt, fx_sub, LIMIT, ONE};
pub use light::{DayPhase, Light};
pub use material::Material;
pub use optics::{fresnel, fx_pow, offset_origin, reflect, refract};
pub use render::{render, Framebuffer};
pub use shade::{cast_ray, cast_shadow, nearest_hit, shade_light};
pub use texture::Texture;
pub use vector::Vec3;
