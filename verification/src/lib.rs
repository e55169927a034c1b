//! A ray tracer for scenes of spheres, in fixed-point arithmetic.
//!
//! A camera sends rays through the pixels of an image. A ray that hits a
//! sphere is scattered by the sphere's material (diffuse, metal or glass)
//! and followed further; a ray that leaves the scene picks up the colour of
//! the sky. A pixel is the mean of many such rays.
//!
//! Every number is a [`fixed::Fixed`]: a multiple of 2^-32 that saturates
//! instead of overflowing, so that every function is total and the same
//! seed gives the same image on every machine. Each type has a
//! mathematical model over the integers as its view, and each function
//! states what it computes over those models.
pub mod camera;
pub mod color;
pub mod diffusion;
pub mod fixed;
pub mod hittable;
pub mod hittable_list;
pub mod integrator;
pub mod length_laws;
pub mod material;
pub mod ray;
pub mod render;
pub mod scene;
pub mod sphere;
pub mod vec3;
