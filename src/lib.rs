//! A small brute-force ray tracer over fixed-point arithmetic.
//!
//! Every scalar is an `i64` holding a real number scaled by [`scalar::ONE`],
//! so the whole pipeline (intersection, shading and tone mapping) is
//! integer arithmetic whose results are stated exactly in the contracts.
//!
//! # Limits of the representation
//!
//! The fixed-point scalars hold a limited range, so the library requires:
//!
//! - points of a scene (centres, plane measurements, lights, the camera) within
//!   `±256.0` on every axis ([`scalar::COORD_MAX`]), and sphere radii up to 256.0;
//! - vector arguments within `±1024.0` per component ([`vec3::VEC_MAX`]);
//! - light intensities up to 65536.0 per channel ([`light::LIGHT_MAX`]) and at
//!   most [`scene::MAX_LIGHTS`] lights, so that summed intensities stay below
//!   [`colour::INTENSITY_MAX`];
//! - scale factors of an intensity up to 4.0 ([`colour::Intensity::mul`]), the
//!   most that an intensity of `INTENSITY_MAX` can be multiplied by in an `i64`;
//! - viewports up to [`camera::MAX_PIXELS`] pixels on a side.
//!
//! Constructors refuse values outside these ranges with an error. A ray can still
//! meet a surface at a point outside the coordinate range; shading that point
//! needs it as a source of shadow rays, so tracing reports
//! [`ray::OutOfRange`] there instead of a colour.
pub mod scalar;
pub mod vec3;
pub mod colour;
pub mod ray;
pub mod objects;
pub mod light;
pub mod scene;
pub mod tone;
pub mod camera;
pub mod render;
pub mod scenes;
