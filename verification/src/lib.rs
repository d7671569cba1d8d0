//! The decision logic of a prediction service for ONNX models.
//!
//! A client posts a [`request::PredictionRequest`]. The service keeps, for each model, the
//! last window of every sensor and covariate ([`input::CachedInput`]), runs the model on it,
//! and feeds the predictions back into the sensor windows. This crate holds every rule of that
//! exchange; the surrounding program performs the network, cache and inference work that the
//! rules ask for and reports what came of it.

pub mod handler;
pub mod input;
pub mod json;
pub mod laws;
pub mod model;
pub mod output;
pub mod reply;
pub mod request;
pub mod shape;
pub mod text;
pub mod window;
