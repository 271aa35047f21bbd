//! Decisions and data formats of a local face authentication service for
//! Linux: the request/response protocol between the PAM module and the
//! daemon, camera frame handling, V4L2 control handling, enrollment storage
//! and model file checks.
pub mod text;
pub mod protocol;
pub mod camera;
pub mod provider;
pub mod daemon;
pub mod pam;
pub mod controls;
pub mod enrollment;
pub mod models;
pub mod emitter;
pub mod vision;
pub mod cli;
pub mod laws;
pub mod args;
