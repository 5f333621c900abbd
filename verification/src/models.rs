//! The shapes that requests and records take.

pub mod user;
