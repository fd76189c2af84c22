//! Update detection for container images: a version model for image tags,
//! the decisions of a registry client, and the ordering of the results.

pub mod auth;
pub mod builder;
pub mod challenge;
pub mod check;
pub mod client;
pub mod clock;
pub mod config;
pub mod engine;
pub mod http;
pub mod image;
pub mod json;
pub mod link;
pub mod logging;
pub mod metrics;
pub mod reference;
pub mod registry;
pub mod sort;
pub mod status;
pub mod text;
pub mod update;
pub mod version;
