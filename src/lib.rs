//! Verified core of an OCI image toolkit: image references, media types and
//! their magic bytes, platform matching, plan configuration merging,
//! registry authentication state, blob upload decisions, the pull
//! scheduling state and its store labels, chunked layer streaming, image
//! assembly, whiteouts, and credentials from the kernel command line.

pub mod text;
pub mod enums;
pub mod archive;
pub mod parser;
pub mod maps;
pub mod digest;
pub mod manifest;
pub mod index;
pub mod platform;
pub mod image_config;
pub mod plan;
pub mod client;
pub mod auth;
pub mod uploader;
pub mod streaming;
pub mod labels;
pub mod pull;
pub mod execution;
pub mod walk;
pub mod whiteout;
pub mod system_login;
pub mod cleanup;
pub mod nerdctl;
pub mod access;
pub mod runner;
pub mod downloader;
pub mod sink;
