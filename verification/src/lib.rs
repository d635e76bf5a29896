//! Verified core of a Python application bundler: target platforms,
//! launcher and bundle text generation, release-asset selection, import
//! analysis results, and the native launcher's manifest handling.
pub mod text;
pub mod platform;
pub mod order;
pub mod json;
pub mod downloader;
pub mod analyzer;
pub mod files;
pub mod archive;
pub mod launcher;
pub mod runtime;
pub mod bundler;
pub mod cli;
