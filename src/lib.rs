//! Synchronisation of numbered documents and their assets with a GitHub
//! repository: the decisions that drive the remote calls, each with its
//! contract.
//!
//! - `content`: reading one file, with the rate-limit and large-file fallbacks.
//! - `upsert`: the single write, if any, that brings a file to new content.
//! - `branch`: the repository, its branch views, README resolution, pull
//!   request matching, latest commit date and PDF storage.
//! - `images`: the two-level walk that collects a document's images.
//! - `manifest`: the tracking manifest and the branch of each document.
//! - `number`: document numbers and their directories.
//! - `text`, `utils`: character and byte helpers.

pub mod branch;
pub mod content;
pub mod images;
pub mod manifest;
pub mod number;
pub mod text;
pub mod upsert;
pub mod utils;
