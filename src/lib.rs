//! Core of a small media-gallery backend: ordered entities with reordering,
//! grouping of joined rows into nested objects, thumbnail geometry and
//! sandboxed storage paths.

pub mod aggregate;
pub mod auth;
pub mod category;
pub mod error;
pub mod forms;
pub mod images;
pub mod order;
pub mod paths;
pub mod records;
pub mod static_files;
pub mod store;
pub mod thumbs;
pub mod upload;
pub mod text;
