//! A static blog generator as a pure library: Markdown posts with YAML front
//! matter go in, composed HTML pages and an RSS feed come out.

pub mod archive;
pub mod category;
pub mod config;
pub mod date;
pub mod error;
pub mod feed;
pub mod files;
pub mod grouping;
pub mod metadata;
pub mod order;
pub mod paths;
pub mod posts;
pub mod site;
pub mod sources;
pub mod templates;
pub mod text;
pub mod yaml;
