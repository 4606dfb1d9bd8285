//! Staging, link extraction and link resolution for a static site builder.

pub mod builder;
pub mod error;
pub mod html;
pub mod link;
pub mod page;
pub mod path;
pub mod rss;
pub mod text;
pub mod validate;
