//! Metadata normalization and resource resolution for several comic and
//! media sites: per-site extractors pull structured records out of embedded
//! JSON blobs and HTML fragments, a tag classifier reconciles the sites'
//! tagging vocabularies into one unified schema, and resolvers derive page,
//! cover and stream URLs from templates and media identifiers.

pub mod comic;
mod decode;
pub mod ehentai;
pub mod error;
pub mod foundry;
pub mod html;
pub mod json;
pub mod nhentai;
pub mod pixiv;
pub mod tags;
pub mod text;
pub mod yt;
