//! A file-backed content store for a markdown publishing site: parsing of
//! article sources, the in-memory collection with its refresh rules, the
//! markdown rendering pipeline with heading anchors, and the views computed
//! over the published articles.

pub mod archive;
pub mod collection;
pub mod date_format;
pub mod error;
pub mod friend;
pub mod html;
pub mod markdown;
pub mod ranking;
pub mod page;
pub mod parser;
pub mod post;
pub mod post_service;
pub mod rss;
pub mod site;
pub mod sitemap;
pub mod slug;
pub mod summary;
pub mod taxonomy;
pub mod text;
pub mod upload;
