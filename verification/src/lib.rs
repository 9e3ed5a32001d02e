//! A static-site generation library: a typed content tree loaded from
//! front-matter files, rule-driven selection of render targets, URL and
//! path computation for every produced page, and feed (sitemap / RSS)
//! accumulation — with the computations specified and verified.

pub mod copy;
pub mod error;
pub mod generator;
pub mod helper;
pub mod interop;
pub mod loader;
pub mod path;
pub mod processor;
pub mod rules;
pub mod text;
pub mod value;
