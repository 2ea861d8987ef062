//! Verified core of a static site generator for travel journals: it turns
//! the steps of a trip into the text, media lists, map and navigation of
//! the site's pages.

pub mod date;
pub mod enricher;
pub mod laws;
pub mod model;
pub mod order;
pub mod site;
pub mod text;
pub mod track;
