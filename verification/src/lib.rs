//! A small personal "about me" API library: a grocery sale-scraping client
//! (parsing, filtering and normalizing a vendor's weekly specials), contact
//! and email models, and a health status report.

pub mod env;
pub mod graph;
pub mod grocery;
pub mod json;
pub mod models;
pub mod money;
pub mod routes;
pub mod status;
pub mod text;
