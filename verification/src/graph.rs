//! The pieces of the GraphQL layer that are plain computation: resolver
//! data types and error rendering. The schema wiring lives outside the
//! library.

pub mod contact;
pub mod util;
