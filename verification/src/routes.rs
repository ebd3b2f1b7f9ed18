//! Route-level logic. Only the computation behind each route lives here;
//! the web wiring is outside the library.

pub mod shortcuts;
