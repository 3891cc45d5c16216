//! Lists of byte strings kept in versioned storage views and handed to a
//! foreign caller through integer tokens.
pub mod bytes;
pub mod handle;
pub mod laws;
pub mod runtime;
pub mod store;
