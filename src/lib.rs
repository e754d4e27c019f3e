pub mod codec;
pub mod ident;
pub mod laws;
pub mod model;
pub mod spec;
pub mod sql;
pub mod store;
pub mod user;
