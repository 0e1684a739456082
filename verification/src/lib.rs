pub mod auth;
pub mod errors;
pub mod hasher;
pub mod quotes;
pub mod session;
pub mod store;
