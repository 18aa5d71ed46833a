pub mod assoc;
pub mod auth;
pub mod codec;
pub mod csrf;
pub mod errors;
pub mod seeds;
pub mod session_data;
pub mod store;
pub mod sweeper;
pub mod timestamp;
