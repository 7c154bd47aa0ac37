pub mod cache;
mod clock;
pub mod codec;
pub mod config;
pub mod crypto;
pub mod errors;
pub mod scheduler;
pub mod service;
pub mod test_instance;
