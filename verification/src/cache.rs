pub mod read;
pub mod route;
pub mod store;
pub mod wire;
pub mod write;
