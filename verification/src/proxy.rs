pub mod header;
pub mod serve;
pub mod tunnel;
