pub mod battery;
pub mod ping;
