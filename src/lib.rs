pub mod apple;
pub mod config;
pub mod error;
pub mod microsoft;
pub mod mozilla;
pub mod sign;
pub mod text;
