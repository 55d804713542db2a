//! The boards that the device is built on.
pub mod base;
pub mod ws2812;
