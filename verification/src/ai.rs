//! A provider-neutral prompt service.

pub mod error;
pub mod providers;
pub mod service;
pub mod types;
