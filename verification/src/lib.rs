//! Order routing core of the Ellipsys runner: broker request shaping,
//! response interpretation and the polling loop's decisions.

pub mod brokers;
pub mod config;
pub mod json;
pub mod poller;
pub mod portal_client;
pub mod text;
