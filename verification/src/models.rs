//! Data model: events as they arrive from the bus, and rows as they are stored.

pub mod db;
pub mod nats;
