//! Crown & Reach: a durable coordination runtime, verified core.
pub mod text;
pub mod records;
pub mod discord;
pub mod planner;
pub mod manager;
pub mod projections;
pub mod executor;
