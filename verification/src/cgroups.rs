//! Control groups of version 2: rules, limits, statistics and events.
pub mod devices;
pub mod manager;
pub mod notifier;
pub mod resources;
pub mod stats;
