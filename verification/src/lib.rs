//! Event-sourced configuration service: the aggregate, its events, the
//! event-store decisions and the database schema plan, with their contracts.

pub mod ids;
pub mod config;
pub mod controller;
pub mod command_handler;
pub mod event;
pub mod aggregate;
pub mod event_store;
pub mod migration;
