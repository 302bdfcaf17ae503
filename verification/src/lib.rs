//! A game-server status library: a binary codec for the classic
//! "info request" UDP protocol, per-server query outcome classification,
//! and an order-preserving status report builder, together with the
//! role-name matching and message formatting used by the surrounding bot.

pub mod codec;
pub mod config;
pub mod query;
pub mod report;
pub mod roles;
pub mod text;
