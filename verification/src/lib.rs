//! Decisions of a bot that relays utility balances to a chat: which records
//! call for a warning, what each message says, in which order messages leave
//! and when the next cycle is due. Network, clock and environment stay with
//! the caller, which performs the actions this crate hands out and reports
//! back what happened.

pub mod command;
pub mod config;
pub mod decimal;
pub mod digits;
pub mod dispatch;
pub mod fetch;
pub mod integer;
pub mod message;
pub mod record;
pub mod schedule;
pub mod task;
mod text;
