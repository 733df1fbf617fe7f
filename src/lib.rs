//! Core logic of a community bot: experience points and levels, role tiers,
//! scheduled reminders, and the replies the bot writes.
pub mod activity;
mod chance;
pub mod clock;
pub mod progression;
pub mod reminder_time;
pub mod roles;
pub mod scheduler;
pub mod text;
pub mod thanks;
