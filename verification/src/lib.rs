//! Account scoping and personal file activity for a Telegram-backed drive
//! workspace: who owns the workspace, whether a captured account is still the
//! current one, and the favorites, pinned and recent views of local activity.

pub mod decimal;
pub mod errors;
pub mod lifecycle;
pub mod guard;
pub mod text;
pub mod registry;
pub mod owner;
pub mod keys;
pub mod activity;
pub mod views;
pub mod flags;
pub mod scan;
