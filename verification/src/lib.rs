//! Query classification and ranking engine for a desktop quick-launcher.
//!
//! Resolves a short typed query into an ordered list of actionable results:
//! literal system commands, arithmetic expressions, web-search shortcuts,
//! and tiered, usage-aware matches against a catalog of applications.

pub mod actions;
pub mod config;
pub mod discovery;
pub mod fuzzy;
pub mod instance;
pub mod matcher;
pub mod model;
pub mod pipeline;
pub mod rank;
pub mod startup;
pub mod strings;
pub mod tray;
pub mod updater;
pub mod wizard;
