//! A small web browser core: domain blocklists, navigation state and the
//! browser shell's view state, with their behaviour proved by Verus.

pub mod text;
pub mod blocklist;
pub mod profile;
pub mod browser;
pub mod policy;
pub mod bookmarks;
pub mod service;
pub mod settings;
pub mod shell_view;
pub mod shell_state;
pub mod page;
pub mod components;
