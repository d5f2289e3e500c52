//! Verified core of the desktop shell.

pub mod account;
pub mod agent_dialog;
pub mod avatars;
pub mod browser;
pub mod conversation;
pub mod desktop;
pub mod folders;
pub mod input;
pub mod install;
pub mod jpeg;
pub mod json;
pub mod keiki;
pub mod keymap;
pub mod menus;
pub mod nav;
pub mod order;
pub mod panels;
pub mod paths;
pub mod pickers;
pub mod picture;
pub mod rows;
pub mod settings;
pub mod shell;
pub mod sidebar;
pub mod targets;
pub mod text;
pub mod text_input;
pub mod text_map;
pub mod threads;
pub mod titlebar;
pub mod transport;
pub mod update_flow;
pub mod updater;
pub mod url_text;
pub mod version;
