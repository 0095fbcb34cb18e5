//! Verified core of a terminal client for a peer-to-peer village and forum:
//! menus, text editing, requirement trees, paging and layout logic.
pub mod creator;
pub mod button;
pub mod menu;
pub mod chars;
pub mod text_buffer;
pub mod keys;
pub mod editor;
pub mod entry;
pub mod board;
pub mod poledit;
pub mod selector;
pub mod dialogs;
pub mod input;
pub mod village;
pub mod config;
pub mod forum;
pub mod catalog;
pub mod catalog_logic;
pub mod indexer;
pub mod cmenu;
pub mod pyramid;
