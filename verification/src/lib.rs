//! The verified core of the muse terminal music client: request tracking,
//! confirmed-state merging, text sanitizing and editing, layout and menus.

pub mod art;
pub mod choices;
pub mod commands;
pub mod controller;
pub mod controls;
pub mod covers;
pub mod data;
pub mod editing;
pub mod edits;
pub mod geometry;
pub mod i18n;
pub mod input;
pub mod keys;
pub mod menus;
pub mod offsets;
pub mod options;
pub mod order;
pub mod patterns;
pub mod pointer;
pub mod preferences;
pub mod protocol;
pub mod pty;
pub mod release;
pub mod requests;
pub mod scene;
pub mod settings;
pub mod state;
pub mod target;
pub mod text;
pub mod theme;
pub mod transport;
pub mod wire;
