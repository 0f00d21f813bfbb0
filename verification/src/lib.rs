//! Core library of a 6502 disassembly workbench: the document model
//! (memory image, per-byte block types, labels, comments), the block
//! run-length encoding used by project files, the undo stack, the menu
//! state machine and the view-synchronisation rules, all verified with Verus.

pub mod blocks;
pub mod document;
pub mod listing;
pub mod maps;
pub mod state;
pub mod commands;
pub mod externals;
pub mod ui;
pub mod menu;
pub mod raw_data;
pub mod project;
pub mod actions;
pub mod sync;
pub mod popup;
