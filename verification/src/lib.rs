//! The logic of a terminal coding assistant: a modal text editor, a file
//! picker and a file tree, a markdown renderer, the string edits behind the
//! assistant's file tools, and the decisions of its chat and key handling.
pub mod keys;
pub mod markdown;
pub mod text;
pub mod order;
pub mod tools;
pub mod app;
pub mod chat;
pub mod calls;
pub mod commands;
pub mod editor;
pub mod exa;
pub mod filepicker;
pub mod filetree;
pub mod screen;
pub mod highlight;
