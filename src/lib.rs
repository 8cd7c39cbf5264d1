pub mod package;
pub mod text;
pub mod merge;
pub mod cache;
pub mod backend;
pub mod apt;
pub mod pacman;
pub mod registry;
pub mod ui;
