pub mod value;
pub mod text;
pub mod types;
pub mod cells;
pub mod table;
pub mod keys;
pub mod style;
pub mod config;
pub mod editor;
pub mod app;
pub mod navigation;
pub mod handler;
pub mod parsing;
pub mod strings;
pub mod display;
pub mod ui;
pub mod tui;
pub mod cell_path;
