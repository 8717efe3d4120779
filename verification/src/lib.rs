pub mod text;
pub mod ir;
pub mod color;
pub mod store;
pub mod update;
pub mod jsonc;
pub mod converter;
pub mod reader;
pub mod cli;
pub mod preview;
pub mod opencode;
pub mod iterm2;
pub mod flow;
pub mod presets;
pub mod lines;
pub mod ghostty;
pub mod wezterm;
pub mod exports;
pub mod timestamp_laws;
