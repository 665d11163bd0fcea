pub mod animation;
pub mod bench;
pub mod files;
pub mod keys;
pub mod lru;
pub mod pane;
pub mod panes;
pub mod perf;
pub mod pixels;
pub mod settings;
pub mod slider;
pub mod text;
pub mod ui;
pub mod window;
