pub mod app_state;
pub mod arrange;
pub mod associations;
pub mod canvas_file;
pub mod colors;
pub mod dark_mode;
pub mod export;
pub mod flat;
pub mod history;
pub mod pages;
pub mod paging;
pub mod plugins;
pub mod selection;
pub mod single_instance;
pub mod state;
pub mod text;
