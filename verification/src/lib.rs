//! The logic of a Telegram client for a 320x240 handset, with its behaviour proved.

pub mod app;
pub mod app_laws;
pub mod app_run;
pub mod bytes;
pub mod cache_files;
pub mod cache_laws;
pub mod chats;
pub mod chats_decl;
pub mod content_laws;
pub mod conv;
pub mod conv_decl;
pub mod conv_draw;
pub mod draw_laws;
pub mod driver;
pub mod driver_laws;
pub mod format_laws;
pub mod labels;
pub mod link;
pub mod link_laws;
pub mod login;
pub mod login_decl;
pub mod login_draw;
pub mod login_laws;
pub mod menu_decl;
pub mod model;
pub mod mvu;
pub mod page_laws;
pub mod pages;
pub mod previews;
pub mod proto;
pub mod samples;
pub mod screen_laws;
pub mod selfcheck;
pub mod session_store;
pub mod store_cache;
pub mod strings;
pub mod text;
pub mod transcript;
pub mod ui;
pub mod view_laws;
pub mod viewer_decl;
pub mod wish_laws;
pub mod words_laws;

pub use crate::app::App;
