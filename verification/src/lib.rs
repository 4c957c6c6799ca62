//! A small feed reader's core: e-mail discovery, text cleanup and the reader state.
pub mod text;
pub mod email;
pub mod feed;
pub mod models;
pub mod stories;
pub mod config;
pub mod html;
pub mod markdown;
pub mod state;
pub mod image;
