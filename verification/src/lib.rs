pub mod hstring;
pub mod upload;
pub mod text;
pub mod epd;
pub mod book;
pub mod catalog;
pub mod geometry;
pub mod input;
pub mod textutil;
pub mod cache;
pub mod reader_store;
pub mod decimal;
pub mod sync;
pub mod app_types;
pub mod shell;
pub mod power;
pub mod app_render;
pub mod fb;
pub mod ui;
