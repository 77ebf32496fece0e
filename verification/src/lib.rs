//! Logic of the MMD FFmpeg video encoder: the Annex B packet splitter, the
//! ffmpeg command lines and encoder fallbacks, the settings files and the
//! configuration program's form, the DirectShow media types, allocator and
//! enumerators, and the per-stream state of the filter.

pub mod allocator;
pub mod annexb;
pub mod com;
pub mod config;
pub mod encoder;
pub mod enums;
pub mod filter;
pub mod form;
pub mod frame;
pub mod ini;
pub mod mediatype;
pub mod paths;
pub mod state;
pub mod text;
pub mod ui;
pub mod wide;
