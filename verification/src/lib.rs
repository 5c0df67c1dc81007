//! Verified core logic of the LookEveryting media viewer.

pub mod media;
pub mod extension_laws;
pub mod settings;
pub mod text;
pub mod yuv;
pub mod pixels;
pub mod raster;
pub mod cache;
pub mod i18n;
pub mod theme;
pub mod loader;
pub mod subtitles;
pub mod embedded;
pub mod video;
pub mod playback;
pub mod viewer;
pub mod browse;
pub mod model;
pub mod fonts;
pub mod colors;
pub mod shell;
pub mod shortcuts;
pub mod shortcut_laws;
pub mod frames;
pub mod schedule;
