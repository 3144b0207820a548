//! Jinn image viewer: the verified core of an image viewer.
//!
//! The modules hold the logic of the viewer that does not depend on a
//! window system or on the file system: natural file-name ordering and
//! sorting, the translation tables, shortcut configuration, EXIF parsing,
//! date formatting, texture cache bookkeeping and gallery navigation.
pub mod app;
pub mod config;
pub mod datetime;
pub mod exif;
pub mod i18n;
pub mod images;
pub mod info;
pub mod natural_order;
pub mod shortcuts;
pub mod sorting;
pub mod text;
pub mod theme;
