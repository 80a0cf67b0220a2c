//! Rivett: the logic of a keyboard-driven image vetting tool.
//!
//! The modules hold what the viewer decides and computes: which files are
//! images, how a directory listing is ordered and navigated, the session's
//! pending rotations and crops, the decoded-image cache, decoding and
//! orienting images, reading and post-processing metadata, pixel rotation,
//! what keys and menu entries do, and the rating database.

pub mod text;
pub mod paths;
pub mod order;
pub mod formats;
pub mod pathmap;
pub mod settings;
pub mod session;
pub mod image_loader;
pub mod metadata;
pub mod pixels;
pub mod viewer;
pub mod db;
pub mod ui_text;
pub mod commands;
