//! Verified core of a Flutter desktop embedder: timer scheduling, late
//! initialised cells, drag and drop data exchange, menus, status items,
//! textures and the build-time helpers that prepare a Flutter bundle.
pub mod artifacts_emitter;
pub mod base64_codec;
pub mod binary_messenger;
pub mod bitmap;
pub mod build_error;
pub mod cell;
pub mod data_util;
pub mod diff;
pub mod display;
pub mod drag;
pub mod engine_map;
pub mod error;
pub mod ffi;
pub mod file_open_dialog;
pub mod flutter_build;
pub mod future;
pub mod hot_key;
pub mod keyboard_map;
pub mod log;
pub mod macos_bundle;
pub mod menu;
pub mod plugins;
pub mod run_loop;
pub mod screen_manager;
pub mod status_item;
pub mod text;
pub mod texture;
pub mod timers;
pub mod window;
pub mod window_manager;
pub mod words;
pub mod yaml;
