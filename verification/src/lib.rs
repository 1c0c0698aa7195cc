//! MoonClip: the rules of a recorder that keeps the last moments of a game.
//!
//! The library decides; it opens no file and starts no process. It checks the
//! values that a user may give an encoder (`encoder_*`), turns stored settings
//! into a configuration (`settings`, `changes`, `capture`), writes the files
//! that the capture engine starts from (`profile`, `render`, `obs_files`),
//! follows the engine while it starts and saves (`engine`, `session`,
//! `hardware_test`), names and measures clips (`clips`), tells games apart from
//! other processes (`detect`), and knows where Linux keeps all of this
//! (`linux`, `os`). What is proved of several functions together stands in the
//! modules that end in `_laws` and in the functions whose names start with `law_`.

pub mod api;
pub mod capture;
pub mod capture_laws;
pub mod change_laws;
pub mod changes;
pub mod clip_laws;
pub mod clips;
pub mod config_laws;
pub mod detect;
pub mod encoder_custom;
pub mod encoder_laws;
pub mod encoder_options;
pub mod encoder_tables;
pub mod engine;
pub mod engine_laws;
pub mod frame_rate;
pub mod hardware_test;
pub mod hotkey;
pub mod json;
pub mod linux;
pub mod obs_files;
pub mod option_laws;
pub mod options;
pub mod os;
pub mod paths;
pub mod profile;
pub mod profile_laws;
pub mod record_laws;
pub mod records;
pub mod render;
pub mod scene_laws;
pub mod session;
pub mod settings;
pub mod start_laws;
pub mod text;
pub mod text_laws;
