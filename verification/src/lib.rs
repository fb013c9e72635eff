//! The backend logic of 拾流下载器, a desktop front end to yt-dlp: settings,
//! command lines, the order of download attempts, the reading of yt-dlp's
//! output and JSON descriptions, the task list and its history, and the
//! check of the helper programs, each function with a contract proved by
//! Verus.
pub mod text;
pub mod settings;
pub mod args;
pub mod retry;
pub mod download;
pub mod output;
pub mod registry;
pub mod environment;
pub mod install;
pub mod json;
pub mod preview;
pub mod format_order;
pub mod parse;
