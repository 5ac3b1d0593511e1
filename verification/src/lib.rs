//! The decision and text-building logic of a desktop front end for yt-dlp and
//! ffmpeg: command lines for downloads and conversions, Netscape cookie files,
//! the reading of tool output and the verification of saved logins.
pub mod text;
pub mod netscape;
pub mod ytdlp;
pub mod convert;
pub mod auth;
pub mod process;
pub mod json;
pub mod tools;
pub mod storage;
