//! Core of a live-stream player: a supervisor for one HLS transcoding
//! session served from a local workspace, plus the pure request/response
//! pieces around it (playlist parsing, subtitle search and unpacking).

pub mod args;
pub mod playlist;
pub mod session;
pub mod subtitles;
pub mod ziptext;
