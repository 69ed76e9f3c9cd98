//! Verified core of a small media tool: naming and checking of crop and
//! thumbnail outputs, and the layout of probe reports.

pub mod text;
pub mod ffmpeg;
pub mod crop;
pub mod naming;
pub mod paths;
pub mod media;
pub mod thumb;
