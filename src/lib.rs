//! Clip planning for a video downloader: time parsing, range checks and the
//! argument list handed to the transcoder, all over exact decimal values.

pub mod decimal;
pub mod time;
pub mod command;
pub mod video;
pub mod clip;
