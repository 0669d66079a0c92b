//! Verified core of an HLS (M3U8) stream downloader.
pub mod text;
pub mod numbers;
pub mod string_utils;
pub mod playlist;
pub mod types;
pub mod m3u8_utils;
pub mod crypto_utils;
pub mod jobs;
pub mod download;
pub mod fs_utils;
pub mod laws;
pub mod sorting;
pub mod services;
pub mod http_body;
