pub mod outside;
pub mod text;
pub mod types;
pub mod utils;
pub mod walk;
pub mod downloader;
pub mod download;
pub mod hashing;
