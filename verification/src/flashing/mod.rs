pub mod checksum;
pub mod progress;
pub mod listing;
pub mod downloader;
pub mod operations;
pub mod decompressor;
pub mod archive;
pub mod executor;
pub mod postmarketos;
pub mod mobian;
pub mod lineageos;
pub mod eos;
pub mod droidian;
pub mod grapheneos;
pub mod factory_image;
pub mod heimdall;
pub mod ubports;
