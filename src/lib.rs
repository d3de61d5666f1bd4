pub mod artifact;
pub mod b256;
pub mod client;
pub mod cursor;
pub mod downloader;
pub mod fetch;
pub mod layout;
pub mod network;
pub mod node;
pub mod segment;
pub mod segmenter;
pub mod server;
pub mod snapshot;
pub mod tracker;
