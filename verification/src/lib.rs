//! Verified core of a music download manager: YouTube link analysis,
//! Spotify cover lookup, downloader command planning and output parsing.

pub mod text;
pub mod youtube;
pub mod doc;
pub mod spotify;
pub mod download;
pub mod db;
pub mod lobby;
