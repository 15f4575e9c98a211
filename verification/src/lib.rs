//! Lyrics for whatever the reader is playing.
//!
//! The app follows one player, looks up the lyrics of the song from several public sources, keeps
//! them in a database and highlights the line being sung. This library is everything it decides
//! and computes. Requests, files, the clock and the window stay outside: the library says what to
//! send, and reads what came back.

pub mod codec;
pub mod connection;
pub mod db;
pub mod double;
pub mod http;
pub mod json;
pub mod laws;
pub mod lrc;
pub mod matching;
pub mod musixmatch;
pub mod petitlyrics;
pub mod player;
pub mod providers;
pub mod session;
pub mod settings;
pub mod smtc;
pub mod spotify;
pub mod tables;
pub mod text;
pub mod token_store;
pub mod xml;
