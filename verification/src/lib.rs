//! The core of a headless music daemon: what plays, where it plays, what the library knows,
//! and what each request asks for.
//!
//! Everything here decides and computes; nothing here performs input or output. Time, chance
//! and the answers of the outside world arrive as plain values, and what the world should do
//! leaves as plain values too, so each decision has an exact contract.

pub mod amount;
pub mod arrivals;
pub mod autoplay;
pub mod binary;
pub mod binding;
pub mod catalog;
pub mod client;
pub mod command;
pub mod connection;
pub mod controller;
pub mod decoding;
pub mod dispatch;
pub mod engine;
pub mod error;
pub mod growth;
pub mod id;
pub mod imports;
pub mod ingest;
pub mod intake;
pub mod integrity;
pub mod library;
pub mod line;
pub mod listing;
pub mod lookup;
pub mod matching;
pub mod model;
pub mod natural;
pub mod output;
pub mod player;
pub mod position;
pub mod protocol;
pub mod readback;
pub mod ring;
pub mod rows;
pub mod schema;
pub mod screen;
pub mod session;
pub mod settings;
pub mod shelf;
pub mod showing;
pub mod single;
pub mod sink;
pub mod source;
pub mod state;
pub mod store;
pub mod text;
pub mod time;
pub mod track;
pub mod tracklist;
pub mod transport;
pub mod typing;
pub mod view;
