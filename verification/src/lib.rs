//! Core logic of the Azor call-centre copilot server: credential and token
//! checks, audio packet decoding, transcript assembly, knowledge-base
//! document extraction and chunking, and the copilot's reference matching.

pub mod api;
pub mod audio;
pub mod auth;
pub mod calls;
pub mod chunk;
pub mod config;
pub mod embed;
pub mod events;
pub mod migrations;
pub mod notion;
pub mod prompt;
pub mod search;
pub mod text;
pub mod uploads;
pub mod util;
pub mod transcript;
pub mod ingest;
pub mod intelligence;
