//! Importer for Spotify playlists and albums.
//!
//! An import is a sequence of decisions: [`import::Import::action`] says what is to be
//! done next, and [`import::Import::step`] takes in what came of it. The sending of
//! requests and the reading of the clock are left to the caller.
//!
//! A token is searched in three places, in the order of preference: in the data that
//! the embed page of the collection carries, at the endpoint for anonymous visitors, and
//! by client credentials with a client identifier that the web player gives away. With
//! the first token that is still good the API is asked. Where there is none, or the API
//! fails, the data of the embed page takes its place.

pub mod collection;
pub mod exchange;
pub mod http;
pub mod import;
pub mod json;
pub mod laws;
pub mod link;
pub mod listing;
pub mod model;
pub mod numeral;
pub mod page;
pub mod reader;
pub mod text;
pub mod token;
pub mod track;
