//! Rules of a music-library organizer: how files are grouped into albums, where
//! they belong, how they are named, and what is remembered about listening.

pub mod apple_music;
pub mod apply;
pub mod artwork;
pub mod audiomuse;
pub mod cleanup;
pub mod config;
pub mod discogs;
pub mod enrich;
pub mod favorites;
pub mod files;
pub mod fraction;
pub mod genius;
pub mod group;
pub mod health;
pub mod hosts;
pub mod identity;
pub mod json;
pub mod lastfm;
pub mod laws;
pub mod lidarr;
pub mod lyrics;
pub mod metadata;
pub mod musicbrainz;
pub mod net;
pub mod nfo;
pub mod order;
pub mod organizer;
pub mod pairing;
pub mod pass;
pub mod paths;
pub mod posts;
pub mod ratings;
pub mod records;
pub mod replaygain;
pub mod report;
pub mod scan;
pub mod sidecars;
pub mod state;
pub mod stats;
pub mod steps;
pub mod store;
pub mod tags;
pub mod template;
pub mod text;
pub mod theaudiodb;
pub mod trim;
pub mod url;
pub mod walk;
