//! Verified core of the ecobook slide-deck service.
pub mod text;
pub mod markdown;
pub mod models;
pub mod outside;
pub mod deck_doc;
pub mod slide_decks;
pub mod book_sessions;
pub mod editor_prefs;
pub mod poll_votes;
pub mod placements;
pub mod author_image_assets;
pub mod author_poll_templates;
pub mod storage;
pub mod peers;
pub mod round_trip;
pub mod reader_page;
