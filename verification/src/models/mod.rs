//! Stored documents of the service, as plain values.
pub mod author_assets;
pub mod book_session;
pub mod editor_prefs;
pub mod file;
pub mod poll_vote;
pub mod slide_deck;
