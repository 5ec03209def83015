//! An author's personal library of images and poll templates.
use vstd::prelude::*;
use crate::models::slide_deck::id_text;

verus! {

/// An image an author keeps for reuse. Times are milliseconds since the
/// Unix epoch; the id is the hex form of the document id.
#[derive(Clone, Debug)]
pub struct AuthorImageAsset {
    pub id: Option<String>,
    pub owner_id: String,
    pub file_url: String,
    pub created_at: i64,
    pub updated_at: i64,
}

/// A reusable poll style. Times are milliseconds since the Unix epoch;
/// the id is the hex form of the document id.
#[derive(Clone, Debug)]
pub struct AuthorPollTemplate {
    pub id: Option<String>,
    pub owner_id: String,
    pub title: String,
    pub poll_style_json: Option<String>,
    pub created_at: i64,
    pub updated_at: i64,
}

impl AuthorPollTemplate {
    /// The template's id as text (empty before it is stored).
    pub fn id_string(&self) -> (s: String)
        ensures
            s@ == id_text(self.id),
    {
        match &self.id {
            Some(s) => s.clone(),
            None => String::new(),
        }
    }
}

} // verus!
