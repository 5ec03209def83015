//! Reading progress of one reader through one deck.
use vstd::prelude::*;
use crate::models::slide_deck::id_text;

verus! {

/// A JSON value holding a session's variables: an object (its members as
/// key and JSON value text, keys distinct) or any other JSON value (its
/// text).
#[derive(Clone, Debug)]
pub enum SessionVariables {
    Object(Vec<(String, String)>),
    Other(String),
}

/// A reader's session on a deck: signed-in readers have a user id,
/// anonymous readers an id their browser keeps. Times are milliseconds
/// since the Unix epoch; the id is the hex form of the document id.
#[derive(Clone, Debug)]
pub struct BookSession {
    pub id: Option<String>,
    pub deck_id: String,
    pub user_id: Option<String>,
    pub anon_session_id: Option<String>,
    pub variables: SessionVariables,
    /// Visited slide ids, for back navigation.
    pub history: Vec<String>,
    pub current_slide_id: Option<String>,
    pub created_at: i64,
    pub updated_at: i64,
}

/// The variables a session starts with: an empty object.
pub fn default_variables() -> (v: SessionVariables)
    ensures
        v matches SessionVariables::Object(e) && e@.len() == 0,
{
    SessionVariables::Object(Vec::new())
}

impl BookSession {
    /// The session's id as text (empty before it is stored).
    pub fn id_string(&self) -> (s: String)
        ensures
            s@ == id_text(self.id),
    {
        match &self.id {
            Some(s) => s.clone(),
            None => String::new(),
        }
    }
}

} // verus!
