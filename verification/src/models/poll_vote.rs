//! A reader's vote on a poll element.
use vstd::prelude::*;

verus! {

/// The choices one user picked on one poll element. Times are
/// milliseconds since the Unix epoch; the id is the hex form of the
/// document id.
#[derive(Clone, Debug)]
pub struct PollVote {
    pub id: Option<String>,
    pub user_id: String,
    pub deck_id: String,
    pub slide_id: String,
    pub element_id: String,
    pub choice_ids: Vec<String>,
    pub created_at: i64,
    pub updated_at: i64,
}

} // verus!
