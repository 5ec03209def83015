//! The other services this one asks: who is a platform owner (auth), who
//! is registered for an event (community), who has paid for a deck
//! (payments). The requests and the reading of the answers; sending them
//! is the caller's part.
use vstd::prelude::*;
use crate::text::{eq_ignore_ascii_case, strip_all_end};

verus! {

/// The part of the auth service's user record this service reads.
#[derive(Clone, Debug)]
pub struct Identity {
    pub role: String,
}

/// How a request to another service went.
#[derive(Clone, Debug)]
pub enum Reply<T> {
    /// A success status with a body that reads as `T`.
    Answered(T),
    /// A success status with a body that does not read as `T`.
    Unreadable,
    /// Another status (such as 404).
    Status(u16),
    /// No answer at all.
    Unreachable,
}

/// Whether an identity is a platform owner: its role is `owner` in any
/// ASCII case.
pub fn is_owner_role(identity: &Identity) -> (b: bool)
    ensures
        b == eq_ignore_ascii_case(identity.role@, "owner"@),
{
    crate::text::str_eq_ignore_ascii_case(identity.role.as_str(), "owner")
}

/// Whether the auth service's reply makes the user a platform owner; any
/// failure counts as no.
pub fn owner_from_reply(reply: &Reply<Identity>) -> (b: bool)
    ensures
        b == match reply {
            Reply::Answered(id) => eq_ignore_ascii_case(id.role@, "owner"@),
            _ => false,
        },
{
    match reply {
        Reply::Answered(id) => is_owner_role(id),
        _ => false,
    }
}

/// The yes/no a service answered; any failure counts as no.
pub fn flag_from_reply(reply: &Reply<bool>) -> (b: bool)
    ensures
        b == match reply {
            Reply::Answered(v) => *v,
            _ => false,
        },
{
    match reply {
        Reply::Answered(v) => *v,
        _ => false,
    }
}

/// The auth service's record of a user.
pub fn auth_user_url(base_url: &str, user_id: &str) -> (s: String)
    ensures
        s@ == strip_all_end(base_url@, '/') + "/auth/users/"@ + user_id@,
{
    let mut s = crate::text::strip_end_char(base_url, '/');
    crate::text::push_str(&mut s, "/auth/users/");
    crate::text::push_str(&mut s, user_id);
    s
}

/// The community service's answer on a user's registration for an event.
pub fn registration_url(base_url: &str, event_id: &str, user_id: &str) -> (s: String)
    ensures
        s@ == strip_all_end(base_url@, '/') + "/events/"@ + event_id@ + "/registration/"@ + user_id@,
{
    let mut s = crate::text::strip_end_char(base_url, '/');
    crate::text::push_str(&mut s, "/events/");
    crate::text::push_str(&mut s, event_id);
    crate::text::push_str(&mut s, "/registration/");
    crate::text::push_str(&mut s, user_id);
    s
}

/// The payments service's answer on whether a user has paid for a deck.
pub fn slide_payment_url(base_url: &str, user_id: &str, slide_deck_id: &str) -> (s: String)
    ensures
        s@ == strip_all_end(base_url@, '/') + "/payments/access/slide-deck/"@ + slide_deck_id@
            + "/user/"@ + user_id@,
{
    let mut s = crate::text::strip_end_char(base_url, '/');
    crate::text::push_str(&mut s, "/payments/access/slide-deck/");
    crate::text::push_str(&mut s, slide_deck_id);
    crate::text::push_str(&mut s, "/user/");
    crate::text::push_str(&mut s, user_id);
    s
}

} // verus!
