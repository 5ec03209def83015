//! Reader sessions: where a reader is in a deck, what they visited and the
//! variables branching decks keep. Signed-in readers are keyed by user id,
//! anonymous readers by an id their browser keeps; signing in merges the
//! anonymous session into the user's.
use vstd::prelude::*;
use crate::text::{dedup_trimmed, texts, opt_text, is_blank};
use crate::models::book_session::{BookSession, SessionVariables};

verus! {

/// The abstract value of session variables.
pub enum VariablesView {
    Object(Seq<(Seq<char>, Seq<char>)>),
    Other(Seq<char>),
}

/// The members of an object as key and value text.
pub open spec fn entry_views(e: Seq<(String, String)>) -> Seq<(Seq<char>, Seq<char>)> {
    e.map_values(|p: (String, String)| (p.0@, p.1@))
}

/// The abstract value of session variables.
pub open spec fn variables_view(v: SessionVariables) -> VariablesView {
    match v {
        SessionVariables::Object(e) => VariablesView::Object(entry_views(e@)),
        SessionVariables::Other(t) => VariablesView::Other(t@),
    }
}

/// The query naming an anonymous reader's session.
#[derive(Clone, Debug)]
pub struct AnonQuery {
    pub anon_session_id: Option<String>,
}

/// The body of a request to merge an anonymous session into the caller's.
#[derive(Clone, Debug)]
pub struct MergeRequest {
    pub anon_session_id: Option<String>,
}

/// A new, empty session on a deck for a user or an anonymous reader.
pub fn new_session(deck_id: &str, user_id: Option<&str>, anon_session_id: Option<&str>, now: i64) -> (s: BookSession)
    ensures
        s.id is None,
        s.deck_id@ == deck_id@,
        opt_text(s.user_id) == match user_id {
            Some(u) => Some(u@),
            None => None,
        },
        opt_text(s.anon_session_id) == match anon_session_id {
            Some(a) => Some(a@),
            None => None,
        },
        variables_view(s.variables) == VariablesView::Object(Seq::empty()),
        s.history@.len() == 0,
        s.current_slide_id is None,
        s.created_at == now && s.updated_at == now,
{
    let vars = crate::models::book_session::default_variables();
    let s = BookSession {
        id: None,
        deck_id: crate::text::owned(deck_id),
        user_id: match user_id {
            Some(u) => Some(crate::text::owned(u)),
            None => None,
        },
        anon_session_id: match anon_session_id {
            Some(a) => Some(crate::text::owned(a)),
            None => None,
        },
        variables: vars,
        history: Vec::new(),
        current_slide_id: None,
        created_at: now,
        updated_at: now,
    };
    assert(s.variables matches SessionVariables::Object(e) && entry_views(e@) =~= Seq::empty());
    s
}

/// A submitted history: trimmed, blanks dropped, each slide id kept at its
/// first visit.
pub fn normalize_history(raw: Option<Vec<String>>) -> (r: Option<Vec<String>>)
    ensures
        match raw {
            None => r is None,
            Some(v) => r matches Some(h) && texts(h@) == dedup_trimmed(texts(v@)),
        },
{
    match raw {
        None => None,
        Some(v) => Some(crate::text::dedup_trimmed_strings(&v)),
    }
}

/// The body of a session update; absent fields leave the session as is.
#[derive(Clone, Debug)]
pub struct UpsertSessionRequest {
    pub variables: Option<SessionVariables>,
    pub history: Option<Vec<String>>,
    pub current_slide_id: Option<String>,
}

/// An empty update.
pub fn empty_upsert() -> (u: UpsertSessionRequest)
    ensures
        u.variables is None && u.history is None && u.current_slide_id is None,
{
    UpsertSessionRequest { variables: None, history: None, current_slide_id: None }
}

/// Applies an update to a session: given variables replace the old ones,
/// a given history replaces the old one (normalised), a given current
/// slide replaces the old one.
pub fn apply_incoming(target: &mut BookSession, incoming: UpsertSessionRequest)
    ensures
        final(target).variables == match incoming.variables {
            Some(v) => v,
            None => old(target).variables,
        },
        match incoming.history {
            Some(h) => texts(final(target).history@) == dedup_trimmed(texts(h@)),
            None => final(target).history == old(target).history,
        },
        final(target).current_slide_id == match incoming.current_slide_id {
            Some(c) => Some(c),
            None => old(target).current_slide_id,
        },
        final(target).id == old(target).id && final(target).deck_id == old(target).deck_id,
        final(target).user_id == old(target).user_id,
        final(target).anon_session_id == old(target).anon_session_id,
        final(target).created_at == old(target).created_at,
        final(target).updated_at == old(target).updated_at,
{
    match incoming.variables {
        Some(v) => {
            target.variables = v;
        },
        None => {},
    }
    match normalize_history(incoming.history) {
        Some(h) => {
            target.history = h;
        },
        None => {},
    }
    match incoming.current_slide_id {
        Some(c) => {
            target.current_slide_id = Some(c);
        },
        None => {},
    }
}

/// Whether the members `e` have a member named `k`.
pub open spec fn has_key(e: Seq<(Seq<char>, Seq<char>)>, k: Seq<char>) -> bool {
    exists|i: int| 0 <= i < e.len() && #[trigger] e[i].0 == k
}

/// The members of `a` whose names `u` does not have, in order.
pub open spec fn missing_members(
    u: Seq<(Seq<char>, Seq<char>)>,
    a: Seq<(Seq<char>, Seq<char>)>,
) -> Seq<(Seq<char>, Seq<char>)>
    decreases a.len(),
{
    if a.len() == 0 {
        Seq::empty()
    } else {
        let r = missing_members(u, a.drop_last());
        if has_key(u, a.last().0) {
            r
        } else {
            r.push(a.last())
        }
    }
}

/// Merged variables: when both are objects, the user's members followed by
/// the anonymous members the user lacks; otherwise the user's variables.
pub open spec fn merged_variables(u: VariablesView, a: VariablesView) -> VariablesView {
    match (u, a) {
        (VariablesView::Object(ue), VariablesView::Object(ae)) => VariablesView::Object(ue + missing_members(ue, ae)),
        _ => u,
    }
}

/// A copy of a string pair.
fn copy_pair(p: &(String, String)) -> (r: (String, String))
    ensures
        r.0@ == p.0@ && r.1@ == p.1@,
{
    (p.0.clone(), p.1.clone())
}

/// Whether `e[..n]` has a member named `k`.
fn members_have(e: &Vec<(String, String)>, n: usize, k: &str) -> (b: bool)
    requires
        n <= e@.len(),
    ensures
        b == has_key(entry_views(e@).take(n as int), k@),
{
    let ghost ev = entry_views(e@).take(n as int);
    let mut i: usize = 0;
    while i < n
        invariant
            n <= e@.len(),
            ev == entry_views(e@).take(n as int),
            i <= n,
            forall|j: int| 0 <= j < i ==> #[trigger] ev[j].0 != k@,
        decreases n - i,
    {
        assert(ev[i as int] == (e@[i as int].0@, e@[i as int].1@));
        if crate::text::str_equals(e[i].0.as_str(), k) {
            assert(ev[i as int].0 == k@);
            return true;
        }
        i += 1;
    }
    false
}

/// Merges variables: user members win, anonymous members fill the gaps.
fn merge_variables(user: SessionVariables, anon: &SessionVariables) -> (r: SessionVariables)
    ensures
        variables_view(r) == merged_variables(variables_view(user), variables_view(*anon)),
{
    match (user, anon) {
        (SessionVariables::Object(ue), SessionVariables::Object(ae)) => {
            let ghost uv = entry_views(ue@);
            let ghost av = entry_views(ae@);
            let n = ue.len();
            let mut out = ue;
            let m = ae.len();
            let mut j: usize = 0;
            while j < m
                invariant
                    n <= out@.len(),
                    m == ae@.len(),
                    av == entry_views(ae@),
                    uv == entry_views(out@).take(n as int),
                    uv.len() == n,
                    j <= m,
                    entry_views(out@) == uv + missing_members(uv, av.take(j as int)),
                decreases m - j,
            {
                proof {
                    assert(av.take(j + 1).drop_last() =~= av.take(j as int));
                    assert(av[j as int] == (ae@[j as int].0@, ae@[j as int].1@));
                    assert(entry_views(out@).take(n as int) =~= uv);
                }
                if !members_have(&out, n, ae[j].0.as_str()) {
                    let ghost before = entry_views(out@);
                    out.push(copy_pair(&ae[j]));
                    assert(entry_views(out@) =~= before.push(av[j as int]));
                    assert(entry_views(out@).take(n as int) =~= uv);
                }
                j += 1;
            }
            assert(av.take(m as int) =~= av);
            SessionVariables::Object(out)
        },
        (u, _) => u,
    }
}

/// A copy of session variables.
fn copy_variables(v: &SessionVariables) -> (r: SessionVariables)
    ensures
        variables_view(r) == variables_view(*v),
{
    match v {
        SessionVariables::Object(e) => {
            let mut out: Vec<(String, String)> = Vec::new();
            let n = e.len();
            let mut i: usize = 0;
            while i < n
                invariant
                    n == e@.len(),
                    i <= n,
                    entry_views(out@) == entry_views(e@).take(i as int),
                decreases n - i,
            {
                let ghost before = entry_views(out@);
                out.push(copy_pair(&e[i]));
                assert(entry_views(out@) =~= before.push(entry_views(e@)[i as int]));
                assert(entry_views(e@).take(i + 1) =~= entry_views(e@).take(i as int).push(entry_views(e@)[i as int]));
                i += 1;
            }
            assert(entry_views(e@).take(n as int) =~= entry_views(e@));
            SessionVariables::Object(out)
        },
        SessionVariables::Other(t) => SessionVariables::Other(t.clone()),
    }
}

/// How a merge result must be stored.
#[derive(Clone, Copy, PartialEq, Eq, Structural, Debug)]
pub enum SessionWrite {
    /// A new session: insert it.
    Insert,
    /// The user's session changed: save it.
    Save,
    /// Nothing changed.
    Keep,
}

/// An optional text that is absent or empty.
pub open spec fn unset(o: Option<String>) -> bool {
    match o {
        Some(s) => s@.len() == 0,
        None => true,
    }
}

/// The current slide after a merge: the user's, unless it is unset and the
/// anonymous session has a non-empty one.
pub open spec fn merged_current(u: Option<String>, a: Option<String>) -> Option<Seq<char>> {
    if unset(u) && !unset(a) {
        opt_text(a)
    } else {
        opt_text(u)
    }
}

/// Merges an anonymous session into a user's session on `deck_id`. User
/// values win; anonymous values fill in only what is missing; the history
/// is the user's followed by the anonymous one, normalised. Without a user
/// session, a new one starts from the anonymous session (or empty).
/// The anonymous session is deleted by the caller.
pub fn merge_sessions(
    deck_id: &str,
    user_id: &str,
    user: Option<BookSession>,
    anon: Option<&BookSession>,
    now: i64,
) -> (r: (BookSession, SessionWrite))
    ensures
        match (user, anon) {
            (Some(u), None) => r.0 == u && r.1 == SessionWrite::Keep,
            (Some(u), Some(a)) => {
                &&& r.1 == SessionWrite::Save
                &&& r.0.id == u.id && r.0.deck_id == u.deck_id && r.0.user_id == u.user_id
                &&& r.0.anon_session_id == u.anon_session_id && r.0.created_at == u.created_at
                &&& variables_view(r.0.variables) == merged_variables(variables_view(u.variables), variables_view(a.variables))
                &&& texts(r.0.history@) == dedup_trimmed(texts(u.history@) + texts(a.history@))
                &&& opt_text(r.0.current_slide_id) == merged_current(u.current_slide_id, a.current_slide_id)
                &&& r.0.updated_at == now
            },
            (None, anon) => {
                &&& r.1 == SessionWrite::Insert
                &&& r.0.id is None
                &&& r.0.deck_id@ == deck_id@
                &&& opt_text(r.0.user_id) == Some(user_id@)
                &&& r.0.anon_session_id is None
                &&& r.0.created_at == now && r.0.updated_at == now
                &&& match anon {
                    None => {
                        &&& variables_view(r.0.variables) == VariablesView::Object(Seq::empty())
                        &&& r.0.history@.len() == 0
                        &&& r.0.current_slide_id is None
                    },
                    Some(a) => {
                        &&& variables_view(r.0.variables) == variables_view(a.variables)
                        &&& texts(r.0.history@) == dedup_trimmed(texts(a.history@))
                        &&& opt_text(r.0.current_slide_id) == opt_text(a.current_slide_id)
                    },
                }
            },
        },
{
    match user {
        None => {
            let mut created = new_session(deck_id, Some(user_id), None, now);
            match anon {
                None => {},
                Some(a) => {
                    created.variables = copy_variables(&a.variables);
                    created.history = crate::text::dedup_trimmed_strings(&a.history);
                    created.current_slide_id = match &a.current_slide_id {
                        Some(c) => Some(c.clone()),
                        None => None,
                    };
                },
            }
            (created, SessionWrite::Insert)
        },
        Some(u) => match anon {
            None => (u, SessionWrite::Keep),
            Some(a) => {
                let mut s = u;
                let vars = merge_variables(s.variables, &a.variables);
                let mut combined: Vec<String> = s.history.clone();
                let mut i: usize = 0;
                let n = a.history.len();
                let ghost uh = texts(s.history@);
                assert(texts(combined@) =~= uh);
                while i < n
                    invariant
                        n == a.history@.len(),
                        i <= n,
                        texts(combined@) == uh + texts(a.history@).take(i as int),
                    decreases n - i,
                {
                    let ghost before = texts(combined@);
                    combined.push(a.history[i].clone());
                    assert(texts(combined@) =~= before.push(a.history@[i as int]@));
                    assert(texts(a.history@).take(i + 1) =~= texts(a.history@).take(i as int).push(a.history@[i as int]@));
                    i += 1;
                }
                assert(texts(a.history@).take(n as int) =~= texts(a.history@));
                let history = crate::text::dedup_trimmed_strings(&combined);
                let user_unset = match &s.current_slide_id {
                    Some(c) => crate::text::chars_of(c.as_str()).len() == 0,
                    None => true,
                };
                let current = if user_unset {
                    match &a.current_slide_id {
                        Some(c) => if crate::text::chars_of(c.as_str()).len() != 0 {
                            Some(c.clone())
                        } else {
                            s.current_slide_id
                        },
                        None => s.current_slide_id,
                    }
                } else {
                    s.current_slide_id
                };
                let merged = BookSession {
                    id: s.id,
                    deck_id: s.deck_id,
                    user_id: s.user_id,
                    anon_session_id: s.anon_session_id,
                    variables: vars,
                    history,
                    current_slide_id: current,
                    created_at: s.created_at,
                    updated_at: now,
                };
                (merged, SessionWrite::Save)
            },
        },
    }
}

/// Whether a session key (an anonymous id) was given: present and not
/// blank.
pub fn given_key(key: Option<&str>) -> (b: bool)
    ensures
        b == match key {
            Some(k) => !is_blank(k@),
            None => false,
        },
{
    match key {
        Some(k) => !crate::text::str_is_blank(k),
        None => false,
    }
}

/// The members of `a` the merge adds are exactly those whose names the
/// user's members lack.
proof fn lemma_missing_members_keys(
    u: Seq<(Seq<char>, Seq<char>)>,
    a: Seq<(Seq<char>, Seq<char>)>,
    k: Seq<char>,
)
    ensures
        has_key(missing_members(u, a), k) <==> (has_key(a, k) && !has_key(u, k)),
        forall|j: int|
            0 <= j < missing_members(u, a).len() ==> !has_key(u, (#[trigger] missing_members(u, a)[j]).0)
                && a.contains(missing_members(u, a)[j]),
    decreases a.len(),
{
    if a.len() > 0 {
        let r = missing_members(u, a.drop_last());
        lemma_missing_members_keys(u, a.drop_last(), k);
        let m = missing_members(u, a);
        assert forall|j: int| 0 <= j < m.len() implies !has_key(u, (#[trigger] m[j]).0) && a.contains(m[j]) by {
            if j < r.len() {
                assert(m[j] == r[j]);
                let w = choose|w: int| 0 <= w < a.drop_last().len() && a.drop_last()[w] == r[j];
                assert(a[w] == r[j]);
            } else {
                assert(m[j] == a.last());
                assert(a[a.len() - 1] == a.last());
            }
        }
        if has_key(a, k) && !has_key(u, k) {
            let i = choose|i: int| 0 <= i < a.len() && #[trigger] a[i].0 == k;
            if i < a.len() - 1 {
                assert(a.drop_last()[i].0 == k);
                let w = choose|w: int| 0 <= w < r.len() && #[trigger] r[w].0 == k;
                assert(m[w] == r[w]);
            } else {
                assert(m[m.len() - 1] == a.last());
            }
        }
        if has_key(m, k) {
            let j = choose|j: int| 0 <= j < m.len() && #[trigger] m[j].0 == k;
            if j < r.len() {
                assert(m[j] == r[j]);
                assert(has_key(a.drop_last(), k));
                let w = choose|w: int| 0 <= w < a.drop_last().len() && #[trigger] a.drop_last()[w].0 == k;
                assert(a[w].0 == k);
            } else {
                assert(a[a.len() - 1].0 == k);
            }
        }
    }
}

/// Merging sessions keeps every variable of the user's session as it was
/// (user values win), adds exactly the anonymous variables whose names the
/// user lacks, and so holds a variable exactly when either session did.
pub proof fn lemma_merge_prefers_user(
    ue: Seq<(Seq<char>, Seq<char>)>,
    ae: Seq<(Seq<char>, Seq<char>)>,
)
    ensures
        merged_variables(VariablesView::Object(ue), VariablesView::Object(ae)) matches VariablesView::Object(
            m,
        ) && m.take(ue.len() as int) == ue && (forall|j: int|
            ue.len() <= j < m.len() ==> !has_key(ue, (#[trigger] m[j]).0) && ae.contains(m[j])) && (forall|
            k: Seq<char>,
        | #[trigger] has_key(m, k) <==> (has_key(ue, k) || has_key(ae, k))),
{
    let mm = missing_members(ue, ae);
    let m = ue + mm;
    assert(m.take(ue.len() as int) =~= ue);
    assert forall|j: int| ue.len() <= j < m.len() implies !has_key(ue, (#[trigger] m[j]).0) && ae.contains(
        m[j],
    ) by {
        lemma_missing_members_keys(ue, ae, m[j].0);
        assert(m[j] == mm[j - ue.len()]);
    }
    assert forall|k: Seq<char>| #[trigger] has_key(m, k) <==> (has_key(ue, k) || has_key(ae, k)) by {
        lemma_missing_members_keys(ue, ae, k);
        if has_key(m, k) {
            let j = choose|j: int| 0 <= j < m.len() && #[trigger] m[j].0 == k;
            if j < ue.len() {
                assert(ue[j].0 == k);
            } else {
                assert(mm[j - ue.len()].0 == k);
            }
        }
        if has_key(ue, k) {
            let j = choose|j: int| 0 <= j < ue.len() && #[trigger] ue[j].0 == k;
            assert(m[j].0 == k);
        } else if has_key(ae, k) {
            let j = choose|j: int| 0 <= j < mm.len() && #[trigger] mm[j].0 == k;
            assert(m[ue.len() + j].0 == k);
        }
    }
}

} // verus!
