use ecobook::book_sessions::{
    apply_incoming, empty_upsert, given_key, merge_sessions, new_session, normalize_history, SessionWrite,
};
use ecobook::editor_prefs::{apply_prefs_update, clamp_padding, normalize_grid_density, UpdateEditorPrefsRequest};
use ecobook::models::book_session::{default_variables, BookSession, SessionVariables};
use ecobook::models::editor_prefs::SlideEditorPrefs;
use ecobook::models::poll_vote::PollVote;
use ecobook::poll_votes::{aggregate, normalize_choice_ids, record_vote};

fn strings(v: &[&str]) -> Vec<String> {
    v.iter().map(|s| s.to_string()).collect()
}

fn vars(pairs: &[(&str, &str)]) -> SessionVariables {
    SessionVariables::Object(pairs.iter().map(|(k, v)| (k.to_string(), v.to_string())).collect())
}

fn object(v: &SessionVariables) -> Vec<(String, String)> {
    match v {
        SessionVariables::Object(e) => e.clone(),
        SessionVariables::Other(t) => panic!("not an object: {t}"),
    }
}

fn vote(user: &str, choices: &[&str]) -> PollVote {
    PollVote {
        id: None,
        user_id: user.to_string(),
        deck_id: "d".to_string(),
        slide_id: "s1".to_string(),
        element_id: "e1".to_string(),
        choice_ids: strings(choices),
        created_at: 1,
        updated_at: 1,
    }
}

fn count_of(counts: &[(String, u64)], c: &str) -> Option<u64> {
    counts.iter().find(|(k, _)| k == c).map(|(_, n)| *n)
}

#[test]
fn choice_ids_are_trimmed_and_deduped() {
    assert_eq!(normalize_choice_ids(&strings(&[" opt-a", "opt-b", "opt-a ", "", "  "])), strings(&["opt-a", "opt-b"]));
    assert_eq!(normalize_choice_ids(&Vec::new()), Vec::<String>::new());
}

#[test]
fn votes_are_tallied_once_per_voter_and_choice() {
    let votes = vec![vote("alice", &["opt-a", "opt-a", "opt-b"]), vote("eve", &["opt-a"])];
    let mine = vote("eve", &[" opt-a "]);
    let s = aggregate(&votes, Some(&mine));
    assert_eq!(s.total_voters, 2);
    assert_eq!(s.counts.len(), 2);
    assert_eq!(count_of(&s.counts, "opt-a"), Some(2));
    assert_eq!(count_of(&s.counts, "opt-b"), Some(1));
    assert_eq!(s.my_choice_ids, strings(&["opt-a"]));
    let anonymous = aggregate(&votes, None);
    assert!(anonymous.my_choice_ids.is_empty());
    assert_eq!(aggregate(&Vec::new(), None).counts.len(), 0);
}

#[test]
fn a_second_vote_replaces_the_first() {
    let (v, new) = record_vote(None, "eve", "d", "s1", "e1", &strings(&["b", "b"]), 7);
    assert!(new);
    assert_eq!(v.choice_ids, strings(&["b"]));
    assert_eq!((v.created_at, v.updated_at), (7, 7));
    let mut stored = v;
    stored.id = Some("id1".to_string());
    let (v2, new2) = record_vote(Some(stored), "eve", "d", "s1", "e1", &strings(&["a"]), 9);
    assert!(!new2);
    assert_eq!(v2.id.as_deref(), Some("id1"));
    assert_eq!(v2.choice_ids, strings(&["a"]));
    assert_eq!((v2.created_at, v2.updated_at), (7, 9));
}

#[test]
fn editor_prefs_default_and_clamp() {
    let p = SlideEditorPrefs::default_for("d", "alice", 3);
    assert_eq!(p.grid_density, "medium");
    assert_eq!(p.padding_top, 64);
    assert!(!p.show_grid);
    assert_eq!(clamp_padding(9999), 400);
    assert_eq!(clamp_padding(-50), 0);
    assert_eq!(clamp_padding(120), 120);
    assert_eq!(normalize_grid_density(Some(" FINE ")), "fine");
    assert_eq!(normalize_grid_density(Some("bogus")), "medium");
    assert_eq!(normalize_grid_density(Some("\tCoArSe")), "coarse");
    assert_eq!(normalize_grid_density(Some("Médium")), "medium");
    assert_eq!(normalize_grid_density(None), "medium");
    let body = UpdateEditorPrefsRequest {
        show_grid: true,
        grid_density: Some("bogus".to_string()),
        show_padding_guides: true,
        snap_to_grid: false,
        padding_top: 9999,
        padding_right: 10,
        padding_bottom: 20,
        padding_left: -50,
    };
    let u = apply_prefs_update(p, body, 8);
    assert_eq!(u.grid_density, "medium");
    assert_eq!(u.padding_top, 400);
    assert_eq!(u.padding_left, 0);
    assert_eq!((u.padding_right, u.padding_bottom), (10, 20));
    assert!(u.show_grid && u.show_padding_guides && !u.snap_to_grid);
    assert_eq!((u.created_at, u.updated_at), (3, 8));
}

#[test]
fn history_keeps_first_visits() {
    assert_eq!(
        normalize_history(Some(strings(&["s1", " s2", "s1", "", "s2 ", "s3"]))),
        Some(strings(&["s1", "s2", "s3"]))
    );
    assert_eq!(normalize_history(None), None);
}

#[test]
fn sessions_start_empty() {
    let s = new_session("d", None, Some("anon-xyz"), 4);
    assert_eq!(s.anon_session_id.as_deref(), Some("anon-xyz"));
    assert_eq!(s.user_id, None);
    assert!(object(&s.variables).is_empty());
    assert!(object(&default_variables()).is_empty());
    assert!(s.history.is_empty());
    assert!(given_key(Some("anon-xyz")));
    assert!(!given_key(Some("  ")));
    assert!(!given_key(None));
}

#[test]
fn upserts_change_only_what_they_carry() {
    let mut s = new_session("d", Some("alice"), None, 4);
    let mut u = empty_upsert();
    u.history = Some(strings(&["a", "a", "b"]));
    u.current_slide_id = Some("b".to_string());
    apply_incoming(&mut s, u);
    assert_eq!(s.history, strings(&["a", "b"]));
    assert_eq!(s.current_slide_id.as_deref(), Some("b"));
    apply_incoming(&mut s, empty_upsert());
    assert_eq!(s.history, strings(&["a", "b"]));
    assert_eq!(s.current_slide_id.as_deref(), Some("b"));
}

fn session(user: Option<&str>, anon: Option<&str>, v: SessionVariables, history: &[&str], current: Option<&str>) -> BookSession {
    let mut s = new_session("d", user, anon, 1);
    s.variables = v;
    s.history = strings(history);
    s.current_slide_id = current.map(|c| c.to_string());
    s
}

#[test]
fn merge_prefers_user_values() {
    let user = session(Some("alice"), None, vars(&[("a", "1"), ("b", "2")]), &["s1", "s2"], None);
    let anon = session(None, Some("x"), vars(&[("b", "9"), ("c", "3")]), &["s2", "s3"], Some("s3"));
    let (m, w) = merge_sessions("d", "alice", Some(user), Some(&anon), 10);
    assert_eq!(w, SessionWrite::Save);
    assert_eq!(
        object(&m.variables),
        vec![("a".to_string(), "1".to_string()), ("b".to_string(), "2".to_string()), ("c".to_string(), "3".to_string())]
    );
    assert_eq!(m.history, strings(&["s1", "s2", "s3"]));
    assert_eq!(m.current_slide_id.as_deref(), Some("s3"));
    assert_eq!(m.updated_at, 10);
}

#[test]
fn merge_without_user_session_starts_from_the_anonymous_one() {
    let anon = session(None, Some("x"), vars(&[("k", "v")]), &["s1", "s1"], Some("s1"));
    let (m, w) = merge_sessions("d", "alice", None, Some(&anon), 10);
    assert_eq!(w, SessionWrite::Insert);
    assert_eq!(m.user_id.as_deref(), Some("alice"));
    assert_eq!(m.anon_session_id, None);
    assert_eq!(object(&m.variables).len(), 1);
    assert_eq!(m.history, strings(&["s1"]));
    let (e, w) = merge_sessions("d", "alice", None, None, 10);
    assert_eq!(w, SessionWrite::Insert);
    assert!(e.history.is_empty());
    let user = session(Some("alice"), None, vars(&[]), &[], Some("s2"));
    let (k, w) = merge_sessions("d", "alice", Some(user), None, 10);
    assert_eq!(w, SessionWrite::Keep);
    assert_eq!(k.current_slide_id.as_deref(), Some("s2"));
}

#[test]
fn merge_keeps_a_set_user_slide() {
    let user = session(Some("alice"), None, SessionVariables::Other("[]".to_string()), &[], Some("s1"));
    let anon = session(None, Some("x"), vars(&[("c", "3")]), &[], Some("s3"));
    let (m, _) = merge_sessions("d", "alice", Some(user), Some(&anon), 10);
    assert_eq!(m.current_slide_id.as_deref(), Some("s1"));
    assert!(matches!(m.variables, SessionVariables::Other(ref t) if t == "[]"));
}

#[test]
fn normalising_twice_changes_nothing() {
    let once = normalize_history(Some(strings(&[" b", "a", "b ", " ", "c", "a"]))).unwrap();
    assert_eq!(once, strings(&["b", "a", "c"]));
    assert_eq!(normalize_history(Some(once.clone())), Some(once.clone()));
    assert_eq!(normalize_choice_ids(&once), once);
}
