use ecobook::author_image_assets::{image_usage, normalize, record_asset};
use ecobook::author_poll_templates::{
    default_true, extract_poll_template_id, new_template, normalize_style_json, sync_deck_polls,
    template_usage, update_template, TemplateBody,
};
use ecobook::models::author_assets::AuthorImageAsset;
use ecobook::models::slide_deck::{Coord, Element, Slide, SlideDeck};

fn element(id: &str, kind: &str, content: Option<&str>, style: Option<&str>) -> Element {
    Element {
        id: id.to_string(),
        element_type: Some(kind.to_string()),
        x: Coord::Hundredths(0),
        y: Coord::Float(0x4059000000000000),
        width: Coord::Hundredths(100),
        height: Coord::Hundredths(100),
        content: content.map(|c| c.to_string()),
        label: None,
        style: style.map(|s| s.to_string()),
        link_url: None,
        flip_h: None,
        flip_v: None,
    }
}

fn slide(id: &str, elements: Vec<Element>) -> Slide {
    Slide {
        id: id.to_string(),
        name: None,
        elements,
        background: None,
        level: Some(1),
        progressive_reveal: None,
        reveal_order: None,
        guided_reveal: None,
        rpp: None,
    }
}

fn deck(id: &str, name: Option<&str>, slides: Vec<Slide>) -> SlideDeck {
    SlideDeck {
        id: Some(id.to_string()),
        name: name.map(|n| n.to_string()),
        slug: None,
        subtitle: None,
        cover_url: None,
        description: None,
        long_summary: None,
        learning_objectives: Vec::new(),
        requirements: Vec::new(),
        target_audience: Vec::new(),
        tags: Vec::new(),
        level: None,
        language: None,
        instructor_name: None,
        estimated_duration_minutes: None,
        status: "draft".to_string(),
        owner_id: "alice".to_string(),
        community_id: None,
        event_id: None,
        theme: None,
        transition: None,
        layout_format: None,
        price: None,
        compare_at_price: None,
        paywall_start_slide_index: None,
        slides,
        flow: None,
        gallery_images: Vec::new(),
        guided_audio_library: Vec::new(),
        created_at: 1,
        updated_at: 1,
    }
}

const LINKED: &str = "{\"pollTemplateId\":\"t1\",\"color\":\"red\"}";

fn decks() -> Vec<SlideDeck> {
    vec![
        deck(
            "d1",
            Some("First"),
            vec![
                slide("s1", vec![element("e1", "image", Some(" http://x/a.png "), None), element("e2", "text", Some("http://x/a.png"), None)]),
                slide("s2", vec![element("e3", "poll", None, Some(LINKED)), element("e4", "image", Some("http://x/a.png"), None)]),
            ],
        ),
        deck(
            "d2",
            None,
            vec![slide("s9", vec![element("e5", "poll", None, Some("{\"pollTemplateId\":\"t2\"}")), element("e6", "poll", None, Some("not json"))])],
        ),
    ]
}

#[test]
fn urls_are_kept_trimmed() {
    assert_eq!(normalize("  http://x/a.png \n"), "http://x/a.png");
    let (a, new) = record_asset(None, "alice", " http://x/a.png ", 5);
    assert!(new);
    assert_eq!(a.file_url, "http://x/a.png");
    assert_eq!((a.created_at, a.updated_at), (5, 5));
    let kept = AuthorImageAsset { id: Some("i".to_string()), ..a };
    let (b, new) = record_asset(Some(kept), "alice", "http://x/a.png", 9);
    assert!(!new);
    assert_eq!(b.id.as_deref(), Some("i"));
    assert_eq!((b.created_at, b.updated_at), (5, 9));
}

#[test]
fn image_usage_lists_matching_image_elements_in_order() {
    let u = image_usage(&decks(), "http://x/a.png  ");
    assert_eq!(u.len(), 2);
    assert_eq!((u[0].deck_id.as_str(), u[0].deck_name.as_deref(), u[0].slide_id.as_str(), u[0].slide_index, u[0].element_id.as_str()), ("d1", Some("First"), "s1", 0, "e1"));
    assert_eq!((u[1].slide_id.as_str(), u[1].slide_index, u[1].element_id.as_str()), ("s2", 1, "e4"));
    assert!(image_usage(&decks(), "http://other").is_empty());
}

#[test]
fn style_json_is_normalized_and_linked() {
    assert_eq!(normalize_style_json(None, None), "{}");
    assert_eq!(normalize_style_json(Some("  "), Some("t1")), "{\"pollTemplateId\":\"t1\"}");
    assert_eq!(normalize_style_json(Some("not json"), Some("t\"1")), "{\"pollTemplateId\":\"t\\\"1\"}");
    assert_eq!(normalize_style_json(Some("{ \"a\" : [ 2 ] ,\n \"b\": 1 }"), None), "{\"a\":[2],\"b\":1}");
    assert_eq!(normalize_style_json(Some("{\"b\":1}"), Some("t9")), "{\"b\":1,\"pollTemplateId\":\"t9\"}");
    assert_eq!(normalize_style_json(Some("{\"pollTemplateId\":\"old\"}"), Some("t9")), "{\"pollTemplateId\":\"t9\"}");
    assert_eq!(normalize_style_json(Some("[1, 2]"), Some("t9")), "[1,2]");
    assert_eq!(normalize_style_json(Some("{\"b\":1}"), Some("   ")), "{\"b\":1}");
}

#[test]
fn a_linked_template_id_reads_back_from_the_style() {
    for style in [None, Some(""), Some(" "), Some("oops"), Some("{}"), Some("{\"a\":1}"), Some("{\"pollTemplateId\":\"x\"}")] {
        let s = normalize_style_json(style, Some("tpl \"7\"\u{1}"));
        assert_eq!(extract_poll_template_id(Some(&s)).as_deref(), Some("tpl \"7\"\u{1}"));
    }
    let s = normalize_style_json(Some("[1, 2]"), Some("tpl"));
    assert_eq!(extract_poll_template_id(Some(&s)), None);
    assert_eq!(s, "[1,2]");
}

#[test]
fn template_ids_are_read_from_style_json() {
    assert_eq!(extract_poll_template_id(Some(LINKED)).as_deref(), Some("t1"));
    assert_eq!(extract_poll_template_id(Some("{\"pollTemplateId\":3}")), None);
    assert_eq!(extract_poll_template_id(Some("oops")), None);
    assert_eq!(extract_poll_template_id(None), None);
}

#[test]
fn templates_get_titles_and_styles() {
    let body = TemplateBody { title: Some("   ".to_string()), poll_style_json: Some("{\"x\": 1}".to_string()) };
    let t = new_template("alice", &body, 3);
    assert_eq!(t.title, "Poll Template");
    assert_eq!(t.poll_style_json.as_deref(), Some("{\"x\":1}"));
    assert_eq!(t.owner_id, "alice");
    let body = TemplateBody { title: Some("  Quiz ".to_string()), poll_style_json: None };
    let u = update_template(t, &body, "t7", 8);
    assert_eq!(u.title, "Quiz");
    assert_eq!(u.poll_style_json.as_deref(), Some("{\"pollTemplateId\":\"t7\"}"));
    assert_eq!((u.created_at, u.updated_at), (3, 8));
    let body = TemplateBody { title: None, poll_style_json: None };
    assert_eq!(update_template(u, &body, "t7", 9).title, "Quiz");
    assert!(default_true());
}

#[test]
fn template_usage_lists_linked_polls() {
    let u = template_usage(&decks(), "t1");
    assert_eq!(u.len(), 1);
    assert_eq!((u[0].deck_id.as_str(), u[0].slide_index, u[0].element_id.as_str()), ("d1", 1, "e3"));
    let u = template_usage(&decks(), "t2");
    assert_eq!(u.len(), 1);
    assert_eq!(u[0].deck_name, None);
}

#[test]
fn sync_restyles_exactly_the_linked_polls() {
    let mut ds = decks();
    let style = normalize_style_json(Some("{\"color\":\"blue\"}"), Some("t1"));
    let n = sync_deck_polls(&mut ds[0], "t1", &style, 42);
    assert_eq!(n, template_usage(&decks()[..1].to_vec(), "t1").len());
    assert_eq!(n, 1);
    assert_eq!(ds[0].updated_at, 42);
    assert_eq!(ds[0].slides[1].elements[0].style.as_deref(), Some("{\"color\":\"blue\",\"pollTemplateId\":\"t1\"}"));
    assert_eq!(ds[0].slides[1].elements[1].content.as_deref(), Some("http://x/a.png"));
    let n = sync_deck_polls(&mut ds[1], "t1", &style, 43);
    assert_eq!(n, 0);
    assert_eq!(ds[1].updated_at, 1);
    assert_eq!(ds[1].slides[0].elements[1].style.as_deref(), Some("not json"));
}
