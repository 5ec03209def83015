use ecobook::models::slide_deck::{Coord, Element, GuidedAudioAsset, Slide, SlideDeck, SlideDeckInput};
use ecobook::slide_decks::{
    access_step, apply_update, build_curriculum, check_update, deck_for_reader, editable_slug_base,
    extract_slide_title, initial_status, is_deck_owner, is_published, looks_like_object_id,
    may_list_owner_decks, new_deck, paywall_preview, prepare_new_deck, published_slug_base, slug_candidate, slug_from_lower,
    slug_step, slugify, to_public_detail, validate_publish_fields, AccessAction, PublishError, SlugStep,
    PAYWALL_ACTIVE,
};

fn element(id: &str, kind: &str, content: Option<&str>) -> Element {
    Element {
        id: id.to_string(),
        element_type: Some(kind.to_string()),
        x: Coord::Hundredths(11000),
        y: Coord::Hundredths(21000),
        width: Coord::Hundredths(170000),
        height: Coord::Hundredths(5000),
        content: content.map(|c| c.to_string()),
        label: None,
        style: None,
        link_url: None,
        flip_h: None,
        flip_v: None,
    }
}

fn slide(id: &str, level: Option<i32>, elements: Vec<Element>) -> Slide {
    Slide {
        id: id.to_string(),
        name: Some(format!("name of {id}")),
        elements,
        background: Some("#fff".to_string()),
        level,
        progressive_reveal: Some(true),
        reveal_order: None,
        guided_reveal: None,
        rpp: Some("{}".to_string()),
    }
}

fn input() -> SlideDeckInput {
    SlideDeckInput {
        name: Some("Deck".to_string()),
        slug: None,
        subtitle: None,
        cover_url: None,
        description: None,
        long_summary: None,
        learning_objectives: Vec::new(),
        requirements: Vec::new(),
        target_audience: Vec::new(),
        tags: Vec::new(),
        level: None,
        language: None,
        instructor_name: None,
        estimated_duration_minutes: None,
        status: None,
        community_id: None,
        event_id: None,
        theme: None,
        transition: None,
        layout_format: None,
        price: None,
        compare_at_price: None,
        paywall_start_slide_index: None,
        slides: Vec::new(),
        flow: None,
        gallery_images: Vec::new(),
        guided_audio_library: Vec::new(),
    }
}

fn deck(slides: Vec<Slide>, paywall: Option<i32>) -> SlideDeck {
    let mut i = input();
    i.slides = slides;
    i.paywall_start_slide_index = paywall;
    let mut d = new_deck(i, "alice".to_string(), Some("deck".to_string()), 5);
    d.id = Some("0123456789abcdef01234567".to_string());
    d
}

fn three_slides() -> Vec<Slide> {
    vec![
        slide("s1", Some(0), vec![element("e1", "text", Some("  Cover  "))]),
        slide("s2", Some(1), vec![element("e2", "image", Some("x")), element("e3", "paragraph", Some("Intro"))]),
        slide("s3", None, vec![element("e4", "text", Some("   "))]),
    ]
}

#[test]
fn slugs_are_lowercase_and_stable() {
    for title in ["  Hello, World!  ", "ÀBC déF 12", "KELVIN \u{212A}", "a--b", "İstanbul"] {
        let s = slugify(Some(title)).unwrap();
        assert!(s.chars().all(|c| c.is_ascii_lowercase() || c.is_ascii_digit() || c == '-'));
        assert_eq!(slugify(Some(&s)).as_deref(), Some(s.as_str()));
    }
    assert_eq!(slugify(Some("ÀÉÎ")), None);
    assert_eq!(slugify(Some("\u{212A}")).as_deref(), Some("k"));
}

#[test]
fn slugify_reduces_titles_to_words() {
    assert_eq!(slugify(Some("  Hello, World!  ")).as_deref(), Some("hello-world"));
    assert_eq!(slugify(Some("My_Deck -- 2")).as_deref(), Some("my-deck----2"));
    assert_eq!(slugify(Some("Ünïcode Tëst")).as_deref(), Some("n-code-t-st"));
    assert_eq!(slugify(Some("   ")), None);
    assert_eq!(slugify(Some("!!!")), None);
    assert_eq!(slugify(None), None);
}

#[test]
fn a_slug_is_its_own_slug() {
    let s = slugify(Some("A Fine Title: Part 2")).unwrap();
    assert_eq!(s, "a-fine-title-part-2");
    assert_eq!(slug_from_lower(&s).as_deref(), Some(s.as_str()));
    assert!(s.chars().all(|c| c.is_ascii_alphanumeric() || c == '-'));
}

#[test]
fn slug_candidates_count_from_two() {
    assert_eq!(slug_candidate("deck", 0), "deck");
    assert_eq!(slug_candidate("deck", 1), "deck");
    assert_eq!(slug_candidate("deck", 2), "deck-2");
    assert_eq!(slug_candidate("deck", 17), "deck-17");
}

#[test]
fn slug_step_uses_free_or_own_slugs() {
    assert_eq!(slug_step(None, None), SlugStep::Use);
    assert_eq!(slug_step(Some("a"), Some("a")), SlugStep::Use);
    assert_eq!(slug_step(Some("a"), Some("b")), SlugStep::TryNext);
    assert_eq!(slug_step(Some("a"), None), SlugStep::TryNext);
}

#[test]
fn editable_slug_prefers_the_incoming_slug() {
    assert_eq!(editable_slug_base(Some("Title"), Some("  Custom Slug ")).as_deref(), Some("custom-slug"));
    assert_eq!(editable_slug_base(Some("Title"), Some("  ")).as_deref(), Some("title"));
    assert_eq!(editable_slug_base(None, None), None);
    assert_eq!(published_slug_base(Some(" Old Slug "), Some("Name")), "old-slug");
    assert_eq!(published_slug_base(None, Some("Name Here")), "name-here");
    assert_eq!(published_slug_base(Some("??"), None), "book");
}

#[test]
fn object_ids_are_24_hex_digits() {
    assert!(looks_like_object_id("0123456789abcdefABCDEF01"));
    assert!(!looks_like_object_id("0123456789abcdefABCDEF0"));
    assert!(!looks_like_object_id("0123456789abcdefABCDEF0g"));
    assert!(!looks_like_object_id("my-slug"));
}

#[test]
fn publishing_needs_title_cover_and_description() {
    let mut i = input();
    assert!(validate_publish_fields(&i).is_ok());
    i.status = Some("Published".to_string());
    i.name = Some("  ".to_string());
    assert_eq!(validate_publish_fields(&i), Err(PublishError::TitleRequired));
    i.name = Some("T".to_string());
    assert_eq!(validate_publish_fields(&i), Err(PublishError::CoverRequired));
    i.cover_url = Some("c".to_string());
    assert_eq!(validate_publish_fields(&i), Err(PublishError::DescriptionRequired));
    i.description = Some("d".to_string());
    assert!(validate_publish_fields(&i).is_ok());
    assert_eq!(PublishError::CoverRequired.message(), "Cover wajib diisi sebelum publish");
    assert_eq!(PublishError::SlugLocked.message(), "URL slug tidak bisa diubah setelah publish");
}

#[test]
fn a_published_slug_cannot_change() {
    let mut d = deck(Vec::new(), None);
    d.status = "published".to_string();
    let mut i = input();
    i.cover_url = Some("c".to_string());
    i.description = Some("d".to_string());
    i.slug = Some(" DECK ".to_string());
    assert!(check_update(&d, &i).is_ok());
    i.slug = Some("other".to_string());
    assert_eq!(check_update(&d, &i), Err(PublishError::SlugLocked));
    d.status = "draft".to_string();
    assert!(check_update(&d, &i).is_ok());
}

#[test]
fn publishing_through_an_update_checks_the_stored_status() {
    let d = deck(Vec::new(), None);
    let mut i = input();
    i.description = Some("d".to_string());
    i.status = Some(" Published ".to_string());
    assert_eq!(check_update(&d, &i), Err(PublishError::CoverRequired));
    i.cover_url = Some("c".to_string());
    assert!(check_update(&d, &i).is_ok());
    let mut published = deck(Vec::new(), None);
    published.status = "published".to_string();
    let mut keep = input();
    keep.slug = Some("deck".to_string());
    assert_eq!(check_update(&published, &keep), Err(PublishError::CoverRequired));
    keep.status = Some("draft".to_string());
    assert!(check_update(&published, &keep).is_ok());
}

#[test]
fn creating_a_published_deck_checks_its_fields() {
    let mut i = input();
    i.status = Some("published".to_string());
    i.description = Some("d".to_string());
    let r = prepare_new_deck(i.clone(), "alice".to_string(), None, 7);
    assert_eq!(r.err(), Some(PublishError::CoverRequired));
    i.cover_url = Some("c".to_string());
    let d = prepare_new_deck(i, "alice".to_string(), Some("s".to_string()), 7).unwrap();
    assert_eq!(d.status, "published");
    assert_eq!(d.owner_id, "alice");
    assert_eq!(d.slug.as_deref(), Some("s"));
    assert_eq!((d.created_at, d.updated_at), (7, 7));
    let mut draft = input();
    draft.status = Some("  ".to_string());
    let d = prepare_new_deck(draft, "bob".to_string(), None, 1).unwrap();
    assert_eq!(d.status, "draft");
}

#[test]
fn new_decks_are_drafts_unless_told_otherwise() {
    assert_eq!(initial_status(None), "draft");
    assert_eq!(initial_status(Some(" ".to_string())), "draft");
    assert_eq!(initial_status(Some("published".to_string())), "published");
    let d = deck(Vec::new(), None);
    assert_eq!(d.owner_id, "alice");
    assert_eq!(d.status, "draft");
    assert_eq!(d.created_at, 5);
    assert!(is_published("PUBLISHED"));
    assert!(!is_published("draft"));
}

#[test]
fn update_replaces_content_and_keeps_identity() {
    let existing = deck(three_slides(), None);
    let mut i = input();
    i.name = Some("New".to_string());
    i.status = Some("Published".to_string());
    i.guided_audio_library = vec![
        GuidedAudioAsset { file_id: " ".to_string(), name: None },
        GuidedAudioAsset { file_id: "f1".to_string(), name: Some("n".to_string()) },
    ];
    let (d, needs_slug) = apply_update(existing, i, Some("new".to_string()));
    assert!(needs_slug);
    assert_eq!(d.status, "published");
    assert_eq!(d.name.as_deref(), Some("New"));
    assert_eq!(d.slug.as_deref(), Some("new"));
    assert_eq!(d.owner_id, "alice");
    assert_eq!(d.slides.len(), 0);
    assert_eq!(d.guided_audio_library.len(), 1);
    assert_eq!(d.guided_audio_library[0].file_id, "f1");
}

#[test]
fn preview_redacts_slides_from_the_paywall_on() {
    let p = paywall_preview(deck(three_slides(), Some(1)));
    assert_eq!(p.paywall_start_slide_index, Some(1));
    assert_eq!(p.slides.len(), 3);
    assert_eq!(p.slides[0].elements.len(), 1);
    assert_eq!(p.slides[0].rpp.as_deref(), Some("{}"));
    for s in &p.slides[1..] {
        assert!(s.elements.is_empty());
        assert_eq!(s.name, None);
        assert_eq!(s.progressive_reveal, None);
        assert_eq!(s.rpp, None);
        assert_eq!(s.background.as_deref(), Some("#fff"));
    }
    assert_eq!(p.slides[2].id, "s3");
}

#[test]
fn preview_past_the_end_is_whole() {
    for cut in [Some(3), Some(9)] {
        let p = paywall_preview(deck(three_slides(), cut));
        assert_eq!(p.paywall_start_slide_index, None);
        assert_eq!(p.slides.len(), 3);
        assert!(p.slides.iter().all(|s| !s.elements.is_empty()));
    }
}

#[test]
fn preview_without_a_positive_cut_is_locked_from_the_start() {
    for cut in [None, Some(0), Some(-3)] {
        let p = paywall_preview(deck(three_slides(), cut));
        assert_eq!(p.paywall_start_slide_index, Some(0));
        assert_eq!(p.slides.len(), 3);
        assert!(p.slides.iter().all(|s| s.elements.is_empty() && s.name.is_none()));
    }
    let empty = paywall_preview(deck(Vec::new(), None));
    assert_eq!(empty.paywall_start_slide_index, None);
    assert!(empty.slides.is_empty());
}

#[test]
fn readers_with_access_get_everything() {
    let r = deck_for_reader(deck(three_slides(), Some(1)), true);
    assert_eq!(r.paywall_start_slide_index, None);
    assert_eq!(r.slides[2].elements.len(), 1);
    let r = deck_for_reader(deck(three_slides(), Some(1)), false);
    assert!(r.slides[2].elements.is_empty());
}

#[test]
fn slide_titles_come_from_text_elements() {
    let slides = three_slides();
    assert_eq!(extract_slide_title(&slides[0], 0), "Cover");
    assert_eq!(extract_slide_title(&slides[1], 1), "Intro");
    assert_eq!(extract_slide_title(&slides[2], 2), "Book 3");
}

#[test]
fn curriculum_locks_slides_behind_the_paywall() {
    let slides = three_slides();
    let c = build_curriculum(&slides, Some(1), false);
    assert_eq!(c.len(), 3);
    assert_eq!((c[0].index, c[0].title.as_str(), c[0].level, c[0].locked), (0, "Cover", 0, false));
    assert_eq!((c[1].index, c[1].title.as_str(), c[1].level, c[1].locked), (1, "Book 2", 1, true));
    assert!(c[2].locked);
    let open = build_curriculum(&slides, Some(1), true);
    assert_eq!(open[1].title, "Intro");
    assert!(!open[1].locked);
}

#[test]
fn public_detail_reports_the_effective_paywall() {
    let p = to_public_detail(deck(three_slides(), Some(2)), false);
    assert_eq!(p.id, "0123456789abcdef01234567");
    assert_eq!(p.slide_count, 3);
    assert_eq!(p.paywall_start_slide_index, Some(2));
    assert!(!p.has_access);
    assert_eq!(p.curriculum[2].title, "Book 3");
    let p = to_public_detail(deck(three_slides(), Some(7)), false);
    assert_eq!(p.paywall_start_slide_index, None);
    assert!(p.curriculum.iter().all(|c| !c.locked));
}

#[test]
fn access_is_open_while_the_paywall_is_off() {
    let d = deck(Vec::new(), None);
    assert!(!PAYWALL_ACTIVE);
    assert_eq!(access_step(PAYWALL_ACTIVE, &d, None, &Vec::new()), AccessAction::Grant);
    assert_eq!(access_step(PAYWALL_ACTIVE, &d, Some("eve"), &Vec::new()), AccessAction::Grant);
}

#[test]
fn access_chain_with_the_paywall_on() {
    let mut d = deck(Vec::new(), None);
    assert_eq!(access_step(true, &d, None, &Vec::new()), AccessAction::Deny);
    assert_eq!(access_step(true, &d, Some("alice"), &Vec::new()), AccessAction::Grant);
    assert_eq!(access_step(true, &d, Some("eve"), &vec![]), AccessAction::AskPlatformOwner);
    assert_eq!(access_step(true, &d, Some("eve"), &vec![true]), AccessAction::Grant);
    assert_eq!(access_step(true, &d, Some("eve"), &vec![false]), AccessAction::AskPayment);
    assert_eq!(access_step(true, &d, Some("eve"), &vec![false, true]), AccessAction::Grant);
    assert_eq!(access_step(true, &d, Some("eve"), &vec![false, false]), AccessAction::Deny);
    d.event_id = Some("ev".to_string());
    assert_eq!(access_step(true, &d, Some("eve"), &vec![false, false]), AccessAction::AskRegistration);
    assert_eq!(access_step(true, &d, Some("eve"), &vec![false, false, true]), AccessAction::Grant);
    assert_eq!(access_step(true, &d, Some("eve"), &vec![false, false, false]), AccessAction::Deny);
}

#[test]
fn only_owners_or_platform_owners_list_an_owners_decks() {
    let d = deck(Vec::new(), None);
    assert!(is_deck_owner(&d, "alice"));
    assert!(!is_deck_owner(&d, "eve"));
    assert!(may_list_owner_decks("alice", "alice", false));
    assert!(!may_list_owner_decks("alice", "eve", false));
    assert!(may_list_owner_decks("alice", "eve", true));
}
