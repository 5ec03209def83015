use ecobook::deck_doc::{
    assemble_document, default_display_font, default_mono_font, default_theme, empty_meta,
    serialize_deck, split_frontmatter, style_json, yaml_quote, DeckMeta, DeckTheme,
};
use ecobook::markdown::{fence_tick, is_fence, parse_markdown, BlockKind, MarkdownError};
use ecobook::models::slide_deck::{Coord, Element, SlideDeck, SlideDeckInput};

const SAMPLE: &str = r##"---
deck:
  name: "Test Deck"
  slug: test-deck
  subtitle: "A subtitle"
  tags: [one, two]
theme:
  base: light
  bg: "#ffffff"
  ink: "#111111"
  accent: "#5b3fd6"
  surface: "#efecf8"
  fontDisplay: "Manrope, ui-sans-serif, system-ui, sans-serif"
  fontMono: "DM Mono, ui-monospace, monospace"
---

# First slide title

This is the body paragraph.

> A callout quote.

```text
println!("hi");
```

## A subheading

A second paragraph.

---

# Second slide

Some content.
"##;

fn yaml_text(v: &serde_yaml::Value, key: &str) -> Option<String> {
    v.get(key).and_then(|x| x.as_str()).map(|s| s.to_string())
}

fn yaml_list(v: &serde_yaml::Value, key: &str) -> Vec<String> {
    match v.get(key).and_then(|x| x.as_sequence()) {
        Some(items) => items.iter().filter_map(|x| x.as_str()).map(|s| s.to_string()).collect(),
        None => Vec::new(),
    }
}

/// Reads the frontmatter the way the service does: the `deck:` block into
/// metadata, the `theme:` block (when present) into theme tokens.
fn frontmatter(yaml: Option<&str>) -> Result<(DeckMeta, DeckTheme), String> {
    let yaml = match yaml {
        Some(y) => y,
        None => return Ok((empty_meta(), default_theme())),
    };
    let doc: serde_yaml::Value = serde_yaml::from_str(yaml).map_err(|e| e.to_string())?;
    let mut meta = empty_meta();
    if let Some(deck) = doc.get("deck") {
        meta.name = yaml_text(deck, "name");
        meta.slug = yaml_text(deck, "slug");
        meta.subtitle = yaml_text(deck, "subtitle");
        meta.description = yaml_text(deck, "description");
        meta.level = yaml_text(deck, "level");
        meta.language = yaml_text(deck, "language");
        meta.instructor_name = yaml_text(deck, "instructorName");
        meta.status = yaml_text(deck, "status");
        meta.tags = yaml_list(deck, "tags");
        meta.cover_url = yaml_text(deck, "coverUrl");
        meta.long_summary = yaml_text(deck, "longSummary");
        meta.learning_objectives = yaml_list(deck, "learningObjectives");
        meta.requirements = yaml_list(deck, "requirements");
        meta.target_audience = yaml_list(deck, "targetAudience");
        meta.estimated_duration_minutes =
            deck.get("estimatedDurationMinutes").and_then(|x| x.as_i64()).map(|n| n as i32);
    }
    let theme = match doc.get("theme") {
        Some(t) => DeckTheme {
            base: yaml_text(t, "base").unwrap_or_default(),
            bg: yaml_text(t, "bg").unwrap_or_default(),
            ink: yaml_text(t, "ink").unwrap_or_default(),
            accent: yaml_text(t, "accent").unwrap_or_default(),
            surface: yaml_text(t, "surface").unwrap_or_default(),
            font_display: yaml_text(t, "fontDisplay").unwrap_or_else(default_display_font),
            font_mono: yaml_text(t, "fontMono").unwrap_or_else(default_mono_font),
        },
        None => default_theme(),
    };
    Ok((meta, theme))
}

fn parse_document(text: &str) -> Result<SlideDeckInput, String> {
    let (yaml, body) = split_frontmatter(text);
    let (meta, theme) = frontmatter(yaml.as_deref())?;
    assemble_document(meta, theme, &body).map_err(|e| e.message())
}

fn coord(c: &Coord) -> f64 {
    match c {
        Coord::Hundredths(h) => *h as f64 / 100.0,
        Coord::Float(bits) => f64::from_bits(*bits),
    }
}

fn theme_from_json(text: &str) -> Option<DeckTheme> {
    let v: serde_json::Value = serde_json::from_str(text).ok()?;
    let field = |k: &str| v.get(k).and_then(|x| x.as_str()).map(|s| s.to_string());
    Some(DeckTheme {
        base: field("base")?,
        bg: field("bg")?,
        ink: field("ink")?,
        accent: field("accent")?,
        surface: field("surface")?,
        font_display: field("fontDisplay").unwrap_or_else(default_display_font),
        font_mono: field("fontMono").unwrap_or_else(default_mono_font),
    })
}

fn deck_from_input(input: &SlideDeckInput) -> SlideDeck {
    SlideDeck {
        id: None,
        name: input.name.clone(),
        slug: input.slug.clone(),
        subtitle: input.subtitle.clone(),
        cover_url: input.cover_url.clone(),
        description: input.description.clone(),
        long_summary: input.long_summary.clone(),
        learning_objectives: input.learning_objectives.clone(),
        requirements: input.requirements.clone(),
        target_audience: input.target_audience.clone(),
        tags: input.tags.clone(),
        level: input.level.clone(),
        language: input.language.clone(),
        instructor_name: input.instructor_name.clone(),
        estimated_duration_minutes: input.estimated_duration_minutes,
        status: input.status.clone().unwrap_or_else(|| "draft".to_string()),
        owner_id: "owner".to_string(),
        community_id: None,
        event_id: None,
        theme: input.theme.clone(),
        transition: None,
        layout_format: Some("presentation".to_string()),
        price: None,
        compare_at_price: None,
        paywall_start_slide_index: None,
        slides: input.slides.clone(),
        flow: None,
        gallery_images: Vec::new(),
        guided_audio_library: Vec::new(),
        created_at: 0,
        updated_at: 0,
    }
}

#[test]
fn parses_frontmatter_and_slides() {
    let input = parse_document(SAMPLE).unwrap();
    assert_eq!(input.name.as_deref(), Some("Test Deck"));
    assert_eq!(input.slug.as_deref(), Some("test-deck"));
    assert_eq!(input.tags, vec!["one".to_string(), "two".to_string()]);
    // cover + 2 content slides
    assert_eq!(input.slides.len(), 3);
    assert_eq!(input.slides[0].level, Some(0));
    assert_eq!(input.slides[1].level, Some(1));
    assert_eq!(input.slides[2].level, Some(1));
}

#[test]
fn layout_does_not_overlap_elements() {
    let input = parse_document(SAMPLE).unwrap();
    for (i, slide) in input.slides.iter().enumerate() {
        let mut prev_bottom: Option<f64> = None;
        let mut els: Vec<&Element> = slide.elements.iter().collect();
        els.sort_by(|a, b| coord(&a.y).total_cmp(&coord(&b.y)));
        for el in els {
            if let Some(prev) = prev_bottom {
                assert!(
                    coord(&el.y) >= prev - 0.01,
                    "slide {i}: element '{}' at y={} overlaps previous bottom {prev}",
                    el.content.clone().unwrap_or_default(),
                    coord(&el.y)
                );
            }
            let h = coord(&el.height).max(0.0);
            prev_bottom = Some(coord(&el.y) + h);
        }
    }
}

#[test]
fn round_trips_through_serialize() {
    let input = parse_document(SAMPLE).unwrap();
    let deck = deck_from_input(&input);
    let theme = deck.theme.as_deref().and_then(theme_from_json).unwrap_or_else(default_theme);
    let doc = serialize_deck(&deck, &theme);
    // reparse the exported document and verify the shape survives
    let reparsed = parse_document(&doc).unwrap();
    assert_eq!(reparsed.name, input.name);
    assert_eq!(reparsed.slides.len(), input.slides.len());
    // cover titles match
    assert_eq!(reparsed.slides[0].elements[0].content, input.slides[0].elements[0].content);
}

#[test]
fn empty_document_errors() {
    assert!(parse_document("no headings here\njust text").is_err());
}

#[test]
fn content_before_heading_is_refused() {
    let r = parse_markdown("intro line\n\n# Title\n");
    assert!(matches!(r, Err(MarkdownError::ContentBeforeHeading)));
    assert_eq!(
        MarkdownError::ContentBeforeHeading.message(),
        "Content appears before any `#` slide heading — every slide must start with an H1"
    );
}

#[test]
fn no_heading_is_refused() {
    assert!(matches!(parse_markdown(""), Err(MarkdownError::NoSlides)));
    assert!(matches!(parse_markdown("\n\n---\n"), Err(MarkdownError::NoSlides)));
    assert_eq!(
        MarkdownError::NoSlides.message(),
        "No slides found in document: add at least one `#` heading"
    );
}

#[test]
fn hash_line_that_is_no_heading_stalls() {
    assert!(matches!(parse_markdown("# A\n#tag\n"), Err(MarkdownError::Stalled)));
    assert!(matches!(parse_markdown("#### deep\n"), Err(MarkdownError::ContentBeforeHeading)));
}

#[test]
fn markdown_blocks_map_to_kinds() {
    let body = "# One\n## Sub\n### Sub3\ntext a\ntext b\n\n> > quoted \n- x\n* y\n  more\n~~~\ncode\n~~~\n***\n# Two\n";
    let slides = parse_markdown(body).unwrap();
    assert_eq!(slides.len(), 2);
    let s = &slides[0];
    assert_eq!(s.name, "One");
    assert_eq!(s.level, 1);
    let kinds: Vec<BlockKind> = s.blocks.iter().map(|b| b.kind).collect();
    assert_eq!(
        kinds,
        vec![
            BlockKind::Title,
            BlockKind::Subtitle,
            BlockKind::Subtitle,
            BlockKind::Para,
            BlockKind::Callout,
            BlockKind::Para,
            BlockKind::Code
        ]
    );
    assert_eq!(s.blocks[3].text, "text a text b");
    assert_eq!(s.blocks[4].text, "quoted");
    assert_eq!(s.blocks[5].text, "• x\n• y\nmore");
    assert_eq!(s.blocks[6].text, "code");
    assert_eq!(slides[1].blocks.len(), 1);
}

#[test]
fn fences_are_recognised() {
    assert!(is_fence("  ```rust"));
    assert!(is_fence("~~~"));
    assert!(!is_fence("``"));
    assert_eq!(fence_tick(" ```"), "```");
    assert_eq!(fence_tick("~~~x"), "~~~");
}

#[test]
fn frontmatter_is_split_off() {
    let (yaml, body) = split_frontmatter("\u{feff}---\na: 1\n---\n# T\n");
    assert_eq!(yaml.as_deref(), Some("a: 1"));
    assert_eq!(body, "# T\n");
    let (yaml, body) = split_frontmatter("---\na: 1\n---  \n");
    assert_eq!(yaml.as_deref(), Some("a: 1"));
    assert_eq!(body, "");
    let (yaml, body) = split_frontmatter("---\nno end\n# T");
    assert_eq!(yaml, None);
    assert_eq!(body, "---\nno end\n# T");
}

#[test]
fn splitting_off_frontmatter_loses_nothing() {
    for (text, open, close) in [
        ("---\r\na: 1\r\n---\r\n# T\r\n", "---\r\n", "\n---\r\n"),
        ("\u{feff}---\nk: v\n---\nbody\n---\nmore", "---\n", "\n---\n"),
        ("---\nk: v\n---  \n", "---\n", "\n---  \n"),
    ] {
        let (yaml, body) = split_frontmatter(text);
        let yaml = yaml.unwrap();
        assert!(!yaml.contains("\n---\n") && !yaml.contains("\n---\r\n"));
        assert_eq!(format!("{open}{yaml}{close}{body}"), text.trim_start_matches('\u{feff}'));
    }
}

#[test]
fn frontmatter_closed_by_a_crlf_line_is_split_off() {
    let (yaml, body) = split_frontmatter("---\r\na: 1\r\n---\r\n# T\r\n");
    assert_eq!(yaml.as_deref(), Some("a: 1\r"));
    assert_eq!(body, "# T\r\n");
    let (yaml, body) = split_frontmatter("---\na: 1\n---\r\nb\n---\nc");
    assert_eq!(yaml.as_deref(), Some("a: 1"));
    assert_eq!(body, "b\n---\nc");
    let (yaml, body) = split_frontmatter("---\na: 1\n---\nb\n---\r\nc");
    assert_eq!(yaml.as_deref(), Some("a: 1"));
    assert_eq!(body, "b\n---\r\nc");
}

#[test]
fn cover_slide_comes_from_frontmatter() {
    let input = parse_document(SAMPLE).unwrap();
    let cover = &input.slides[0];
    assert_eq!(cover.id, "s1");
    assert_eq!(cover.name.as_deref(), Some("title"));
    assert_eq!(cover.elements.len(), 2);
    assert_eq!(cover.elements[0].content.as_deref(), Some("Test Deck"));
    assert_eq!(cover.elements[1].content.as_deref(), Some("A subtitle"));
    assert_eq!(cover.background.as_deref(), Some("#ffffff"));
    assert_eq!(input.slides[1].id, "s2");
    assert_eq!(input.slides[2].id, "s3");
    assert_eq!(input.layout_format.as_deref(), Some("presentation"));
    let theme = theme_from_json(input.theme.as_deref().unwrap()).unwrap();
    assert_eq!(theme.surface, "#efecf8");
    assert_eq!(theme.base, "light");
}

#[test]
fn untitled_document_gets_default_cover() {
    let input = parse_document("# Only\n").unwrap();
    assert_eq!(input.name.as_deref(), Some("Untitled deck"));
    assert_eq!(input.slides.len(), 2);
    assert_eq!(input.slides[0].elements.len(), 1);
    assert_eq!(input.slides[0].background.as_deref(), Some("#f7f6f2"));
}

#[test]
fn element_ids_count_up_across_slides() {
    let input = parse_document(SAMPLE).unwrap();
    let ids: Vec<String> = input.slides.iter().flat_map(|s| s.elements.iter().map(|e| e.id.clone())).collect();
    let expected: Vec<String> = (1..=ids.len()).map(|n| format!("el{n}")).collect();
    assert_eq!(ids, expected);
}

#[test]
fn layout_positions_follow_the_stacking_rules() {
    let input = parse_document("# T\n\npara\n\n> call\n").unwrap();
    let els = &input.slides[1].elements;
    assert_eq!(coord(&els[0].y), 70.0);
    assert_eq!(coord(&els[0].x), 110.0);
    // title: one line of 72px at 1.15 line height, plus headroom: 1.2 * 82.8
    assert!((coord(&els[0].height) - 99.36).abs() < 0.01);
    assert!((coord(&els[1].y) - (70.0 + 99.36 + 26.0)).abs() < 0.01);
    assert_eq!(coord(&els[2].x), 130.0);
    assert_eq!(coord(&els[2].width), 1680.0);
    assert_eq!(els[2].element_type.as_deref(), Some("callout"));
}

#[test]
fn style_json_formats() {
    let t = default_theme();
    assert_eq!(
        style_json(BlockKind::Para, &t, false),
        "{\"fontSize\":34,\"color\":\"#17141d\",\"fontWeight\":400,\"lineHeight\":51,\"displayEffect\":\"fade\"}"
    );
    assert_eq!(
        style_json(BlockKind::Title, &t, true),
        "{\"fontSize\":72,\"color\":\"#5b3fd6\",\"fontWeight\":800,\"fontFamily\":\"Manrope, ui-sans-serif, system-ui, sans-serif\",\"displayEffect\":\"fade-down\"}"
    );
}

#[test]
fn export_writes_frontmatter_and_body() {
    let input = parse_document(SAMPLE).unwrap();
    let deck = deck_from_input(&input);
    let doc = serialize_deck(&deck, &default_theme());
    assert!(doc.starts_with("---\ndeck:\n  name: \"Test Deck\"\n  slug: \"test-deck\"\n"));
    assert!(doc.contains("  tags: [\"one\", \"two\"]\n  status: \"draft\"\ntheme:\n  base: light\n"));
    assert!(doc.contains("# First slide title\n\nThis is the body paragraph.\n\n> A callout quote.\n\n```\nprintln!(\"hi\");\n```\n\n"));
    assert!(doc.contains("# Second slide\n\nSome content.\n\n"));
}

#[test]
fn export_keeps_every_metadata_field_for_the_import() {
    let mut deck = deck_from_input(&parse_document("# Only\n\nText.\n").unwrap());
    deck.name = Some("Bell\u{7} \"quoted\" \\ tab\t".to_string());
    deck.cover_url = Some("https://cdn/x.png".to_string());
    deck.long_summary = Some("Long\nsummary".to_string());
    deck.learning_objectives = vec!["learn: a".to_string(), "b".to_string()];
    deck.requirements = vec!["none".to_string()];
    deck.target_audience = vec!["everyone".to_string()];
    deck.estimated_duration_minutes = Some(-12);
    deck.tags = vec!["t".to_string()];
    let mut theme = default_theme();
    theme.font_display = "Serif Display".to_string();
    theme.font_mono = "Mono, monospace".to_string();
    let doc = serialize_deck(&deck, &theme);
    assert!(doc.contains("  name: \"Bell\\u0007 \\\"quoted\\\" \\\\ tab\\t\"\n"));
    assert!(doc.contains("  estimatedDurationMinutes: -12\n"));
    assert!(doc.contains("  fontDisplay: \"Serif Display\"\n  fontMono: \"Mono, monospace\"\n---\n\n"));
    let (yaml, _) = split_frontmatter(&doc);
    let (meta, read_theme) = frontmatter(yaml.as_deref()).unwrap();
    assert_eq!(meta.name, deck.name);
    assert_eq!(meta.cover_url, deck.cover_url);
    assert_eq!(meta.long_summary, deck.long_summary);
    assert_eq!(meta.learning_objectives, deck.learning_objectives);
    assert_eq!(meta.requirements, deck.requirements);
    assert_eq!(meta.target_audience, deck.target_audience);
    assert_eq!(meta.estimated_duration_minutes, Some(-12));
    assert_eq!(meta.tags, deck.tags);
    assert_eq!(meta.status.as_deref(), Some(deck.status.as_str()));
    assert_eq!(
        (read_theme.base, read_theme.bg, read_theme.font_display, read_theme.font_mono),
        (theme.base, theme.bg, theme.font_display, theme.font_mono)
    );
}

#[test]
fn yaml_quoting_escapes_what_the_reader_refuses() {
    assert_eq!(yaml_quote("plain"), "\"plain\"");
    assert_eq!(yaml_quote("a\"b\\c\n\t"), "\"a\\\"b\\\\c\\n\\t\"");
    assert_eq!(yaml_quote("\u{7}\u{7f}\u{85}\u{9f}\u{fffe}\u{ffff}"), "\"\\u0007\\u007f\\u0085\\u009f\\ufffe\\uffff\"");
    assert_eq!(yaml_quote("é\u{a0}\u{1F600}"), "\"é\u{a0}\u{1F600}\"");
}

#[test]
fn names_with_any_character_read_back_after_export() {
    let mut deck = deck_from_input(&parse_document("# Only\n\nText.\n").unwrap());
    let name = "del\u{7f} nel\u{85} c1\u{9f} nc\u{fffe}\u{ffff} bom\u{feff} bell\u{7}";
    deck.name = Some(name.to_string());
    deck.learning_objectives = vec!["x\u{80}y".to_string()];
    deck.cover_url = Some("\u{9b}[31m".to_string());
    let doc = serialize_deck(&deck, &default_theme());
    let (yaml, _) = split_frontmatter(&doc);
    let (meta, theme) = frontmatter(yaml.as_deref()).unwrap();
    assert_eq!(meta.name.as_deref(), Some(name));
    assert_eq!(meta.learning_objectives, deck.learning_objectives);
    assert_eq!(meta.cover_url, deck.cover_url);
    assert_eq!(theme.base, default_theme().base);
}

#[test]
fn cover_slides_add_nothing_to_an_export() {
    let deck = deck_from_input(&parse_document(SAMPLE).unwrap());
    assert_eq!(deck.slides[0].level, Some(0));
    let mut without = deck.clone();
    without.slides.retain(|s| s.level != Some(0));
    assert!(without.slides.len() < deck.slides.len());
    let t = default_theme();
    assert_eq!(serialize_deck(&deck, &t), serialize_deck(&without, &t));
}

#[test]
fn export_reads_back_under_a_monospace_display_font() {
    let doc = "---\ndeck:\n  name: \"Mono\"\ntheme:\n  base: light\n  bg: \"#fff\"\n  ink: \"#111\"\n  accent: \"#5b3fd6\"\n  surface: \"#eee\"\n  fontDisplay: \"DM Mono, monospace\"\n---\n# One\n\n## Sub title\n\nPara\n\n# Two\n\n## Another\n";
    let input = parse_document(doc).unwrap();
    let deck = deck_from_input(&input);
    let exported = serialize_deck(&deck, &default_theme());
    let (_, body) = split_frontmatter(&exported);
    assert!(body.contains("```\nSub title\n```\n\n"));
    let again = parse_markdown(&body).unwrap();
    assert_eq!(again.len(), 2);
    assert_eq!(again[0].name, "One");
    assert_eq!(again[1].name, "Two");
}

#[test]
fn export_reads_back_with_every_block_kind() {
    let doc = "---\ndeck:\n  name: \"Kinds\"\n---\n# One\n\n## Sub\n\nPara line\nnext line\n\n- a\n- b\n\n> quote\n\n```\ncode # not a heading\n```\n\n# Two\n\nEnd.\n";
    let input = parse_document(doc).unwrap();
    assert_eq!(input.slides.len(), 3);
    let deck = deck_from_input(&input);
    let exported = serialize_deck(&deck, &default_theme());
    let (_, body) = split_frontmatter(&exported);
    let again = parse_markdown(&body).unwrap();
    assert_eq!(again.len(), 2);
    assert_eq!(again[0].name, "One");
    assert_eq!(again[1].name, "Two");
    let reparsed = parse_document(&exported).unwrap();
    assert_eq!(reparsed.slides.len(), input.slides.len());
    assert_eq!(reparsed.name.as_deref(), Some("Kinds"));
}

#[test]
fn a_rule_like_subtitle_does_not_read_back() {
    // "## ---" is a sub-title whose export is a rule line, which closes the
    // slide when read again; the export law leaves such blocks out.
    let input = parse_document("# One\n\n## ---\n\ntext\n").unwrap();
    let deck = deck_from_input(&input);
    let exported = serialize_deck(&deck, &default_theme());
    let (_, body) = split_frontmatter(&exported);
    assert!(matches!(parse_markdown(&body), Err(MarkdownError::ContentBeforeHeading)));
}
