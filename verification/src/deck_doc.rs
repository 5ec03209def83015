//! The portable deck-document format: a markdown file with a YAML
//! frontmatter block (deck metadata and theme tokens) followed by the
//! slide body. Import lays the body out on the 1920x1080 canvas; export
//! writes a stored deck back in the same format.
use vstd::prelude::*;
use crate::text::{starts_with, strip_all_start, is_blank, decimal, join};
use crate::outside::{hex_digit, json_string_text};
use crate::markdown::{BlockKind, BlockView, Block, ParsedSlide, SlideView};
use crate::models::slide_deck::{Coord, Element, Slide, SlideDeck, SlideDeckInput};
use crate::text::opt_text;

verus! {

// ---------------------------------------------------------------------------
// Theme and metadata
// ---------------------------------------------------------------------------

/// Theme tokens carried by a deck document.
#[derive(Clone, Debug)]
pub struct DeckTheme {
    pub base: String,
    pub bg: String,
    pub ink: String,
    pub accent: String,
    pub surface: String,
    pub font_display: String,
    pub font_mono: String,
}

/// The abstract value of a theme.
pub struct ThemeView {
    pub base: Seq<char>,
    pub bg: Seq<char>,
    pub ink: Seq<char>,
    pub accent: Seq<char>,
    pub surface: Seq<char>,
    pub font_display: Seq<char>,
    pub font_mono: Seq<char>,
}

impl View for DeckTheme {
    type V = ThemeView;

    open spec fn view(&self) -> ThemeView {
        ThemeView {
            base: self.base@,
            bg: self.bg@,
            ink: self.ink@,
            accent: self.accent@,
            surface: self.surface@,
            font_display: self.font_display@,
            font_mono: self.font_mono@,
        }
    }
}

/// Deck metadata from the frontmatter `deck:` block; anything the author
/// leaves out is absent.
#[derive(Clone, Debug)]
pub struct DeckMeta {
    pub name: Option<String>,
    pub slug: Option<String>,
    pub subtitle: Option<String>,
    pub description: Option<String>,
    pub long_summary: Option<String>,
    pub learning_objectives: Vec<String>,
    pub requirements: Vec<String>,
    pub target_audience: Vec<String>,
    pub tags: Vec<String>,
    pub level: Option<String>,
    pub language: Option<String>,
    pub instructor_name: Option<String>,
    pub estimated_duration_minutes: Option<i32>,
    pub status: Option<String>,
    pub cover_url: Option<String>,
}

/// Metadata with every field absent.
pub fn empty_meta() -> (m: DeckMeta)
    ensures
        m.name is None && m.slug is None && m.subtitle is None && m.description is None,
        m.long_summary is None && m.level is None && m.language is None,
        m.instructor_name is None && m.estimated_duration_minutes is None,
        m.status is None && m.cover_url is None,
        m.learning_objectives@.len() == 0 && m.requirements@.len() == 0,
        m.target_audience@.len() == 0 && m.tags@.len() == 0,
{
    DeckMeta {
        name: None,
        slug: None,
        subtitle: None,
        description: None,
        long_summary: None,
        learning_objectives: Vec::new(),
        requirements: Vec::new(),
        target_audience: Vec::new(),
        tags: Vec::new(),
        level: None,
        language: None,
        instructor_name: None,
        estimated_duration_minutes: None,
        status: None,
        cover_url: None,
    }
}

/// The display font used when a theme names none.
pub fn default_display_font() -> (s: String)
    ensures
        s@ == "Manrope, ui-sans-serif, system-ui, sans-serif"@,
{
    crate::text::owned("Manrope, ui-sans-serif, system-ui, sans-serif")
}

/// The monospace font used when a theme names none.
pub fn default_mono_font() -> (s: String)
    ensures
        s@ == "DM Mono, ui-monospace, monospace"@,
{
    crate::text::owned("DM Mono, ui-monospace, monospace")
}

/// The default design tokens (deep-violet anchor, Manrope/DM Mono).
pub open spec fn default_theme_view() -> ThemeView {
    ThemeView {
        base: "light"@,
        bg: "#f7f6f2"@,
        ink: "#17141d"@,
        accent: "#5b3fd6"@,
        surface: "#ffffff"@,
        font_display: "Manrope, ui-sans-serif, system-ui, sans-serif"@,
        font_mono: "DM Mono, ui-monospace, monospace"@,
    }
}

/// The default design tokens, used when a document has no `theme:` block.
pub fn default_theme() -> (t: DeckTheme)
    ensures
        t@ == default_theme_view(),
{
    DeckTheme {
        base: crate::text::owned("light"),
        bg: crate::text::owned("#f7f6f2"),
        ink: crate::text::owned("#17141d"),
        accent: crate::text::owned("#5b3fd6"),
        surface: crate::text::owned("#ffffff"),
        font_display: default_display_font(),
        font_mono: default_mono_font(),
    }
}

/// The theme a document or stored deck uses: the given one, else the
/// default tokens.
pub fn theme_or_default(theme: Option<DeckTheme>) -> (t: DeckTheme)
    ensures
        t@ == match theme {
            Some(x) => x@,
            None => default_theme_view(),
        },
{
    match theme {
        Some(x) => x,
        None => default_theme(),
    }
}

/// The compact JSON object text of a theme, with its keys in declaration
/// order and camel-case names.
pub open spec fn theme_json_text(t: ThemeView) -> Seq<char> {
    "{\"base\":"@ + json_string_text(t.base) + ",\"bg\":"@ + json_string_text(t.bg) + ",\"ink\":"@
        + json_string_text(t.ink) + ",\"accent\":"@ + json_string_text(t.accent)
        + ",\"surface\":"@ + json_string_text(t.surface) + ",\"fontDisplay\":"@
        + json_string_text(t.font_display) + ",\"fontMono\":"@ + json_string_text(t.font_mono)
        + "}"@
}

/// Writes a theme as the JSON text the reader applies as its palette.
pub fn theme_json(t: &DeckTheme) -> (s: String)
    ensures
        s@ == theme_json_text(t@),
{
    let mut s = String::new();
    crate::text::push_str(&mut s, "{\"base\":");
    crate::text::push_str(&mut s, crate::outside::json_quote(t.base.as_str()).as_str());
    crate::text::push_str(&mut s, ",\"bg\":");
    crate::text::push_str(&mut s, crate::outside::json_quote(t.bg.as_str()).as_str());
    crate::text::push_str(&mut s, ",\"ink\":");
    crate::text::push_str(&mut s, crate::outside::json_quote(t.ink.as_str()).as_str());
    crate::text::push_str(&mut s, ",\"accent\":");
    crate::text::push_str(&mut s, crate::outside::json_quote(t.accent.as_str()).as_str());
    crate::text::push_str(&mut s, ",\"surface\":");
    crate::text::push_str(&mut s, crate::outside::json_quote(t.surface.as_str()).as_str());
    crate::text::push_str(&mut s, ",\"fontDisplay\":");
    crate::text::push_str(&mut s, crate::outside::json_quote(t.font_display.as_str()).as_str());
    crate::text::push_str(&mut s, ",\"fontMono\":");
    crate::text::push_str(&mut s, crate::outside::json_quote(t.font_mono.as_str()).as_str());
    crate::text::push_str(&mut s, "}");
    assert(s@ =~= theme_json_text(t@));
    s
}

// ---------------------------------------------------------------------------
// Frontmatter framing
// ---------------------------------------------------------------------------

/// First position at or after `i` where `p` occurs in `s`.
pub open spec fn find_from(s: Seq<char>, p: Seq<char>, i: int) -> Option<int>
    decreases s.len() + 1 - i,
{
    if i < 0 || i + p.len() > s.len() {
        None
    } else if s.subrange(i, i + p.len()) == p {
        Some(i)
    } else {
        find_from(s, p, i + 1)
    }
}

/// The byte-order mark a document may start with.
pub open spec fn bom() -> char {
    '\u{feff}'
}

/// The document after its opening `---` line, if it has one.
pub open spec fn after_open(text: Seq<char>) -> Option<Seq<char>> {
    let t = strip_all_start(text, bom());
    if starts_with(t, "---\n"@) {
        Some(t.skip(4))
    } else if starts_with(t, "---\r\n"@) {
        Some(t.skip(5))
    } else {
        None
    }
}

/// How a document splits into frontmatter text and markdown body: a
/// leading `---` block closed by a `---` line (ended by `\n` or `\r\n`,
/// whichever closer comes first) yields `(Some(yaml), body)`; so does one
/// closed by a final `---` with only blank text after it; otherwise the
/// whole document is body.
pub open spec fn frontmatter_split(text: Seq<char>) -> (Option<Seq<char>>, Seq<char>) {
    match after_open(text) {
        None => (None, text),
        Some(after) => {
            let lf = find_from(after, "\n---\n"@, 0);
            let crlf = find_from(after, "\n---\r\n"@, 0);
            match (lf, crlf) {
                (Some(a), Some(b)) => if a <= b {
                    (Some(after.take(a)), after.skip(a + 5))
                } else {
                    (Some(after.take(b)), after.skip(b + 6))
                },
                (Some(a), None) => (Some(after.take(a)), after.skip(a + 5)),
                (None, Some(b)) => (Some(after.take(b)), after.skip(b + 6)),
                (None, None) => match find_from(after, "\n---"@, 0) {
                    Some(end) => if is_blank(after.skip(end + 4)) {
                        (Some(after.take(end)), Seq::empty())
                    } else {
                        (None, text)
                    },
                    None => (None, text),
                },
            }
        },
    }
}

/// Scanning characterisation of `find_from`.
proof fn lemma_find_from(s: Seq<char>, p: Seq<char>, i: int, j: int)
    requires
        0 <= i <= j,
        forall|k: int| i <= k < j ==> #[trigger] s.subrange(k, k + p.len()) != p,
        j + p.len() <= s.len() + 1,
    ensures
        find_from(s, p, i) == find_from(s, p, j),
    decreases j - i,
{
    if i < j {
        lemma_find_from(s, p, i + 1, j);
    }
}

/// What `find_from` finds: an occurrence, with none before it; or no
/// occurrence at all from `i` on.
proof fn lemma_find_from_spec(s: Seq<char>, p: Seq<char>, i: int)
    requires
        0 <= i,
    ensures
        find_from(s, p, i) matches Some(j) ==> i <= j && j + p.len() <= s.len() && s.subrange(j, j + p.len())
            == p && forall|k: int| i <= k < j ==> #[trigger] s.subrange(k, k + p.len()) != p,
        find_from(s, p, i) is None ==> forall|k: int|
            i <= k && k + p.len() <= s.len() ==> #[trigger] s.subrange(k, k + p.len()) != p,
    decreases s.len() + 1 - i,
{
    if i + p.len() <= s.len() && s.subrange(i, i + p.len()) != p {
        lemma_find_from_spec(s, p, i + 1);
    }
}

/// A closing line of a frontmatter block: `---` followed by nothing but
/// white space (a line break, a carriage return and a line break, or the
/// blank end of the document).
pub open spec fn closing_line(c: Seq<char>) -> bool {
    starts_with(c, "\n---"@) && is_blank(c.skip(4))
}

/// The two full closing lines are closing lines.
proof fn lemma_full_closers()
    ensures
        closing_line("\n---\n"@),
        closing_line("\n---\r\n"@),
{
    reveal_strlit("\n---\n");
    reveal_strlit("\n---\r\n");
    reveal_strlit("\n---");
    assert(crate::text::is_ws('\n') && crate::text::is_ws('\r'));
    let lf = "\n---\n"@;
    let crlf = "\n---\r\n"@;
    assert(lf.take(4) =~= "\n---"@);
    assert(crlf.take(4) =~= "\n---"@);
    let w1 = lf.skip(4);
    let w2 = crlf.skip(4);
    assert(w1 =~= seq!['\n']);
    assert(w2 =~= seq!['\r', '\n']);
    crate::text::lemma_lead_ws(w1, 1);
    crate::text::lemma_lead_ws(w2, 2);
    assert(crate::text::trim_start(w1) =~= Seq::<char>::empty());
    assert(crate::text::trim_start(w2) =~= Seq::<char>::empty());
}

/// The frontmatter text of a split holds no full closing line.
proof fn lemma_split_text_clean(after: Seq<char>, cut: int)
    requires
        0 <= cut <= after.len(),
        forall|k: int| 0 <= k < cut && k + 5 <= after.len() ==> #[trigger] after.subrange(k, k + 5) != "\n---\n"@,
        forall|k: int| 0 <= k < cut && k + 6 <= after.len() ==> #[trigger] after.subrange(k, k + 6) != "\n---\r\n"@,
    ensures
        forall|k: int| 0 <= k && k + 5 <= after.take(cut).len() ==> #[trigger] after.take(cut).subrange(k, k + 5) != "\n---\n"@,
        forall|k: int| 0 <= k && k + 6 <= after.take(cut).len() ==> #[trigger] after.take(cut).subrange(k, k + 6)
            != "\n---\r\n"@,
{
    let y = after.take(cut);
    assert forall|k: int| 0 <= k && k + 5 <= y.len() implies #[trigger] y.subrange(k, k + 5) != "\n---\n"@ by {
        assert(y.subrange(k, k + 5) =~= after.subrange(k, k + 5));
    }
    assert forall|k: int| 0 <= k && k + 6 <= y.len() implies #[trigger] y.subrange(k, k + 6) != "\n---\r\n"@ by {
        assert(y.subrange(k, k + 6) =~= after.subrange(k, k + 6));
    }
}

/// Splitting off a frontmatter block loses nothing: the document, without
/// its leading byte-order marks, is the opening `---` line, the
/// frontmatter text, the closing line and the body; and the frontmatter
/// text holds no full closing line, so the block ends at the first one.
#[verifier::rlimit(40)]
pub proof fn lemma_split_loses_nothing(text: Seq<char>)
    ensures
        frontmatter_split(text).0 matches Some(y) ==> exists|o: Seq<char>, c: Seq<char>|
            (o == "---\n"@ || o == "---\r\n"@) && closing_line(c) && strip_all_start(text, bom()) == o + y + c
                + frontmatter_split(text).1,
        frontmatter_split(text).0 matches Some(y) ==> forall|k: int|
            0 <= k && k + 5 <= y.len() ==> #[trigger] y.subrange(k, k + 5) != "\n---\n"@,
        frontmatter_split(text).0 matches Some(y) ==> forall|k: int|
            0 <= k && k + 6 <= y.len() ==> #[trigger] y.subrange(k, k + 6) != "\n---\r\n"@,
{
    reveal_strlit("---\n");
    reveal_strlit("---\r\n");
    reveal_strlit("\n---");
    reveal_strlit("\n---\n");
    reveal_strlit("\n---\r\n");
    lemma_full_closers();
    let t = strip_all_start(text, bom());
    let lf = "\n---\n"@;
    let crlf = "\n---\r\n"@;
    match after_open(text) {
        None => {},
        Some(after) => {
            let o: Seq<char> = if starts_with(t, "---\n"@) {
                "---\n"@
            } else {
                "---\r\n"@
            };
            assert(t =~= o + after);
            lemma_find_from_spec(after, lf, 0);
            lemma_find_from_spec(after, crlf, 0);
            let split = frontmatter_split(text);
            if let Some(y) = split.0 {
                let fl = find_from(after, lf, 0);
                let fc = find_from(after, crlf, 0);
                if fl is None && fc is None {
                    let e = find_from(after, "\n---"@, 0)->0;
                    lemma_find_from_spec(after, "\n---"@, 0);
                    let c = after.skip(e);
                    assert(y =~= after.take(e));
                    assert(split.1 == Seq::<char>::empty());
                    assert(c.take(4) =~= after.subrange(e, e + 4));
                    assert(c.skip(4) =~= after.skip(e + 4));
                    assert(closing_line(c));
                    assert(t =~= o + y + c + split.1);
                    lemma_split_text_clean(after, e);
                } else {
                    let use_lf = match (fl, fc) {
                        (Some(a), Some(b)) => a <= b,
                        (Some(a), None) => true,
                        _ => false,
                    };
                    let cut = if use_lf {
                        fl->0
                    } else {
                        fc->0
                    };
                    let c = if use_lf {
                        lf
                    } else {
                        crlf
                    };
                    assert(c.len() == (if use_lf {
                        5int
                    } else {
                        6int
                    }));
                    assert(split.1 == after.skip(cut + c.len()));
                    assert(y =~= after.take(cut));
                    assert(after.subrange(cut, cut + c.len()) == c);
                    assert(after =~= after.take(cut) + after.subrange(cut, cut + c.len()) + after.skip(cut + c.len()));
                    assert(t =~= o + y + c + split.1);
                    lemma_split_text_clean(after, cut);
                }
            }
        },
    }
}

/// Position of the first `p` in `v[off..]`, relative to `off`.
fn find_after(v: &[char], off: usize, p: &[char]) -> (r: Option<usize>)
    requires
        off <= v@.len(),
    ensures
        r matches Some(k) ==> find_from(v@.skip(off as int), p@, 0) == Some(k as int) && off + k
            + p@.len() <= v@.len(),
        r is None ==> find_from(v@.skip(off as int), p@, 0) is None,
{
    let ghost s = v@.skip(off as int);
    let n = v.len() - off;
    if p.len() > n {
        return None;
    }
    let last = n - p.len();
    let mut i: usize = 0;
    loop
        invariant
            off <= v@.len(),
            v@.len() <= usize::MAX,
            n == s.len(),
            s == v@.skip(off as int),
            p@.len() <= n,
            last == n - p@.len(),
            0 <= i <= last,
            find_from(s, p@, 0) == find_from(s, p@, i as int),
        decreases last - i,
    {
        let hit = crate::text::range_equals(v, off + i, off + i + p.len(), p);
        assert(s.subrange(i as int, i + p@.len()) =~= v@.subrange(off + i, off + i + p@.len()));
        if hit {
            return Some(i);
        }
        if i == last {
            assert(find_from(s, p@, i + 1) is None);
            return None;
        }
        proof {
            lemma_find_from(s, p@, i as int, i + 1);
        }
        i += 1;
    }
}

/// Splits a document into its frontmatter text (when it has a well-formed
/// `---` block) and its markdown body.
pub fn split_frontmatter(text: &str) -> (r: (Option<String>, String))
    ensures
        (match r.0 {
            Some(y) => Some(y@),
            None => None,
        }) == frontmatter_split(text@).0,
        r.1@ == frontmatter_split(text@).1,
{
    proof {
        reveal_strlit("---\n");
        reveal_strlit("---\r\n");
        reveal_strlit("\n---\n");
        reveal_strlit("\n---\r\n");
        reveal_strlit("\n---");
    }
    let v = crate::text::chars_of(text);
    let mut s: usize = 0;
    while s < v.len() && v[s] == '\u{feff}'
        invariant
            s <= v@.len(),
            forall|k: int| 0 <= k < s ==> #[trigger] v@[k] == '\u{feff}',
        decreases v@.len() - s,
    {
        s += 1;
    }
    proof {
        crate::text::lemma_strip_all_start(v@, bom(), s as int);
    }
    let ghost t = v@.skip(s as int);
    let open1 = crate::text::chars_of("---\n");
    let open2 = crate::text::chars_of("---\r\n");
    let off: usize;
    let vl = v.len();
    if crate::text::range_starts_with(&v, s, vl, &open1) {
        assert(open1@.len() == 4);
        off = s + 4;
    } else if crate::text::range_starts_with(&v, s, vl, &open2) {
        assert(open2@.len() == 5);
        off = s + 5;
    } else {
        assert(t =~= v@.subrange(s as int, v@.len() as int));
        return (None, crate::text::owned(text));
    }
    proof {
        assert(t =~= v@.subrange(s as int, v@.len() as int));
        assert(after_open(text@) == Some(v@.skip(off as int)));
    }
    let ghost after = v@.skip(off as int);
    let close1 = crate::text::chars_of("\n---\n");
    let close3 = crate::text::chars_of("\n---\r\n");
    let f1 = find_after(&v, off, &close1);
    let f3 = find_after(&v, off, &close3);
    assert(close1@.len() == 5 && close3@.len() == 6);
    let pick: Option<(usize, usize)> = match (f1, f3) {
        (Some(a), Some(b)) => if a <= b {
            Some((a, 5))
        } else {
            Some((b, 6))
        },
        (Some(a), None) => Some((a, 5)),
        (None, Some(b)) => Some((b, 6)),
        (None, None) => None,
    };
    match pick {
        Some((end, width)) => {
            let yaml = crate::text::string_of(&v, off, off + end);
            let body = crate::text::string_of(&v, off + end + width, v.len());
            assert(yaml@ =~= after.take(end as int));
            assert(body@ =~= after.skip(end + width));
            return (Some(yaml), body);
        },
        None => {},
    }
    let close2 = crate::text::chars_of("\n---");
    match find_after(&v, off, &close2) {
        Some(end) => {
            let (a, b) = crate::text::trim_bounds(&v, off + end + 4, v.len());
            assert(after.skip(end + 4) =~= v@.subrange(off + end + 4, v@.len() as int));
            if a == b {
                let yaml = crate::text::string_of(&v, off, off + end);
                assert(yaml@ =~= after.take(end as int));
                return (Some(yaml), String::new());
            }
            return (None, crate::text::owned(text));
        },
        None => {
            return (None, crate::text::owned(text));
        },
    }
}

} // verus!

verus! {

// ---------------------------------------------------------------------------
// Layout: blocks are stacked top to bottom on the 1920x1080 canvas.
// All lengths are exact hundredths of a pixel.
// ---------------------------------------------------------------------------

/// Top of a slide's title (70px).
pub open spec fn title_y() -> nat {
    7000
}

/// Top of the body when a slide has no title block (210px).
pub open spec fn body_top() -> nat {
    21000
}

/// Gap between stacked blocks (26px).
pub open spec fn block_gap() -> nat {
    2600
}

/// Largest representable coordinate.
pub open spec fn coord_max() -> int {
    0xFFFF_FFFF_FFFF_FFFF
}

/// `x`, clamped to the largest representable coordinate.
pub open spec fn clamp(x: int) -> int {
    if x > coord_max() {
        coord_max()
    } else {
        x
    }
}

/// Font size of a block kind, in pixels.
pub open spec fn font_px(k: BlockKind) -> nat {
    match k {
        BlockKind::Title => 72,
        BlockKind::Subtitle => 48,
        BlockKind::Callout => 40,
        BlockKind::Code => 26,
        BlockKind::Para => 34,
    }
}

/// Line height of a block kind, in tenths of a pixel (font size times
/// 1.15, 1.2, 1.4, 1.5 and 1.5).
pub open spec fn line_tenths(k: BlockKind) -> nat {
    match k {
        BlockKind::Title => 828,
        BlockKind::Subtitle => 576,
        BlockKind::Callout => 560,
        BlockKind::Code => 390,
        BlockKind::Para => 510,
    }
}

/// Vertical padding (top plus bottom) of a block kind, in hundredths.
pub open spec fn pad(k: BlockKind) -> nat {
    match k {
        BlockKind::Callout => 6000,
        BlockKind::Code => 4400,
        _ => 0,
    }
}

/// Text width of a block kind, in pixels (callouts are indented 20px).
pub open spec fn width_px(k: BlockKind) -> nat {
    match k {
        BlockKind::Callout => 1680,
        _ => 1700,
    }
}

/// Left edge of a block kind, in hundredths: the 110px margin, plus 20px
/// for callouts.
pub open spec fn left(k: BlockKind) -> nat {
    match k {
        BlockKind::Callout => 13000,
        _ => 11000,
    }
}

/// Estimated rendered lines of `n` characters, in tenths: an average
/// character advances 0.55em, so a line holds `width / (0.55 * font)`
/// characters; wrapped text gets 0.2 lines of headroom.
pub open spec fn lines_tenths(k: BlockKind, n: nat) -> nat {
    if n == 0 {
        10
    } else {
        let per = (width_px(k) * 20) as int;
        let need = (n * font_px(k) * 11) as int;
        (10 * ((need + per - 1) / per) + 2) as nat
    }
}

/// Estimated height of a block of `n` characters, in hundredths.
pub open spec fn block_height(k: BlockKind, n: nat) -> nat {
    lines_tenths(k, n) * line_tenths(k) + pad(k)
}

/// Top of block `k` among `blocks`.
pub open spec fn block_top(blocks: Seq<BlockView>, k: int) -> int
    decreases k,
{
    if k <= 0 {
        if blocks.len() > 0 && blocks[0].kind == BlockKind::Title {
            title_y() as int
        } else {
            body_top() as int
        }
    } else {
        clamp(
            block_top(blocks, k - 1) + clamp(block_height(blocks[k - 1].kind, blocks[k - 1].text.len()) as int)
                + block_gap(),
        )
    }
}

/// The element type a block becomes.
pub open spec fn element_type_text(k: BlockKind) -> Seq<char> {
    if k == BlockKind::Callout {
        "callout"@
    } else {
        "text"@
    }
}

/// The style JSON of a block, written the way the reader expects it.
pub open spec fn style_text(k: BlockKind, t: ThemeView, is_title_slide: bool) -> Seq<char> {
    match k {
        BlockKind::Title => "{\"fontSize\":72,\"color\":\""@ + t.accent + "\",\"fontWeight\":800"@
            + ",\"fontFamily\":\""@ + t.font_display + "\""@ + (if is_title_slide {
            ",\"displayEffect\":\"fade-down\""@
        } else {
            ",\"textAlign\":\"left\",\"displayEffect\":\"fade-down\""@
        }) + "}"@,
        BlockKind::Subtitle => "{\"fontSize\":48,\"color\":\""@ + t.ink + "\",\"fontWeight\":600"@
            + ",\"fontFamily\":\""@ + t.font_display + "\""@
            + ",\"textAlign\":\"left\",\"displayEffect\":\"fade\""@ + "}"@,
        BlockKind::Callout => "{\"fontSize\":40,\"color\":\""@ + t.accent + "\",\"fontWeight\":700"@
            + ",\"fontStyle\":\"italic\",\"borderLeft\":\"6px solid "@ + t.accent
            + "\",\"paddingLeft\":28,\"displayEffect\":\"pop\""@ + "}"@,
        BlockKind::Code => "{\"fontSize\":26,\"color\":\""@ + t.ink + "\",\"fontWeight\":400"@
            + ",\"fontFamily\":\""@ + t.font_mono + "\""@
            + ",\"whiteSpace\":\"pre\",\"backgroundColor\":\""@ + t.surface
            + "\",\"borderRadius\":12,\"padding\":22,\"displayEffect\":\"fade\""@ + "}"@,
        BlockKind::Para => "{\"fontSize\":34,\"color\":\""@ + t.ink + "\",\"fontWeight\":400"@
            + ",\"lineHeight\":51,\"displayEffect\":\"fade\""@ + "}"@,
    }
}

/// The id of the `n`-th element laid out in a deck.
pub open spec fn element_id_text(n: nat) -> Seq<char> {
    "el"@ + decimal(n)
}

/// `e` is block `b` laid out with id number `id`, top `y` and height `h`.
pub open spec fn laid_out(
    e: Element,
    id: nat,
    b: BlockView,
    y: int,
    h: int,
    t: ThemeView,
    is_title_slide: bool,
) -> bool {
    &&& e.id@ == element_id_text(id)
    &&& opt_text(e.element_type) == Some(element_type_text(b.kind))
    &&& e.x == Coord::Hundredths(left(b.kind) as u64)
    &&& e.y == Coord::Hundredths(y as u64)
    &&& e.width == Coord::Hundredths((if b.kind == BlockKind::Callout {
        168000u64
    } else {
        170000u64
    }))
    &&& e.height == Coord::Hundredths(h as u64)
    &&& opt_text(e.content) == Some(b.text)
    &&& e.label is None
    &&& opt_text(e.style) == Some(style_text(b.kind, t, is_title_slide))
    &&& e.link_url is None
    &&& e.flip_h is None
    &&& e.flip_v is None
}

/// `els` are `blocks` of a slide at outline `level`, laid out in order with
/// element ids numbered from `first + 1`.
pub open spec fn slide_laid_out(
    els: Seq<Element>,
    blocks: Seq<BlockView>,
    level: int,
    t: ThemeView,
    first: nat,
) -> bool {
    &&& els.len() == blocks.len()
    &&& forall|k: int|
        0 <= k < blocks.len() ==> laid_out(
            #[trigger] els[k],
            (first + k + 1) as nat,
            blocks[k],
            block_top(blocks, k),
            clamp(block_height(blocks[k].kind, blocks[k].text.len()) as int),
            t,
            blocks[k].kind == BlockKind::Title && level == 1 && block_top(blocks, k) == title_y(),
        )
}

/// Block tops stay within `[0, coord_max()]`.
pub proof fn lemma_block_top_range(blocks: Seq<BlockView>, k: int)
    ensures
        0 <= block_top(blocks, k) <= coord_max(),
    decreases k,
{
    if k > 0 {
        lemma_block_top_range(blocks, k - 1);
    }
}

/// Laid-out blocks never overlap. Each block starts at or below the
/// bottom of the block before it (bottoms clamp at the largest
/// representable coordinate), and the first block starts at the title line
/// or the body top.
pub proof fn lemma_blocks_do_not_overlap(blocks: Seq<BlockView>, k: int)
    requires
        0 < k < blocks.len(),
    ensures
        block_top(blocks, k) >= clamp(
            block_top(blocks, k - 1) + clamp(block_height(blocks[k - 1].kind, blocks[k - 1].text.len()) as int),
        ),
        block_top(blocks, 0) == title_y() || block_top(blocks, 0) == body_top(),
{
    lemma_block_top_range(blocks, k - 1);
}

/// Height in hundredths of a block of `n` characters, clamped.
fn block_height_of(k: BlockKind, n: usize) -> (h: u64)
    ensures
        h == clamp(block_height(k, n as nat) as int),
{
    let font: u128 = match k {
        BlockKind::Title => 72,
        BlockKind::Subtitle => 48,
        BlockKind::Callout => 40,
        BlockKind::Code => 26,
        BlockKind::Para => 34,
    };
    let line: u128 = match k {
        BlockKind::Title => 828,
        BlockKind::Subtitle => 576,
        BlockKind::Callout => 560,
        BlockKind::Code => 390,
        BlockKind::Para => 510,
    };
    let pad_c: u128 = match k {
        BlockKind::Callout => 6000,
        BlockKind::Code => 4400,
        _ => 0,
    };
    let width: u128 = match k {
        BlockKind::Callout => 1680,
        _ => 1700,
    };
    let nn = n as u128;
    let lines: u128 = if n == 0 {
        10
    } else {
        let per = width * 20;
        assert(nn * font * 11 <= 0xFFFF_FFFF_FFFF_FFFF * 72 * 11) by (nonlinear_arith)
            requires
                nn <= 0xFFFF_FFFF_FFFF_FFFF,
                font <= 72,
        ;
        let need = nn * font * 11;
        10 * ((need + per - 1) / per) + 2
    };
    assert(lines * line <= 0xFFFF_FFFF_FFFF_FFFF_FFFF_FFFF) by (nonlinear_arith)
        requires
            lines <= 10 * ((0xFFFF_FFFF_FFFF_FFFFu128 * 72 * 11 + 33999) / 33600) + 2,
            line <= 828,
    ;
    let total = lines * line + pad_c;
    if total > 0xFFFF_FFFF_FFFF_FFFFu128 {
        0xFFFF_FFFF_FFFF_FFFFu64
    } else {
        total as u64
    }
}

} // verus!

verus! {

/// The style JSON of a block (see `style_text`).
pub fn style_json(k: BlockKind, t: &DeckTheme, is_title_slide: bool) -> (s: String)
    ensures
        s@ == style_text(k, t@, is_title_slide),
{
    let mut s = String::new();
    match k {
        BlockKind::Title => {
            crate::text::push_str(&mut s, "{\"fontSize\":72,\"color\":\"");
            crate::text::push_str(&mut s, t.accent.as_str());
            crate::text::push_str(&mut s, "\",\"fontWeight\":800");
            crate::text::push_str(&mut s, ",\"fontFamily\":\"");
            crate::text::push_str(&mut s, t.font_display.as_str());
            crate::text::push_str(&mut s, "\"");
            if is_title_slide {
                crate::text::push_str(&mut s, ",\"displayEffect\":\"fade-down\"");
            } else {
                crate::text::push_str(&mut s, ",\"textAlign\":\"left\",\"displayEffect\":\"fade-down\"");
            }
            crate::text::push_str(&mut s, "}");
        },
        BlockKind::Subtitle => {
            crate::text::push_str(&mut s, "{\"fontSize\":48,\"color\":\"");
            crate::text::push_str(&mut s, t.ink.as_str());
            crate::text::push_str(&mut s, "\",\"fontWeight\":600");
            crate::text::push_str(&mut s, ",\"fontFamily\":\"");
            crate::text::push_str(&mut s, t.font_display.as_str());
            crate::text::push_str(&mut s, "\"");
            crate::text::push_str(&mut s, ",\"textAlign\":\"left\",\"displayEffect\":\"fade\"");
            crate::text::push_str(&mut s, "}");
        },
        BlockKind::Callout => {
            crate::text::push_str(&mut s, "{\"fontSize\":40,\"color\":\"");
            crate::text::push_str(&mut s, t.accent.as_str());
            crate::text::push_str(&mut s, "\",\"fontWeight\":700");
            crate::text::push_str(&mut s, ",\"fontStyle\":\"italic\",\"borderLeft\":\"6px solid ");
            crate::text::push_str(&mut s, t.accent.as_str());
            crate::text::push_str(&mut s, "\",\"paddingLeft\":28,\"displayEffect\":\"pop\"");
            crate::text::push_str(&mut s, "}");
        },
        BlockKind::Code => {
            crate::text::push_str(&mut s, "{\"fontSize\":26,\"color\":\"");
            crate::text::push_str(&mut s, t.ink.as_str());
            crate::text::push_str(&mut s, "\",\"fontWeight\":400");
            crate::text::push_str(&mut s, ",\"fontFamily\":\"");
            crate::text::push_str(&mut s, t.font_mono.as_str());
            crate::text::push_str(&mut s, "\"");
            crate::text::push_str(&mut s, ",\"whiteSpace\":\"pre\",\"backgroundColor\":\"");
            crate::text::push_str(&mut s, t.surface.as_str());
            crate::text::push_str(&mut s, "\",\"borderRadius\":12,\"padding\":22,\"displayEffect\":\"fade\"");
            crate::text::push_str(&mut s, "}");
        },
        BlockKind::Para => {
            crate::text::push_str(&mut s, "{\"fontSize\":34,\"color\":\"");
            crate::text::push_str(&mut s, t.ink.as_str());
            crate::text::push_str(&mut s, "\",\"fontWeight\":400");
            crate::text::push_str(&mut s, ",\"lineHeight\":51,\"displayEffect\":\"fade\"");
            crate::text::push_str(&mut s, "}");
        },
    }
    assert(s@ =~= style_text(k, t@, is_title_slide));
    s
}

/// The next element id: bumps the counter and names the element after it.
pub fn new_element_id(counter: &mut u128) -> (id: String)
    requires
        *old(counter) < u128::MAX,
    ensures
        *final(counter) == *old(counter) + 1,
        id@ == element_id_text(*final(counter) as nat),
{
    *counter = *counter + 1;
    let mut s = String::new();
    crate::text::push_str(&mut s, "el");
    crate::text::push_decimal_wide(&mut s, *counter);
    s
}

/// The abstract values of a vector of blocks.
pub open spec fn block_views(v: Seq<Block>) -> Seq<BlockView> {
    v.map_values(|b: Block| b@)
}

/// Lays out the blocks of one slide, numbering elements after `counter`.
fn build_elements(blocks: &Vec<Block>, level: i32, t: &DeckTheme, counter: &mut u128) -> (els: Vec<Element>)
    requires
        *old(counter) + blocks@.len() < u128::MAX,
    ensures
        *final(counter) == *old(counter) + blocks@.len(),
        slide_laid_out(els@, block_views(blocks@), level as int, t@, *old(counter) as nat),
{
    let ghost bv = block_views(blocks@);
    let ghost first = *counter as nat;
    let mut els: Vec<Element> = Vec::new();
    let mut y: u64 = if blocks.len() > 0 && blocks[0].kind == BlockKind::Title {
        7000
    } else {
        21000
    };
    let mut k: usize = 0;
    while k < blocks.len()
        invariant
            bv == block_views(blocks@),
            bv.len() == blocks@.len(),
            first == *old(counter) as nat,
            first + blocks@.len() < u128::MAX,
            k <= blocks@.len(),
            *counter == first + k,
            els@.len() == k,
            y == block_top(bv, k as int),
            forall|j: int|
                0 <= j < k ==> laid_out(
                    #[trigger] els@[j],
                    (first + j + 1) as nat,
                    bv[j],
                    block_top(bv, j),
                    clamp(block_height(bv[j].kind, bv[j].text.len()) as int),
                    t@,
                    bv[j].kind == BlockKind::Title && level == 1 && block_top(bv, j) == title_y(),
                ),
        decreases blocks@.len() - k,
    {
        let b = &blocks[k];
        assert(bv[k as int] == b@);
        let n = crate::text::chars_of(b.text.as_str()).len();
        let h = block_height_of(b.kind, n);
        let is_title_slide = b.kind == BlockKind::Title && level == 1 && y == 7000;
        let style = style_json(b.kind, t, is_title_slide);
        let is_callout = b.kind == BlockKind::Callout;
        let x: u64 = if is_callout { 13000 } else { 11000 };
        let width: u64 = if is_callout { 168000 } else { 170000 };
        let etype = if is_callout { crate::text::owned("callout") } else { crate::text::owned("text") };
        let id = new_element_id(counter);
        let e = Element {
            id,
            element_type: Some(etype),
            x: Coord::Hundredths(x),
            y: Coord::Hundredths(y),
            width: Coord::Hundredths(width),
            height: Coord::Hundredths(h),
            content: Some(b.text.clone()),
            label: None,
            style: Some(style),
            link_url: None,
            flip_h: None,
            flip_v: None,
        };
        els.push(e);
        proof {
            lemma_block_top_range(bv, k as int);
        }
        y = if y > 0xFFFF_FFFF_FFFF_FFFFu64 - h {
            0xFFFF_FFFF_FFFF_FFFFu64
        } else if y + h > 0xFFFF_FFFF_FFFF_FFFFu64 - 2600 {
            0xFFFF_FFFF_FFFF_FFFFu64
        } else {
            y + h + 2600
        };
        k += 1;
    }
    els
}

} // verus!

verus! {

// ---------------------------------------------------------------------------
// Assembling an imported deck
// ---------------------------------------------------------------------------

/// The deck title: the frontmatter name, else "Untitled deck".
pub open spec fn cover_name(meta: DeckMeta) -> Seq<char> {
    match meta.name {
        Some(n) => n@,
        None => "Untitled deck"@,
    }
}

/// The blocks of the synthesized cover slide: the title, then the subtitle
/// when there is a non-blank one.
pub open spec fn cover_blocks(meta: DeckMeta) -> Seq<BlockView> {
    let title = seq![BlockView { kind: BlockKind::Title, text: cover_name(meta) }];
    match meta.subtitle {
        Some(s) => if !is_blank(s@) {
            title.push(BlockView { kind: BlockKind::Subtitle, text: s@ })
        } else {
            title
        },
        None => title,
    }
}

/// Number of blocks in the first `j` parsed slides.
pub open spec fn blocks_before(ps: Seq<SlideView>, j: int) -> nat
    decreases j,
{
    if j <= 0 {
        0
    } else {
        blocks_before(ps, j - 1) + ps[j - 1].blocks.len()
    }
}

/// The id of the `n`-th slide of an imported deck.
pub open spec fn slide_id_text(n: nat) -> Seq<char> {
    "s"@ + decimal(n)
}

/// A slide with no reveal settings and no authoring state.
pub open spec fn plain_slide(s: Slide) -> bool {
    &&& s.progressive_reveal is None
    &&& s.reveal_order is None
    &&& s.guided_reveal is None
    &&& s.rpp is None
}

/// `slides` are the cover slide followed by one slide per parsed slide,
/// laid out with theme `t`.
pub open spec fn deck_slides(slides: Seq<Slide>, meta: DeckMeta, t: ThemeView, ps: Seq<SlideView>) -> bool {
    &&& slides.len() == ps.len() + 1
    &&& slides[0].id@ == slide_id_text(1)
    &&& opt_text(slides[0].name) == Some("title"@)
    &&& slide_laid_out(slides[0].elements@, cover_blocks(meta), 0, t, 0)
    &&& opt_text(slides[0].background) == Some(t.bg)
    &&& slides[0].level == Some(0i32)
    &&& plain_slide(slides[0])
    &&& forall|j: int|
        0 <= j < ps.len() ==> {
            let s = #[trigger] slides[j + 1];
            &&& s.id@ == slide_id_text((j + 2) as nat)
            &&& opt_text(s.name) == Some(ps[j].name)
            &&& slide_laid_out(
                s.elements@,
                ps[j].blocks,
                ps[j].level,
                t,
                cover_blocks(meta).len() + blocks_before(ps, j),
            )
            &&& opt_text(s.background) == Some(t.bg)
            &&& s.level == Some(ps[j].level as i32)
            &&& plain_slide(s)
        }
}

/// `input` is the deck imported from `meta`, theme `t` and parsed body `ps`.
pub open spec fn imported(input: SlideDeckInput, meta: DeckMeta, t: ThemeView, ps: Seq<SlideView>) -> bool {
    &&& opt_text(input.name) == Some(cover_name(meta))
    &&& input.slug == meta.slug
    &&& input.subtitle == meta.subtitle
    &&& input.cover_url == meta.cover_url
    &&& input.description == meta.description
    &&& input.long_summary == meta.long_summary
    &&& input.learning_objectives == meta.learning_objectives
    &&& input.requirements == meta.requirements
    &&& input.target_audience == meta.target_audience
    &&& input.tags == meta.tags
    &&& input.level == meta.level
    &&& input.language == meta.language
    &&& input.instructor_name == meta.instructor_name
    &&& input.estimated_duration_minutes == meta.estimated_duration_minutes
    &&& input.status == meta.status
    &&& input.community_id is None
    &&& input.event_id is None
    &&& opt_text(input.theme) == Some(theme_json_text(t))
    &&& input.transition is None
    &&& opt_text(input.layout_format) == Some("presentation"@)
    &&& input.price is None
    &&& input.compare_at_price is None
    &&& input.paywall_start_slide_index is None
    &&& deck_slides(input.slides@, meta, t, ps)
    &&& input.flow is None
    &&& input.gallery_images@.len() == 0
    &&& input.guided_audio_library@.len() == 0
}

/// The cover slide's blocks.
fn make_cover_blocks(meta: &DeckMeta) -> (v: Vec<Block>)
    ensures
        block_views(v@) == cover_blocks(*meta),
        v@.len() <= 2,
{
    let name = match &meta.name {
        Some(n) => n.clone(),
        None => crate::text::owned("Untitled deck"),
    };
    let mut v: Vec<Block> = Vec::new();
    v.push(Block { kind: BlockKind::Title, text: name });
    match &meta.subtitle {
        Some(s) => {
            if !crate::text::str_is_blank(s.as_str()) {
                v.push(Block { kind: BlockKind::Subtitle, text: s.clone() });
            }
        },
        None => {},
    }
    assert(block_views(v@) =~= cover_blocks(*meta));
    v
}

/// A slide id `s{n}`.
fn slide_id(n: u128) -> (s: String)
    ensures
        s@ == slide_id_text(n as nat),
{
    let mut s = String::new();
    crate::text::push_str(&mut s, "s");
    crate::text::push_decimal_wide(&mut s, n);
    s
}

/// Builds the deck an imported document describes: a cover slide
/// synthesized from the metadata, then one slide per `#` heading of the
/// body, every block laid out on the canvas.
///
/// `theme` is the document's theme (the default tokens when it has none);
/// the frontmatter itself is read by the caller.
pub fn assemble_document(meta: DeckMeta, theme: DeckTheme, body: &str) -> (r: Result<
    SlideDeckInput,
    crate::markdown::MarkdownError,
>)
    ensures
        match crate::markdown::read_body(body@) {
            crate::markdown::Outcome::Failed(e) => r == Err::<SlideDeckInput, _>(e),
            crate::markdown::Outcome::Slides(ps) => r matches Ok(input) && imported(input, meta, theme@, ps),
        },
{
    let parsed = match crate::markdown::parse_markdown(body) {
        Ok(p) => p,
        Err(e) => {
            return Err(e);
        },
    };
    let ghost ps = crate::markdown::slide_views(parsed@);
    let mut slides: Vec<Slide> = Vec::new();
    let mut counter: u128 = 0;
    let cover = make_cover_blocks(&meta);
    let cover_len = cover.len();
    let cover_elements = build_elements(&cover, 0, &theme, &mut counter);
    slides.push(
        Slide {
            id: slide_id(1),
            name: Some(crate::text::owned("title")),
            elements: cover_elements,
            background: Some(theme.bg.clone()),
            level: Some(0),
            progressive_reveal: None,
            reveal_order: None,
            guided_reveal: None,
            rpp: None,
        },
    );
    let np = parsed.len();
    let mut j: usize = 0;
    while j < np
        invariant
            np == parsed@.len(),
            ps == crate::markdown::slide_views(parsed@),
            ps.len() == np,
            cover_len <= 2,
            cover_len == cover_blocks(meta).len(),
            j <= np,
            counter == cover_len + blocks_before(ps, j as int),
            counter <= 2 + j * 0x1_0000_0000_0000_0000,
            slides@.len() == j + 1,
            slides@[0].id@ == slide_id_text(1),
            opt_text(slides@[0].name) == Some("title"@),
            slide_laid_out(slides@[0].elements@, cover_blocks(meta), 0, theme@, 0),
            opt_text(slides@[0].background) == Some(theme@.bg),
            slides@[0].level == Some(0i32),
            plain_slide(slides@[0]),
            forall|i: int|
                0 <= i < j ==> {
                    let s = #[trigger] slides@[i + 1];
                    &&& s.id@ == slide_id_text((i + 2) as nat)
                    &&& opt_text(s.name) == Some(ps[i].name)
                    &&& slide_laid_out(
                        s.elements@,
                        ps[i].blocks,
                        ps[i].level,
                        theme@,
                        cover_blocks(meta).len() + blocks_before(ps, i),
                    )
                    &&& opt_text(s.background) == Some(theme@.bg)
                    &&& s.level == Some(ps[i].level as i32)
                    &&& plain_slide(s)
                },
        decreases np - j,
    {
        let p = &parsed[j];
        assert(ps[j as int] == p@);
        let nb = p.blocks.len();
        assert(counter + nb <= 2 + (j + 1) * 0x1_0000_0000_0000_0000) by (nonlinear_arith)
            requires
                counter <= 2 + j * 0x1_0000_0000_0000_0000,
                nb < 0x1_0000_0000_0000_0000,
        ;
        assert(2 + (j + 1) * 0x1_0000_0000_0000_0000 < u128::MAX) by (nonlinear_arith)
            requires
                j < 0x1_0000_0000_0000_0000 - 1,
        ;
        let els = build_elements(&p.blocks, p.level, &theme, &mut counter);
        assert(block_views(p.blocks@) == p@.blocks);
        let ghost old_slides = slides@;
        slides.push(
            Slide {
                id: slide_id(j as u128 + 2),
                name: Some(p.name.clone()),
                elements: els,
                background: Some(theme.bg.clone()),
                level: Some(p.level),
                progressive_reveal: None,
                reveal_order: None,
                guided_reveal: None,
                rpp: None,
            },
        );
        proof {
            assert forall|i: int| 0 <= i < j + 1 implies {
                let s = #[trigger] slides@[i + 1];
                &&& s.id@ == slide_id_text((i + 2) as nat)
                &&& opt_text(s.name) == Some(ps[i].name)
                &&& slide_laid_out(
                    s.elements@,
                    ps[i].blocks,
                    ps[i].level,
                    theme@,
                    cover_blocks(meta).len() + blocks_before(ps, i),
                )
                &&& opt_text(s.background) == Some(theme@.bg)
                &&& s.level == Some(ps[i].level as i32)
                &&& plain_slide(s)
            } by {
                if i < j {
                    assert(slides@[i + 1] == old_slides[i + 1]);
                }
            }
        }
        j += 1;
    }
    let theme_text = theme_json(&theme);
    let input = SlideDeckInput {
        name: Some(match &meta.name {
            Some(n) => n.clone(),
            None => crate::text::owned("Untitled deck"),
        }),
        slug: meta.slug,
        subtitle: meta.subtitle,
        cover_url: meta.cover_url,
        description: meta.description,
        long_summary: meta.long_summary,
        learning_objectives: meta.learning_objectives,
        requirements: meta.requirements,
        target_audience: meta.target_audience,
        tags: meta.tags,
        level: meta.level,
        language: meta.language,
        instructor_name: meta.instructor_name,
        estimated_duration_minutes: meta.estimated_duration_minutes,
        status: meta.status,
        community_id: None,
        event_id: None,
        theme: Some(theme_text),
        transition: None,
        layout_format: Some(crate::text::owned("presentation")),
        price: None,
        compare_at_price: None,
        paywall_start_slide_index: None,
        slides,
        flow: None,
        gallery_images: Vec::new(),
        guided_audio_library: Vec::new(),
    };
    Ok(input)
}

} // verus!

verus! {

// ---------------------------------------------------------------------------
// Exporting a stored deck
// ---------------------------------------------------------------------------

/// Bit pattern of the double 120.0: the lowest top a title can have.
pub open spec fn title_zone_y_bits() -> u64 {
    0x405E_0000_0000_0000
}

/// Bit pattern of the double 130.0: the rightmost left edge a title can
/// have (margin plus callout indent).
pub open spec fn title_zone_x_bits() -> u64 {
    0x4060_4000_0000_0000
}

/// How an exported frontmatter value writes one character inside a YAML
/// double-quoted scalar: quote and backslash escaped; the short escapes for
/// backspace, form feed, line feed, carriage return and tab; `\u00xx`
/// (lowercase hex) for the other C0 controls, DEL and the C1 controls;
/// `\ufffe` and `\uffff` for those two non-characters; every other
/// character as it is.
pub open spec fn yaml_char_escape(c: char) -> Seq<char> {
    let n = c as nat;
    if c == '"' {
        seq!['\\', '"']
    } else if c == '\\' {
        seq!['\\', '\\']
    } else if n == 8 {
        seq!['\\', 'b']
    } else if n == 12 {
        seq!['\\', 'f']
    } else if c == '\n' {
        seq!['\\', 'n']
    } else if c == '\r' {
        seq!['\\', 'r']
    } else if c == '\t' {
        seq!['\\', 't']
    } else if n < 32 || (127 <= n && n <= 159) {
        seq!['\\', 'u', '0', '0', hex_digit(n / 16), hex_digit(n % 16)]
    } else if n == 0xfffe || n == 0xffff {
        seq!['\\', 'u', 'f', 'f', 'f', hex_digit(n % 16)]
    } else {
        seq![c]
    }
}

/// The escaped characters of `s`, one after the other.
pub open spec fn yaml_escaped(s: Seq<char>) -> Seq<char>
    decreases s.len(),
{
    if s.len() == 0 {
        Seq::empty()
    } else {
        yaml_escaped(s.drop_last()) + yaml_char_escape(s.last())
    }
}

/// The YAML double-quoted scalar an export writes for the text `s`.
pub open spec fn yaml_string_text(s: Seq<char>) -> Seq<char> {
    seq!['"'] + yaml_escaped(s) + seq!['"']
}

/// Characters the YAML reader accepts in a document: tab, line feed,
/// carriage return, printable ASCII, next line, and every other character
/// from U+00A0 on but U+FFFE and U+FFFF.
pub open spec fn yaml_readable(c: char) -> bool {
    let n = c as nat;
    ||| n == 9 || n == 10 || n == 13
    ||| 0x20 <= n && n <= 0x7e
    ||| n == 0x85
    ||| 0xa0 <= n && n <= 0xd7ff
    ||| 0xe000 <= n && n <= 0xfffd
    ||| n > 0xffff
}

/// Every character of an escaped character is one the YAML reader accepts.
proof fn lemma_yaml_char_escape_readable(c: char)
    ensures
        forall|k: int| 0 <= k < yaml_char_escape(c).len() ==> yaml_readable(#[trigger] yaml_char_escape(c)[k]),
{
    let n = c as nat;
    if n < 32 || (127 <= n && n <= 159) || n == 0xfffe || n == 0xffff {
        assert(yaml_readable(hex_digit(n / 16)) && yaml_readable(hex_digit(n % 16)));
    }
}

/// The quoted text an export writes for any value holds only characters
/// the YAML reader accepts, so the frontmatter can be read back.
pub proof fn lemma_yaml_text_readable(s: Seq<char>)
    ensures
        forall|k: int| 0 <= k < yaml_string_text(s).len() ==> yaml_readable(#[trigger] yaml_string_text(s)[k]),
    decreases s.len(),
{
    lemma_yaml_escaped_readable(s);
    let q = yaml_string_text(s);
    assert forall|k: int| 0 <= k < q.len() implies yaml_readable(#[trigger] q[k]) by {
        if 0 < k < q.len() - 1 {
            assert(q[k] == yaml_escaped(s)[k - 1]);
        }
    }
}

/// Every character of an escaped text is one the YAML reader accepts.
proof fn lemma_yaml_escaped_readable(s: Seq<char>)
    ensures
        forall|k: int| 0 <= k < yaml_escaped(s).len() ==> yaml_readable(#[trigger] yaml_escaped(s)[k]),
    decreases s.len(),
{
    if s.len() > 0 {
        lemma_yaml_escaped_readable(s.drop_last());
        lemma_yaml_char_escape_readable(s.last());
        let a = yaml_escaped(s.drop_last());
        let b = yaml_char_escape(s.last());
        assert forall|k: int| 0 <= k < yaml_escaped(s).len() implies yaml_readable(#[trigger] yaml_escaped(s)[k]) by {
            if k < a.len() {
                assert(yaml_escaped(s)[k] == a[k]);
            } else {
                assert(yaml_escaped(s)[k] == b[k - a.len()]);
            }
        }
    }
}

/// A frontmatter line `label value` for an optional field, the value
/// written as a YAML double-quoted scalar.
pub open spec fn opt_line(label: Seq<char>, v: Option<String>) -> Seq<char> {
    match v {
        Some(s) => label + yaml_string_text(s@) + "\n"@,
        None => Seq::empty(),
    }
}

/// The items of a list field, each written as a YAML double-quoted scalar.
pub open spec fn quoted_items(items: Seq<String>) -> Seq<Seq<char>> {
    items.map_values(|t: String| yaml_string_text(t@))
}

/// A frontmatter line `label [item, ...]` for a list field (absent when
/// the list is empty).
pub open spec fn list_line(label: Seq<char>, items: Seq<String>) -> Seq<char> {
    if items.len() == 0 {
        Seq::empty()
    } else {
        label + "["@ + join(quoted_items(items), ", "@) + "]\n"@
    }
}

/// The `estimatedDurationMinutes:` line (absent when the deck has none).
pub open spec fn duration_line(v: Option<i32>) -> Seq<char> {
    match v {
        Some(n) => "  estimatedDurationMinutes: "@ + crate::text::signed_decimal(n as int) + "\n"@,
        None => Seq::empty(),
    }
}

/// A frontmatter line `label value` for a text, written as a YAML
/// double-quoted scalar.
pub open spec fn text_line(label: Seq<char>, v: Seq<char>) -> Seq<char> {
    label + yaml_string_text(v) + "\n"@
}

/// The name written for a deck.
pub open spec fn deck_name(deck: SlideDeck) -> Seq<char> {
    match deck.name {
        Some(n) => n@,
        None => "Untitled deck"@,
    }
}

/// The lines naming a deck: name, slug, subtitle and description.
pub open spec fn deck_lines_name(deck: SlideDeck) -> Seq<char> {
    text_line("  name: "@, deck_name(deck)) + opt_line("  slug: "@, deck.slug)
        + opt_line("  subtitle: "@, deck.subtitle) + opt_line("  description: "@, deck.description)
}

/// The lines presenting a deck: cover, long summary, learning objectives
/// and requirements.
pub open spec fn deck_lines_summary(deck: SlideDeck) -> Seq<char> {
    opt_line("  coverUrl: "@, deck.cover_url) + opt_line("  longSummary: "@, deck.long_summary)
        + list_line("  learningObjectives: "@, deck.learning_objectives@)
        + list_line("  requirements: "@, deck.requirements@)
}

/// The first lines of the `deck:` block.
pub open spec fn deck_lines_about(deck: SlideDeck) -> Seq<char> {
    deck_lines_name(deck) + deck_lines_summary(deck)
}

/// The lines on whom a deck is for: audience, level, language and
/// instructor.
pub open spec fn deck_lines_audience(deck: SlideDeck) -> Seq<char> {
    list_line("  targetAudience: "@, deck.target_audience@) + opt_line("  level: "@, deck.level)
        + opt_line("  language: "@, deck.language) + opt_line("  instructorName: "@, deck.instructor_name)
}

/// The closing lines of the `deck:` block: duration, tags and status.
pub open spec fn deck_lines_state(deck: SlideDeck) -> Seq<char> {
    duration_line(deck.estimated_duration_minutes) + list_line("  tags: "@, deck.tags@)
        + text_line("  status: "@, deck.status@)
}

/// The last lines of the `deck:` block.
pub open spec fn deck_lines_for(deck: SlideDeck) -> Seq<char> {
    deck_lines_audience(deck) + deck_lines_state(deck)
}

/// The `deck:` block of an exported deck: every metadata field the import
/// reads, the absent ones left out.
pub open spec fn deck_block(deck: SlideDeck) -> Seq<char> {
    "deck:\n"@ + deck_lines_about(deck) + deck_lines_for(deck)
}

/// The `theme:` block of an exported deck.
pub open spec fn theme_block(t: ThemeView) -> Seq<char> {
    "theme:\n"@ + ("  base: "@ + t.base + "\n"@) + text_line("  bg: "@, t.bg) + text_line("  ink: "@, t.ink)
        + text_line("  accent: "@, t.accent) + text_line("  surface: "@, t.surface)
        + text_line("  fontDisplay: "@, t.font_display) + text_line("  fontMono: "@, t.font_mono)
}

/// The frontmatter block of an exported deck.
pub open spec fn export_header(deck: SlideDeck, t: ThemeView) -> Seq<char> {
    "---\n"@ + deck_block(deck) + theme_block(t) + "---\n\n"@
}

/// Index of the first element of type `text` among the first `k`.
pub open spec fn first_text_in(els: Seq<Element>, k: int) -> Option<int>
    decreases k,
{
    if k <= 0 {
        None
    } else {
        match first_text_in(els, k - 1) {
            Some(i) => Some(i),
            None => if opt_text(els[k - 1].element_type) == Some("text"@) {
                Some(k - 1)
            } else {
                None
            },
        }
    }
}

/// The heading line of an exported slide: the first text element's
/// content, else the slide name.
pub open spec fn slide_heading(s: Slide) -> Seq<char> {
    match first_text_in(s.elements@, s.elements@.len() as int) {
        Some(i) => "# "@ + (match s.elements@[i].content {
            Some(c) => c@,
            None => Seq::empty(),
        }) + "\n\n"@,
        None => match s.name {
            Some(n) => "# "@ + n@ + "\n\n"@,
            None => Seq::empty(),
        },
    }
}

/// Whether a style marks its element as a code block.
pub open spec fn code_style(st: Seq<char>) -> bool {
    crate::text::contains_seq(st, "whiteSpace"@) || crate::text::contains_seq(st, "monospace"@)
        || crate::text::contains_seq(st, "backgroundColor"@)
}

/// The markdown an element contributes to its slide's export.
pub open spec fn element_text(e: Element) -> Seq<char> {
    match e.content {
        None => Seq::empty(),
        Some(raw) => {
            let c = crate::text::trim(raw@);
            let is_text = opt_text(e.element_type) == Some("text"@);
            if c.len() == 0 {
                Seq::empty()
            } else if is_text && crate::models::slide_deck::coord_at_most(e.y, 12000, title_zone_y_bits())
                && crate::models::slide_deck::coord_at_most(e.x, 13000, title_zone_x_bits()) {
                Seq::empty()
            } else {
                let st = match e.style {
                    Some(s) => s@,
                    None => Seq::empty(),
                };
                if opt_text(e.element_type) == Some("callout"@) {
                    "> "@ + c + "\n\n"@
                } else if (is_text || opt_text(e.element_type) == Some("paragraph"@)) && code_style(st) {
                    "```\n"@ + c + "\n```\n\n"@
                } else {
                    c + "\n\n"@
                }
            }
        },
    }
}

/// The markdown of the first `k` elements.
pub open spec fn elements_text(els: Seq<Element>, k: int) -> Seq<char>
    decreases k,
{
    if k <= 0 {
        Seq::empty()
    } else {
        elements_text(els, k - 1) + element_text(els[k - 1])
    }
}

/// The markdown of an exported slide (nothing for the cover slide, which
/// the frontmatter describes).
pub open spec fn slide_text(s: Slide) -> Seq<char> {
    if s.level == Some(0i32) {
        Seq::empty()
    } else {
        slide_heading(s) + elements_text(s.elements@, s.elements@.len() as int)
    }
}

/// The markdown of the first `k` slides.
pub open spec fn slides_text(ss: Seq<Slide>, k: int) -> Seq<char>
    decreases k,
{
    if k <= 0 {
        Seq::empty()
    } else {
        slides_text(ss, k - 1) + slide_text(ss[k - 1])
    }
}

/// The exported document of a deck with theme `t`.
pub open spec fn export_text(deck: SlideDeck, t: ThemeView) -> Seq<char> {
    export_header(deck, t) + slides_text(deck.slides@, deck.slides@.len() as int)
}

/// A lowercase hexadecimal digit.
fn hex_char(d: u32) -> (c: char)
    requires
        d < 16,
    ensures
        c == hex_digit(d as nat),
{
    if d < 10 {
        crate::text::digit(d as u64)
    } else if d == 10 {
        'a'
    } else if d == 11 {
        'b'
    } else if d == 12 {
        'c'
    } else if d == 13 {
        'd'
    } else if d == 14 {
        'e'
    } else {
        'f'
    }
}

/// Appends the escape of one character (see `yaml_char_escape`).
fn push_yaml_char(out: &mut String, c: char)
    ensures
        final(out)@ == old(out)@ + yaml_char_escape(c),
{
    let n = c as u32;
    if c == '"' {
        crate::text::push_char(out, '\\');
        crate::text::push_char(out, '"');
    } else if c == '\\' {
        crate::text::push_char(out, '\\');
        crate::text::push_char(out, '\\');
    } else if n == 8 {
        crate::text::push_char(out, '\\');
        crate::text::push_char(out, 'b');
    } else if n == 12 {
        crate::text::push_char(out, '\\');
        crate::text::push_char(out, 'f');
    } else if c == '\n' {
        crate::text::push_char(out, '\\');
        crate::text::push_char(out, 'n');
    } else if c == '\r' {
        crate::text::push_char(out, '\\');
        crate::text::push_char(out, 'r');
    } else if c == '\t' {
        crate::text::push_char(out, '\\');
        crate::text::push_char(out, 't');
    } else if n < 32 || (127 <= n && n <= 159) {
        crate::text::push_char(out, '\\');
        crate::text::push_char(out, 'u');
        crate::text::push_char(out, '0');
        crate::text::push_char(out, '0');
        crate::text::push_char(out, hex_char(n / 16));
        crate::text::push_char(out, hex_char(n % 16));
    } else if n == 0xfffe || n == 0xffff {
        crate::text::push_char(out, '\\');
        crate::text::push_char(out, 'u');
        crate::text::push_char(out, 'f');
        crate::text::push_char(out, 'f');
        crate::text::push_char(out, 'f');
        crate::text::push_char(out, hex_char(n % 16));
    } else {
        crate::text::push_char(out, c);
    }
    assert(final(out)@ =~= old(out)@ + yaml_char_escape(c));
}

/// The YAML double-quoted scalar for `s` (see `yaml_string_text`).
pub fn yaml_quote(s: &str) -> (r: String)
    ensures
        r@ == yaml_string_text(s@),
{
    let v = crate::text::chars_of(s);
    let mut out = String::new();
    crate::text::push_char(&mut out, '"');
    let mut i: usize = 0;
    while i < v.len()
        invariant
            v@ == s@,
            i <= v@.len(),
            out@ == seq!['"'] + yaml_escaped(v@.take(i as int)),
        decreases v@.len() - i,
    {
        proof {
            assert(v@.take(i + 1).drop_last() =~= v@.take(i as int));
        }
        push_yaml_char(&mut out, v[i]);
        i += 1;
    }
    crate::text::push_char(&mut out, '"');
    assert(v@.take(v@.len() as int) =~= v@);
    assert(out@ =~= yaml_string_text(s@));
    out
}

/// Appends `label value\n` for a text.
fn push_text_line(out: &mut String, label: &str, v: &str)
    ensures
        final(out)@ == old(out)@ + text_line(label@, v@),
{
    crate::text::push_str(out, label);
    crate::text::push_str(out, yaml_quote(v).as_str());
    crate::text::push_str(out, "\n");
    assert(final(out)@ =~= old(out)@ + text_line(label@, v@));
}

/// Appends `label value\n` for a present optional field.
fn push_opt_line(out: &mut String, label: &str, v: &Option<String>)
    ensures
        final(out)@ == old(out)@ + opt_line(label@, *v),
{
    match v {
        Some(s) => {
            push_text_line(out, label, s.as_str());
        },
        None => {
            assert(old(out)@ + Seq::<char>::empty() =~= old(out)@);
        },
    }
}

/// Appends the line of a list field.
fn push_list_line(out: &mut String, label: &str, items: &Vec<String>)
    ensures
        final(out)@ == old(out)@ + list_line(label@, items@),
{
    if items.len() == 0 {
        assert(old(out)@ + Seq::<char>::empty() =~= old(out)@);
        return;
    }
    let ghost q = quoted_items(items@);
    let mut joined = String::new();
    let mut i: usize = 0;
    while i < items.len()
        invariant
            q == quoted_items(items@),
            q.len() == items@.len(),
            0 <= i <= items@.len(),
            joined@ == join(q.take(i as int), ", "@),
        decreases items@.len() - i,
    {
        let quoted = yaml_quote(items[i].as_str());
        assert(q[i as int] == quoted@);
        let ghost prev = joined@;
        if i > 0 {
            crate::text::push_str(&mut joined, ", ");
        }
        crate::text::push_str(&mut joined, quoted.as_str());
        proof {
            let qi = q.take(i + 1);
            assert(qi.drop_last() =~= q.take(i as int));
            if i == 0 {
                assert(qi =~= seq![quoted@]);
                assert(joined@ =~= quoted@);
            } else {
                assert(joined@ =~= prev + ", "@ + quoted@);
            }
        }
        i += 1;
    }
    assert(q.take(items@.len() as int) =~= q);
    crate::text::push_str(out, label);
    crate::text::push_str(out, "[");
    crate::text::push_str(out, joined.as_str());
    crate::text::push_str(out, "]\n");
    assert(final(out)@ =~= old(out)@ + list_line(label@, items@));
}

/// Appends the `estimatedDurationMinutes:` line.
fn push_duration_line(out: &mut String, v: Option<i32>)
    ensures
        final(out)@ == old(out)@ + duration_line(v),
{
    match v {
        Some(n) => {
            crate::text::push_str(out, "  estimatedDurationMinutes: ");
            crate::text::push_signed_decimal(out, n);
            crate::text::push_str(out, "\n");
            assert(final(out)@ =~= old(out)@ + duration_line(v));
        },
        None => {
            assert(old(out)@ + Seq::<char>::empty() =~= old(out)@);
        },
    }
}

/// Writes the lines naming a deck.
fn write_deck_lines_name(out: &mut String, deck: &SlideDeck)
    ensures
        final(out)@ == old(out)@ + deck_lines_name(*deck),
{
    match &deck.name {
        Some(n) => push_text_line(out, "  name: ", n.as_str()),
        None => push_text_line(out, "  name: ", "Untitled deck"),
    }
    push_opt_line(out, "  slug: ", &deck.slug);
    push_opt_line(out, "  subtitle: ", &deck.subtitle);
    push_opt_line(out, "  description: ", &deck.description);
    assert(final(out)@ =~= old(out)@ + deck_lines_name(*deck));
}

/// Writes the lines presenting a deck.
fn write_deck_lines_summary(out: &mut String, deck: &SlideDeck)
    ensures
        final(out)@ == old(out)@ + deck_lines_summary(*deck),
{
    push_opt_line(out, "  coverUrl: ", &deck.cover_url);
    push_opt_line(out, "  longSummary: ", &deck.long_summary);
    push_list_line(out, "  learningObjectives: ", &deck.learning_objectives);
    push_list_line(out, "  requirements: ", &deck.requirements);
    assert(final(out)@ =~= old(out)@ + deck_lines_summary(*deck));
}

/// Writes the lines on whom a deck is for.
fn write_deck_lines_audience(out: &mut String, deck: &SlideDeck)
    ensures
        final(out)@ == old(out)@ + deck_lines_audience(*deck),
{
    push_list_line(out, "  targetAudience: ", &deck.target_audience);
    push_opt_line(out, "  level: ", &deck.level);
    push_opt_line(out, "  language: ", &deck.language);
    push_opt_line(out, "  instructorName: ", &deck.instructor_name);
    assert(final(out)@ =~= old(out)@ + deck_lines_audience(*deck));
}

/// Writes the closing lines of the `deck:` block.
fn write_deck_lines_state(out: &mut String, deck: &SlideDeck)
    ensures
        final(out)@ == old(out)@ + deck_lines_state(*deck),
{
    push_duration_line(out, deck.estimated_duration_minutes);
    push_list_line(out, "  tags: ", &deck.tags);
    push_text_line(out, "  status: ", deck.status.as_str());
    assert(final(out)@ =~= old(out)@ + deck_lines_state(*deck));
}

/// Writes the `deck:` block of an exported deck.
fn write_deck_block(out: &mut String, deck: &SlideDeck)
    ensures
        final(out)@ == old(out)@ + deck_block(*deck),
{
    crate::text::push_str(out, "deck:\n");
    write_deck_lines_name(out, deck);
    write_deck_lines_summary(out, deck);
    write_deck_lines_audience(out, deck);
    write_deck_lines_state(out, deck);
    assert(final(out)@ =~= old(out)@ + deck_block(*deck));
}

/// Writes the `theme:` block of an exported deck.
fn write_theme_block(out: &mut String, t: &DeckTheme)
    ensures
        final(out)@ == old(out)@ + theme_block(t@),
{
    crate::text::push_str(out, "theme:\n");
    crate::text::push_str(out, "  base: ");
    crate::text::push_str(out, t.base.as_str());
    crate::text::push_str(out, "\n");
    push_text_line(out, "  bg: ", t.bg.as_str());
    push_text_line(out, "  ink: ", t.ink.as_str());
    push_text_line(out, "  accent: ", t.accent.as_str());
    push_text_line(out, "  surface: ", t.surface.as_str());
    push_text_line(out, "  fontDisplay: ", t.font_display.as_str());
    push_text_line(out, "  fontMono: ", t.font_mono.as_str());
    assert(final(out)@ =~= old(out)@ + theme_block(t@));
}

/// Writes the frontmatter block of an exported deck.
fn write_header(deck: &SlideDeck, t: &DeckTheme) -> (out: String)
    ensures
        out@ == export_header(*deck, t@),
{
    let mut out = String::new();
    crate::text::push_str(&mut out, "---\n");
    write_deck_block(&mut out, deck);
    write_theme_block(&mut out, t);
    crate::text::push_str(&mut out, "---\n\n");
    assert(out@ =~= export_header(*deck, t@));
    out
}

} // verus!

verus! {

/// Appends the markdown an element contributes.
fn push_element(out: &mut String, e: &Element)
    ensures
        final(out)@ == old(out)@ + element_text(*e),
{
    let raw = match &e.content {
        None => {
            assert(old(out)@ + Seq::<char>::empty() =~= old(out)@);
            return;
        },
        Some(r) => r,
    };
    let c = crate::text::trim_str(raw.as_str());
    if crate::text::str_is_blank(raw.as_str()) {
        assert(old(out)@ + Seq::<char>::empty() =~= old(out)@);
        return;
    }
    let is_text = crate::text::opt_equals(&e.element_type, "text");
    if is_text && crate::models::slide_deck::coord_le(e.y, 12000, 0x405E_0000_0000_0000u64)
        && crate::models::slide_deck::coord_le(e.x, 13000, 0x4060_4000_0000_0000u64) {
        assert(old(out)@ + Seq::<char>::empty() =~= old(out)@);
        return;
    }
    let st = match &e.style {
        Some(s) => s.clone(),
        None => String::new(),
    };
    if crate::text::opt_equals(&e.element_type, "callout") {
        crate::text::push_str(out, "> ");
        crate::text::push_str(out, c.as_str());
        crate::text::push_str(out, "\n\n");
    } else if (is_text || crate::text::opt_equals(&e.element_type, "paragraph")) && (
    crate::text::str_contains(st.as_str(), "whiteSpace") || crate::text::str_contains(
        st.as_str(),
        "monospace",
    ) || crate::text::str_contains(st.as_str(), "backgroundColor")) {
        crate::text::push_str(out, "```\n");
        crate::text::push_str(out, c.as_str());
        crate::text::push_str(out, "\n```\n\n");
    } else {
        crate::text::push_str(out, c.as_str());
        crate::text::push_str(out, "\n\n");
    }
    assert(final(out)@ =~= old(out)@ + element_text(*e));
}

/// Appends the markdown of one slide.
fn push_slide(out: &mut String, s: &Slide)
    ensures
        final(out)@ == old(out)@ + slide_text(*s),
{
    if s.level == Some(0i32) {
        assert(old(out)@ + Seq::<char>::empty() =~= old(out)@);
        return;
    }
    let ghost els = s.elements@;
    let n = s.elements.len();
    let mut k: usize = 0;
    let mut found: Option<usize> = None;
    while k < n
        invariant
            n == els.len(),
            els == s.elements@,
            k <= n,
            found == (match first_text_in(els, k as int) {
                Some(i) => Some(i as usize),
                None => None::<usize>,
            }),
            forall|i: int| #![auto] first_text_in(els, k as int) == Some(i) ==> 0 <= i < k,
        decreases n - k,
    {
        if found.is_none() && crate::text::opt_equals(&s.elements[k].element_type, "text") {
            found = Some(k);
        }
        k += 1;
    }
    let ghost start = out@;
    match found {
        Some(i) => {
            crate::text::push_str(out, "# ");
            match &s.elements[i].content {
                Some(c) => crate::text::push_str(out, c.as_str()),
                None => {},
            }
            crate::text::push_str(out, "\n\n");
        },
        None => match &s.name {
            Some(nm) => {
                crate::text::push_str(out, "# ");
                crate::text::push_str(out, nm.as_str());
                crate::text::push_str(out, "\n\n");
            },
            None => {},
        },
    }
    assert(out@ =~= start + slide_heading(*s));
    let ghost mid = out@;
    let mut j: usize = 0;
    while j < n
        invariant
            n == els.len(),
            els == s.elements@,
            j <= n,
            out@ == mid + elements_text(els, j as int),
        decreases n - j,
    {
        push_element(out, &s.elements[j]);
        assert(mid + elements_text(els, j + 1) =~= mid + elements_text(els, j as int) + element_text(els[j as int]));
        j += 1;
    }
    assert(final(out)@ =~= old(out)@ + slide_text(*s));
}

/// Writes a stored deck back in the portable document format (the inverse
/// of import). `theme` is the deck's theme tokens: its stored token JSON
/// when that reads as a theme, else the default tokens.
pub fn serialize_deck(deck: &SlideDeck, theme: &DeckTheme) -> (out: String)
    ensures
        out@ == export_text(*deck, theme@),
{
    let mut out = write_header(deck, theme);
    let ghost ss = deck.slides@;
    let ghost head = out@;
    let n = deck.slides.len();
    let mut k: usize = 0;
    while k < n
        invariant
            n == ss.len(),
            ss == deck.slides@,
            head == export_header(*deck, theme@),
            k <= n,
            out@ == head + slides_text(ss, k as int),
        decreases n - k,
    {
        push_slide(&mut out, &deck.slides[k]);
        assert(head + slides_text(ss, k + 1) =~= head + slides_text(ss, k as int) + slide_text(ss[k as int]));
        k += 1;
    }
    out
}


/// Whether a slide is not the cover (the cover has level 0).
pub open spec fn not_cover(s: Slide) -> bool {
    s.level != Some(0i32)
}

/// `slides_text` reads only the first `k` slides.
proof fn lemma_slides_text_prefix(a: Seq<Slide>, b: Seq<Slide>, k: int)
    requires
        0 <= k <= a.len(),
        k <= b.len(),
        forall|i: int| 0 <= i < k ==> a[i] == b[i],
    ensures
        slides_text(a, k) == slides_text(b, k),
    decreases k,
{
    if k > 0 {
        lemma_slides_text_prefix(a, b, k - 1);
    }
}

/// The markdown of a slide list equals that of the list without its cover
/// slides.
proof fn lemma_slides_text_without_covers(ss: Seq<Slide>)
    ensures
        slides_text(ss, ss.len() as int) == slides_text(
            ss.filter(|s: Slide| not_cover(s)),
            ss.filter(|s: Slide| not_cover(s)).len() as int,
        ),
    decreases ss.len(),
{
    reveal(Seq::filter);
    if ss.len() > 0 {
        let pre = ss.drop_last();
        let f = pre.filter(|s: Slide| not_cover(s));
        lemma_slides_text_without_covers(pre);
        lemma_slides_text_prefix(ss, pre, ss.len() - 1);
        if not_cover(ss.last()) {
            lemma_slides_text_prefix(f.push(ss.last()), f, f.len() as int);
        } else {
            assert(slide_text(ss.last()) =~= Seq::<char>::empty());
            assert(slides_text(ss, ss.len() as int) =~= slides_text(pre, pre.len() as int));
        }
    }
}

/// Cover slides (level 0) contribute nothing to an export: the document
/// of a deck equals that of the deck whose slides are the same without its
/// covers, all else equal.
pub proof fn lemma_covers_do_not_export(deck: SlideDeck, without: SlideDeck, t: ThemeView)
    requires
        crate::slide_decks::same_but_slides(without, deck),
        without.slides@ == deck.slides@.filter(|s: Slide| not_cover(s)),
    ensures
        export_text(without, t) == export_text(deck, t),
{
    lemma_slides_text_without_covers(deck.slides@);
    assert(export_header(without, t) == export_header(deck, t));
}


/// Whether an element is the slide's title as the export sees it: a text
/// element whose top-left corner lies in the title zone.
pub open spec fn in_title_zone(e: Element) -> bool {
    opt_text(e.element_type) == Some("text"@) && crate::models::slide_deck::coord_at_most(
        e.y,
        12000,
        title_zone_y_bits(),
    ) && crate::models::slide_deck::coord_at_most(e.x, 13000, title_zone_x_bits())
}

/// The trimmed content of an element that has a non-blank one.
pub open spec fn trimmed_content(e: Element) -> Seq<char> {
    match e.content {
        Some(c) => crate::text::trim(c@),
        None => Seq::empty(),
    }
}

/// An element's content is never lost on export: a non-blank content that
/// is not the slide's title is written (as a callout, a fenced code block
/// or a plain paragraph): a callout as a quote line, a text or paragraph
/// element styled as code as a fenced block, and a paragraph element whose
/// style is not a code style as its trimmed content; each followed by a
/// blank line.
pub proof fn lemma_element_content_exported(e: Element)
    requires
        trimmed_content(e).len() > 0,
        !in_title_zone(e),
    ensures
        crate::text::contains_seq(element_text(e), trimmed_content(e)),
        (opt_text(e.element_type) == Some("paragraph"@) && !code_style(
            match e.style {
                Some(st) => st@,
                None => Seq::<char>::empty(),
            },
        )) ==> element_text(e) == trimmed_content(e) + "\n\n"@,
        opt_text(e.element_type) == Some("callout"@) ==> element_text(e) == "> "@ + trimmed_content(e) + "\n\n"@,
        ((opt_text(e.element_type) == Some("text"@) || opt_text(e.element_type) == Some("paragraph"@)) && code_style(
            match e.style {
                Some(st) => st@,
                None => Seq::<char>::empty(),
            },
        )) ==> element_text(e) == "```\n"@ + trimmed_content(e) + "\n```\n\n"@,
{
    reveal_strlit("paragraph");
    reveal_strlit("callout");
    reveal_strlit("text");
    assert("paragraph"@.len() == 9 && "callout"@.len() == 7 && "text"@.len() == 4);
    assert("paragraph"@ != "callout"@ && "text"@ != "callout"@);
    let c = trimmed_content(e);
    let t = element_text(e);
    if opt_text(e.element_type) == Some("callout"@) {
        crate::text::lemma_contains_middle("> "@, c, "\n\n"@);
    } else if t == "```\n"@ + c + "\n```\n\n"@ {
        crate::text::lemma_contains_middle("```\n"@, c, "\n```\n\n"@);
    } else {
        assert(t == c + "\n\n"@);
        crate::text::lemma_contains_middle(Seq::<char>::empty(), c, "\n\n"@);
        assert(Seq::<char>::empty() + c + "\n\n"@ =~= t);
    }
}

/// The markdown of elements `0..k` contains what element `i < k` writes.
proof fn lemma_elements_text_holds(els: Seq<Element>, k: int, i: int)
    requires
        0 <= i < k <= els.len(),
    ensures
        crate::text::contains_seq(elements_text(els, k), element_text(els[i])),
    decreases k,
{
    if i == k - 1 {
        crate::text::lemma_contains_middle(elements_text(els, k - 1), element_text(els[i]), Seq::empty());
        assert(elements_text(els, k - 1) + element_text(els[i]) + Seq::<char>::empty() =~= elements_text(
            els,
            k,
        ));
    } else {
        lemma_elements_text_holds(els, k - 1, i);
        crate::text::lemma_contains_middle(Seq::empty(), elements_text(els, k - 1), element_text(els[k - 1]));
        assert(Seq::<char>::empty() + elements_text(els, k - 1) + element_text(els[k - 1]) =~= elements_text(
            els,
            k,
        ));
        crate::text::lemma_contains_trans(elements_text(els, k), elements_text(els, k - 1), element_text(els[i]));
    }
}

/// The markdown of slides `0..k` contains what slide `j < k` writes.
proof fn lemma_slides_text_holds(ss: Seq<Slide>, k: int, j: int)
    requires
        0 <= j < k <= ss.len(),
    ensures
        crate::text::contains_seq(slides_text(ss, k), slide_text(ss[j])),
    decreases k,
{
    if j == k - 1 {
        crate::text::lemma_contains_middle(slides_text(ss, k - 1), slide_text(ss[j]), Seq::empty());
        assert(slides_text(ss, k - 1) + slide_text(ss[j]) + Seq::<char>::empty() =~= slides_text(ss, k));
    } else {
        lemma_slides_text_holds(ss, k - 1, j);
        crate::text::lemma_contains_middle(Seq::empty(), slides_text(ss, k - 1), slide_text(ss[k - 1]));
        assert(Seq::<char>::empty() + slides_text(ss, k - 1) + slide_text(ss[k - 1]) =~= slides_text(ss, k));
        crate::text::lemma_contains_trans(slides_text(ss, k), slides_text(ss, k - 1), slide_text(ss[j]));
    }
}

/// Export keeps every content: in the exported document of a deck, each
/// non-blank content of an element that is not its slide's title, on a
/// slide that is not the cover, appears as written.
pub proof fn lemma_export_keeps_contents(deck: SlideDeck, t: ThemeView, j: int, i: int)
    requires
        0 <= j < deck.slides@.len(),
        deck.slides@[j].level != Some(0i32),
        0 <= i < deck.slides@[j].elements@.len(),
        trimmed_content(deck.slides@[j].elements@[i]).len() > 0,
        !in_title_zone(deck.slides@[j].elements@[i]),
    ensures
        crate::text::contains_seq(export_text(deck, t), trimmed_content(deck.slides@[j].elements@[i])),
{
    let s = deck.slides@[j];
    let els = s.elements@;
    let e = els[i];
    lemma_element_content_exported(e);
    lemma_elements_text_holds(els, els.len() as int, i);
    crate::text::lemma_contains_trans(elements_text(els, els.len() as int), element_text(e), trimmed_content(e));
    crate::text::lemma_contains_middle(slide_heading(s), elements_text(els, els.len() as int), Seq::empty());
    assert(slide_heading(s) + elements_text(els, els.len() as int) + Seq::<char>::empty() =~= slide_text(s));
    crate::text::lemma_contains_trans(slide_text(s), elements_text(els, els.len() as int), trimmed_content(e));
    let n = deck.slides@.len() as int;
    lemma_slides_text_holds(deck.slides@, n, j);
    crate::text::lemma_contains_trans(slides_text(deck.slides@, n), slide_text(s), trimmed_content(e));
    crate::text::lemma_contains_middle(export_header(deck, t), slides_text(deck.slides@, n), Seq::empty());
    assert(export_header(deck, t) + slides_text(deck.slides@, n) + Seq::<char>::empty() =~= export_text(deck, t));
    crate::text::lemma_contains_trans(export_text(deck, t), slides_text(deck.slides@, n), trimmed_content(e));
}

/// The theme JSON holds the `base` token: its key, the field's JSON
/// string, and the next delimiter.
proof fn lemma_theme_json_base(t: ThemeView)
    ensures
        crate::text::contains_seq(theme_json_text(t), "{\"base\":"@ + json_string_text(t.base) + ",\"bg\":"@),
{
    let pre = Seq::<char>::empty();
    let suf = json_string_text(t.bg) + ",\"ink\":"@ + json_string_text(t.ink) + ",\"accent\":"@ + json_string_text(t.accent) + ",\"surface\":"@ + json_string_text(t.surface) + ",\"fontDisplay\":"@ + json_string_text(t.font_display) + ",\"fontMono\":"@ + json_string_text(t.font_mono) + "}"@;
    crate::text::lemma_contains_middle(pre, "{\"base\":"@ + json_string_text(t.base) + ",\"bg\":"@, suf);
    assert(theme_json_text(t) =~= pre + ("{\"base\":"@ + json_string_text(t.base) + ",\"bg\":"@) + suf);
}

/// The theme JSON holds the `bg` token: its key, the field's JSON
/// string, and the next delimiter.
proof fn lemma_theme_json_bg(t: ThemeView)
    ensures
        crate::text::contains_seq(theme_json_text(t), ",\"bg\":"@ + json_string_text(t.bg) + ",\"ink\":"@),
{
    let pre = "{\"base\":"@ + json_string_text(t.base);
    let suf = json_string_text(t.ink) + ",\"accent\":"@ + json_string_text(t.accent) + ",\"surface\":"@ + json_string_text(t.surface) + ",\"fontDisplay\":"@ + json_string_text(t.font_display) + ",\"fontMono\":"@ + json_string_text(t.font_mono) + "}"@;
    crate::text::lemma_contains_middle(pre, ",\"bg\":"@ + json_string_text(t.bg) + ",\"ink\":"@, suf);
    assert(theme_json_text(t) =~= pre + (",\"bg\":"@ + json_string_text(t.bg) + ",\"ink\":"@) + suf);
}

/// The theme JSON holds the `ink` token: its key, the field's JSON
/// string, and the next delimiter.
proof fn lemma_theme_json_ink(t: ThemeView)
    ensures
        crate::text::contains_seq(theme_json_text(t), ",\"ink\":"@ + json_string_text(t.ink) + ",\"accent\":"@),
{
    let pre = "{\"base\":"@ + json_string_text(t.base) + ",\"bg\":"@ + json_string_text(t.bg);
    let suf = json_string_text(t.accent) + ",\"surface\":"@ + json_string_text(t.surface) + ",\"fontDisplay\":"@ + json_string_text(t.font_display) + ",\"fontMono\":"@ + json_string_text(t.font_mono) + "}"@;
    crate::text::lemma_contains_middle(pre, ",\"ink\":"@ + json_string_text(t.ink) + ",\"accent\":"@, suf);
    assert(theme_json_text(t) =~= pre + (",\"ink\":"@ + json_string_text(t.ink) + ",\"accent\":"@) + suf);
}

/// The theme JSON holds the `accent` token: its key, the field's JSON
/// string, and the next delimiter.
proof fn lemma_theme_json_accent(t: ThemeView)
    ensures
        crate::text::contains_seq(theme_json_text(t), ",\"accent\":"@ + json_string_text(t.accent) + ",\"surface\":"@),
{
    let pre = "{\"base\":"@ + json_string_text(t.base) + ",\"bg\":"@ + json_string_text(t.bg) + ",\"ink\":"@ + json_string_text(t.ink);
    let suf = json_string_text(t.surface) + ",\"fontDisplay\":"@ + json_string_text(t.font_display) + ",\"fontMono\":"@ + json_string_text(t.font_mono) + "}"@;
    crate::text::lemma_contains_middle(pre, ",\"accent\":"@ + json_string_text(t.accent) + ",\"surface\":"@, suf);
    assert(theme_json_text(t) =~= pre + (",\"accent\":"@ + json_string_text(t.accent) + ",\"surface\":"@) + suf);
}

/// The theme JSON holds the `surface` token: its key, the field's JSON
/// string, and the next delimiter.
proof fn lemma_theme_json_surface(t: ThemeView)
    ensures
        crate::text::contains_seq(theme_json_text(t), ",\"surface\":"@ + json_string_text(t.surface) + ",\"fontDisplay\":"@),
{
    let pre = "{\"base\":"@ + json_string_text(t.base) + ",\"bg\":"@ + json_string_text(t.bg) + ",\"ink\":"@ + json_string_text(t.ink) + ",\"accent\":"@ + json_string_text(t.accent);
    let suf = json_string_text(t.font_display) + ",\"fontMono\":"@ + json_string_text(t.font_mono) + "}"@;
    crate::text::lemma_contains_middle(pre, ",\"surface\":"@ + json_string_text(t.surface) + ",\"fontDisplay\":"@, suf);
    assert(theme_json_text(t) =~= pre + (",\"surface\":"@ + json_string_text(t.surface) + ",\"fontDisplay\":"@) + suf);
}

/// The theme JSON holds the `fontDisplay` token: its key, the field's JSON
/// string, and the next delimiter.
proof fn lemma_theme_json_fontdisplay(t: ThemeView)
    ensures
        crate::text::contains_seq(theme_json_text(t), ",\"fontDisplay\":"@ + json_string_text(t.font_display) + ",\"fontMono\":"@),
{
    let pre = "{\"base\":"@ + json_string_text(t.base) + ",\"bg\":"@ + json_string_text(t.bg) + ",\"ink\":"@ + json_string_text(t.ink) + ",\"accent\":"@ + json_string_text(t.accent) + ",\"surface\":"@ + json_string_text(t.surface);
    let suf = json_string_text(t.font_mono) + "}"@;
    crate::text::lemma_contains_middle(pre, ",\"fontDisplay\":"@ + json_string_text(t.font_display) + ",\"fontMono\":"@, suf);
    assert(theme_json_text(t) =~= pre + (",\"fontDisplay\":"@ + json_string_text(t.font_display) + ",\"fontMono\":"@) + suf);
}

/// The theme JSON holds the `fontMono` token: its key, the field's JSON
/// string, and the next delimiter.
proof fn lemma_theme_json_fontmono(t: ThemeView)
    ensures
        crate::text::contains_seq(theme_json_text(t), ",\"fontMono\":"@ + json_string_text(t.font_mono) + "}"@),
{
    let x = theme_json_text(t);
    let m = ",\"fontMono\":"@ + json_string_text(t.font_mono) + "}"@;
    let i = x.len() - m.len();
    assert(x.subrange(i, x.len() as int) =~= m);
    crate::text::lemma_contains_at(x, m, i);
}

/// The theme JSON written on import holds each token under its own name:
/// for base, bg, ink, accent, surface, fontDisplay and fontMono, the key,
/// that field's JSON string and the next delimiter; and it is one object,
/// opened by `{` and closed by `}`.
pub proof fn lemma_theme_json_members(t: ThemeView)
    ensures
        theme_json_text(t)[0] == '{',
        theme_json_text(t).last() == '}',
        crate::text::contains_seq(theme_json_text(t), "{\"base\":"@ + json_string_text(t.base) + ",\"bg\":"@),
        crate::text::contains_seq(theme_json_text(t), ",\"bg\":"@ + json_string_text(t.bg) + ",\"ink\":"@),
        crate::text::contains_seq(theme_json_text(t), ",\"ink\":"@ + json_string_text(t.ink) + ",\"accent\":"@),
        crate::text::contains_seq(theme_json_text(t), ",\"accent\":"@ + json_string_text(t.accent) + ",\"surface\":"@),
        crate::text::contains_seq(theme_json_text(t), ",\"surface\":"@ + json_string_text(t.surface) + ",\"fontDisplay\":"@),
        crate::text::contains_seq(theme_json_text(t), ",\"fontDisplay\":"@ + json_string_text(t.font_display) + ",\"fontMono\":"@),
        crate::text::contains_seq(theme_json_text(t), ",\"fontMono\":"@ + json_string_text(t.font_mono) + "}"@),
{
    reveal_strlit("{\"base\":");
    reveal_strlit("}");
    lemma_theme_json_base(t);
    lemma_theme_json_bg(t);
    lemma_theme_json_ink(t);
    lemma_theme_json_accent(t);
    lemma_theme_json_surface(t);
    lemma_theme_json_fontdisplay(t);
    lemma_theme_json_fontmono(t);
}

} // verus!
