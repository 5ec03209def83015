//! Slide decks: a deck is an ordered list of slides, each a list of
//! positioned elements on a 1920x1080 canvas.
use vstd::prelude::*;

verus! {

/// A canvas length or position.
///
/// Lengths laid out by this library are exact hundredths of a pixel;
/// lengths read from stored decks are kept as the IEEE-754 bit pattern of
/// the stored number, so that they pass through unchanged.
#[derive(Clone, Copy, PartialEq, Eq, Structural, Debug)]
pub enum Coord {
    Hundredths(u64),
    Float(u64),
}

/// Sign bit of an IEEE-754 double.
pub open spec fn sign_bit() -> nat {
    0x8000_0000_0000_0000
}

/// Bit pattern of positive infinity.
pub open spec fn inf_bits() -> nat {
    0x7FF0_0000_0000_0000
}

/// The double with bit pattern `bits` is at most the positive finite double
/// with bit pattern `limit` (false for NaN).
pub open spec fn float_bits_le(bits: u64, limit: u64) -> bool {
    let negative = bits >= sign_bit();
    let magnitude = if negative {
        bits - sign_bit()
    } else {
        bits as int
    };
    magnitude <= inf_bits() && (negative || bits <= limit)
}

/// `c` is at most the length given in hundredths by `hundredths` and as a
/// double by `limit_bits` (both naming the same number).
pub open spec fn coord_at_most(c: Coord, hundredths: u64, limit_bits: u64) -> bool {
    match c {
        Coord::Hundredths(h) => h <= hundredths,
        Coord::Float(b) => float_bits_le(b, limit_bits),
    }
}

/// Executable `coord_at_most`.
pub fn coord_le(c: Coord, hundredths: u64, limit_bits: u64) -> (b: bool)
    ensures
        b == coord_at_most(c, hundredths, limit_bits),
{
    match c {
        Coord::Hundredths(h) => h <= hundredths,
        Coord::Float(bits) => {
            let negative = bits >= 0x8000_0000_0000_0000u64;
            let magnitude = if negative {
                bits - 0x8000_0000_0000_0000u64
            } else {
                bits
            };
            magnitude <= 0x7FF0_0000_0000_0000u64 && (negative || bits <= limit_bits)
        },
    }
}

/// One element on a slide ("text", "image", "link", "paragraph", "poll",
/// "callout", "input", "choice").
#[derive(Clone, Debug)]
pub struct Element {
    pub id: String,
    pub element_type: Option<String>,
    pub x: Coord,
    pub y: Coord,
    pub width: Coord,
    pub height: Coord,
    pub content: Option<String>,
    pub label: Option<String>,
    /// JSON text with extra styling; poll elements linked to an author
    /// template carry `pollTemplateId` in it.
    pub style: Option<String>,
    pub link_url: Option<String>,
    pub flip_h: Option<bool>,
    pub flip_v: Option<bool>,
}

/// A timed reveal of one element during guided narration.
#[derive(Clone, Debug)]
pub struct RevealCue {
    pub element_id: Option<String>,
    pub at_ms: Option<i32>,
}

/// Recorded narration that reveals a slide's elements over time.
#[derive(Clone, Debug)]
pub struct GuidedReveal {
    pub enabled: Option<bool>,
    pub audio_file_id: Option<String>,
    pub duration_ms: Option<i32>,
    pub cues: Vec<RevealCue>,
    pub recorded_at: Option<String>,
    pub codec: Option<String>,
}

/// One slide of a deck.
#[derive(Clone, Debug)]
pub struct Slide {
    pub id: String,
    /// Page label in the outline.
    pub name: Option<String>,
    pub elements: Vec<Element>,
    /// Colour or image URL.
    pub background: Option<String>,
    /// Outline level: 0 title, 1..3 headings (absent means 0).
    pub level: Option<i32>,
    pub progressive_reveal: Option<bool>,
    pub reveal_order: Option<Vec<String>>,
    pub guided_reveal: Option<GuidedReveal>,
    /// Authoring-tool state, kept as JSON text.
    pub rpp: Option<String>,
}

/// A branch between two slides; `condition` is JSON text.
#[derive(Clone, Debug)]
pub struct FlowEdge {
    pub from_slide_id: Option<String>,
    pub to_slide_id: Option<String>,
    pub condition: String,
    pub label: Option<String>,
    pub priority: Option<i32>,
}

/// A branching playback graph; the free-form parts are JSON text.
#[derive(Clone, Debug)]
pub struct Flow {
    pub start_slide_id: Option<String>,
    pub edges: Vec<FlowEdge>,
    pub node_positions: Option<String>,
    pub layout_mode: Option<String>,
    pub editor_state: Option<String>,
}

/// A narration recording in the deck's library.
#[derive(Clone, Debug)]
pub struct GuidedAudioAsset {
    pub file_id: String,
    pub name: Option<String>,
}

/// A stored deck. Prices are IEEE-754 bit patterns; times are
/// milliseconds since the Unix epoch; the id is the hex form of the
/// document id.
#[derive(Clone, Debug)]
pub struct SlideDeck {
    pub id: Option<String>,
    pub name: Option<String>,
    /// Immutable once published.
    pub slug: Option<String>,
    pub subtitle: Option<String>,
    pub cover_url: Option<String>,
    pub description: Option<String>,
    pub long_summary: Option<String>,
    pub learning_objectives: Vec<String>,
    pub requirements: Vec<String>,
    pub target_audience: Vec<String>,
    pub tags: Vec<String>,
    pub level: Option<String>,
    pub language: Option<String>,
    pub instructor_name: Option<String>,
    pub estimated_duration_minutes: Option<i32>,
    /// "draft" or "published".
    pub status: String,
    pub owner_id: String,
    pub community_id: Option<String>,
    pub event_id: Option<String>,
    pub theme: Option<String>,
    pub transition: Option<String>,
    pub layout_format: Option<String>,
    pub price: Option<u64>,
    pub compare_at_price: Option<u64>,
    /// Absent or `<= 0`: fully locked for readers without access; `> 0`:
    /// slides before it are a free preview.
    pub paywall_start_slide_index: Option<i32>,
    pub slides: Vec<Slide>,
    pub flow: Option<Flow>,
    pub gallery_images: Vec<String>,
    pub guided_audio_library: Vec<GuidedAudioAsset>,
    pub created_at: i64,
    pub updated_at: i64,
}

/// The deck's id as text: its hex id, or empty when it has none.
pub open spec fn id_text(id: Option<String>) -> Seq<char> {
    match id {
        Some(s) => s@,
        None => Seq::empty(),
    }
}

impl SlideDeck {
    /// The deck's id as text (empty before it is stored).
    pub fn id_string(&self) -> (s: String)
        ensures
            s@ == id_text(self.id),
    {
        match &self.id {
            Some(s) => s.clone(),
            None => String::new(),
        }
    }
}

/// The fields of a create or update request (never id, owner or times).
#[derive(Clone, Debug)]
pub struct SlideDeckInput {
    pub name: Option<String>,
    pub slug: Option<String>,
    pub subtitle: Option<String>,
    pub cover_url: Option<String>,
    pub description: Option<String>,
    pub long_summary: Option<String>,
    pub learning_objectives: Vec<String>,
    pub requirements: Vec<String>,
    pub target_audience: Vec<String>,
    pub tags: Vec<String>,
    pub level: Option<String>,
    pub language: Option<String>,
    pub instructor_name: Option<String>,
    pub estimated_duration_minutes: Option<i32>,
    pub status: Option<String>,
    pub community_id: Option<String>,
    pub event_id: Option<String>,
    pub theme: Option<String>,
    pub transition: Option<String>,
    pub layout_format: Option<String>,
    pub price: Option<u64>,
    pub compare_at_price: Option<u64>,
    pub paywall_start_slide_index: Option<i32>,
    pub slides: Vec<Slide>,
    pub flow: Option<Flow>,
    pub gallery_images: Vec<String>,
    pub guided_audio_library: Vec<GuidedAudioAsset>,
}

} // verus!
