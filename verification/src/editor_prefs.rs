//! Editor preferences: grid density is one of three names, paddings stay
//! within 0..=400 pixels.
use vstd::prelude::*;
use crate::text::trim;
use crate::outside::lowered;
use crate::models::editor_prefs::SlideEditorPrefs;

verus! {

/// The grid density a request asks for: its trimmed, lowercased value when
/// that is `coarse`, `medium` or `fine`, else `medium`.
pub open spec fn density_of(density: Option<Seq<char>>) -> Seq<char> {
    match density {
        Some(d) => {
            let l = lowered(trim(d));
            if l == "coarse"@ || l == "medium"@ || l == "fine"@ {
                l
            } else {
                "medium"@
            }
        },
        None => "medium"@,
    }
}

/// Normalises a requested grid density.
pub fn normalize_grid_density(density: Option<&str>) -> (s: String)
    ensures
        s@ == density_of(
            match density {
                Some(d) => Some(d@),
                None => None,
            },
        ),
{
    match density {
        Some(d) => {
            let t = crate::text::trim_str(d);
            let l = crate::outside::to_lowercase(t.as_str());
            if crate::text::str_equals(l.as_str(), "coarse") || crate::text::str_equals(l.as_str(), "medium")
                || crate::text::str_equals(l.as_str(), "fine") {
                l
            } else {
                crate::text::owned("medium")
            }
        },
        None => crate::text::owned("medium"),
    }
}

/// A padding clamped to `0..=400` pixels.
pub open spec fn clamped(value: int) -> int {
    if value < 0 {
        0
    } else if value > 400 {
        400
    } else {
        value
    }
}

/// Clamps a requested padding to `0..=400` pixels.
pub fn clamp_padding(value: i32) -> (r: i32)
    ensures
        r == clamped(value as int),
        0 <= r <= 400,
{
    if value < 0 {
        0
    } else if value > 400 {
        400
    } else {
        value
    }
}

/// The body of an editor-preferences update.
#[derive(Clone, Debug)]
pub struct UpdateEditorPrefsRequest {
    pub show_grid: bool,
    pub grid_density: Option<String>,
    pub show_padding_guides: bool,
    pub snap_to_grid: bool,
    pub padding_top: i32,
    pub padding_right: i32,
    pub padding_bottom: i32,
    pub padding_left: i32,
}

/// Applies an update: the switches as given, the density normalised, the
/// paddings clamped, the update time set.
pub fn apply_prefs_update(prefs: SlideEditorPrefs, body: UpdateEditorPrefsRequest, now: i64) -> (p: SlideEditorPrefs)
    ensures
        p.id == prefs.id && p.deck_id == prefs.deck_id && p.user_id == prefs.user_id,
        p.created_at == prefs.created_at && p.updated_at == now,
        p.show_grid == body.show_grid && p.show_padding_guides == body.show_padding_guides,
        p.snap_to_grid == body.snap_to_grid,
        p.grid_density@ == density_of(crate::text::opt_text(body.grid_density)),
        p.padding_top == clamped(body.padding_top as int),
        p.padding_right == clamped(body.padding_right as int),
        p.padding_bottom == clamped(body.padding_bottom as int),
        p.padding_left == clamped(body.padding_left as int),
{
    let density = match &body.grid_density {
        Some(d) => normalize_grid_density(Some(d.as_str())),
        None => normalize_grid_density(None),
    };
    SlideEditorPrefs {
        id: prefs.id,
        deck_id: prefs.deck_id,
        user_id: prefs.user_id,
        show_grid: body.show_grid,
        grid_density: density,
        show_padding_guides: body.show_padding_guides,
        snap_to_grid: body.snap_to_grid,
        padding_top: clamp_padding(body.padding_top),
        padding_right: clamp_padding(body.padding_right),
        padding_bottom: clamp_padding(body.padding_bottom),
        padding_left: clamp_padding(body.padding_left),
        created_at: prefs.created_at,
        updated_at: now,
    }
}

/// A clamped padding is in range and clamping it again changes nothing.
pub proof fn lemma_clamp_idempotent(value: int)
    ensures
        0 <= clamped(value) <= 400,
        clamped(clamped(value)) == clamped(value),
{
}

/// The stored grid density is always `coarse`, `medium` or `fine`.
pub proof fn lemma_density_known(density: Option<Seq<char>>)
    ensures
        density_of(density) == "coarse"@ || density_of(density) == "medium"@ || density_of(density)
            == "fine"@,
{
}

/// Density names match in any ASCII case once trimmed: a request whose
/// trimmed text is ASCII gives `coarse`, `medium` or `fine` when it equals
/// that name ignoring ASCII case, and `medium` otherwise.
pub proof fn lemma_density_ignores_ascii_case(d: Seq<char>)
    requires
        crate::outside::is_ascii_text(trim(d)),
    ensures
        density_of(Some(d)) == (if crate::text::eq_ignore_ascii_case(trim(d), "coarse"@) {
            "coarse"@
        } else if crate::text::eq_ignore_ascii_case(trim(d), "fine"@) {
            "fine"@
        } else {
            "medium"@
        }),
{
    reveal_strlit("coarse");
    reveal_strlit("medium");
    reveal_strlit("fine");
    let t = trim(d);
    crate::text::lemma_ascii_lowered_eq(t, "coarse"@);
    crate::text::lemma_ascii_lowered_eq(t, "medium"@);
    crate::text::lemma_ascii_lowered_eq(t, "fine"@);
}

} // verus!
