//! Per-author editor preferences for one deck.
use vstd::prelude::*;

verus! {

/// Grid and padding-guide settings of the deck editor. Times are
/// milliseconds since the Unix epoch; the id is the hex form of the
/// document id.
#[derive(Clone, Debug)]
pub struct SlideEditorPrefs {
    pub id: Option<String>,
    pub deck_id: String,
    pub user_id: String,
    pub show_grid: bool,
    /// coarse | medium | fine
    pub grid_density: String,
    pub show_padding_guides: bool,
    pub snap_to_grid: bool,
    pub padding_top: i32,
    pub padding_right: i32,
    pub padding_bottom: i32,
    pub padding_left: i32,
    pub created_at: i64,
    pub updated_at: i64,
}

/// The default grid density.
pub open spec fn default_density() -> Seq<char> {
    "medium"@
}

/// Default padding on every side, in pixels.
pub open spec fn default_padding() -> i32 {
    64
}

impl SlideEditorPrefs {
    /// The preferences an author has before changing any: no grid, medium
    /// density, no guides, no snapping, 64px padding on every side.
    pub fn default_for(deck_id: &str, user_id: &str, now: i64) -> (p: Self)
        ensures
            p.id is None,
            p.deck_id@ == deck_id@,
            p.user_id@ == user_id@,
            !p.show_grid && !p.show_padding_guides && !p.snap_to_grid,
            p.grid_density@ == default_density(),
            p.padding_top == default_padding() && p.padding_right == default_padding(),
            p.padding_bottom == default_padding() && p.padding_left == default_padding(),
            p.created_at == now && p.updated_at == now,
    {
        SlideEditorPrefs {
            id: None,
            deck_id: crate::text::owned(deck_id),
            user_id: crate::text::owned(user_id),
            show_grid: false,
            grid_density: crate::text::owned("medium"),
            show_padding_guides: false,
            snap_to_grid: false,
            padding_top: 64,
            padding_right: 64,
            padding_bottom: 64,
            padding_left: 64,
            created_at: now,
            updated_at: now,
        }
    }
}

} // verus!
