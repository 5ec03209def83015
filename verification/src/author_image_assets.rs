//! An author's personal image library: the URLs kept, and where each is
//! used across the author's decks.
use vstd::prelude::*;
use crate::models::author_assets::AuthorImageAsset;
use crate::models::slide_deck::SlideDeck;
use crate::placements::{deck_hits, placement_views, Placement, Target, Wanted};
use crate::text::trim;

verus! {

/// The body of an "add to library" request (a missing URL reads as empty).
#[derive(Clone, Debug)]
pub struct AddAssetRequest {
    pub file_url: String,
}

/// The `fileUrl` query of a remove or usage request.
#[derive(Clone, Debug)]
pub struct FileUrlQuery {
    pub file_url: String,
}

/// Where a library image is shown: deck, slide (with its position) and
/// element.
pub type ImageUsage = Placement;

/// The library key of a URL: the URL without surrounding white space.
pub fn normalize(url: &str) -> (s: String)
    ensures
        s@ == trim(url@),
{
    crate::text::trim_str(url)
}

/// The asset to store when an author adds `file_url` to their library:
/// the one already kept for that URL with its time bumped (to save), or a
/// new one (to insert). The flag says whether it is new.
pub fn record_asset(existing: Option<AuthorImageAsset>, owner_id: &str, file_url: &str, now: i64) -> (r: (
    AuthorImageAsset,
    bool,
))
    ensures
        r.0.updated_at == now,
        match existing {
            Some(e) => {
                &&& !r.1
                &&& r.0.id == e.id && r.0.owner_id == e.owner_id && r.0.file_url == e.file_url
                &&& r.0.created_at == e.created_at
            },
            None => {
                &&& r.1
                &&& r.0.id is None
                &&& r.0.owner_id@ == owner_id@
                &&& r.0.file_url@ == trim(file_url@)
                &&& r.0.created_at == now
            },
        },
{
    match existing {
        Some(e) => (AuthorImageAsset { updated_at: now, ..e }, false),
        None => (
            AuthorImageAsset {
                id: None,
                owner_id: crate::text::owned(owner_id),
                file_url: normalize(file_url),
                created_at: now,
                updated_at: now,
            },
            true,
        ),
    }
}

/// Every image element across `decks` whose trimmed content is the
/// trimmed `file_url` (an element without content counts as empty):
/// decks in order, slides in order, elements in order.
pub fn image_usage(decks: &Vec<SlideDeck>, file_url: &str) -> (v: Vec<ImageUsage>)
    ensures
        placement_views(v@) == deck_hits(decks@, decks@.len() as int, Target::Image(trim(file_url@))),
{
    let w = Wanted::Image(normalize(file_url));
    crate::placements::scan_decks(decks, &w)
}

} // verus!
