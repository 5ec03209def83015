//! Where an author's reusable things (images, poll templates) are placed
//! across their decks.
use vstd::prelude::*;
use crate::models::slide_deck::{id_text, Element, Slide, SlideDeck};
use crate::outside::json_str_member;
use crate::text::{opt_text, trim};

verus! {

/// One element of one slide of one deck.
#[derive(Clone, Debug)]
pub struct Placement {
    pub deck_id: String,
    pub deck_name: Option<String>,
    pub slide_id: String,
    /// Position of the slide in the deck.
    pub slide_index: i32,
    pub element_id: String,
}

/// The abstract value of a placement.
pub struct PlacementView {
    pub deck_id: Seq<char>,
    pub deck_name: Option<Seq<char>>,
    pub slide_id: Seq<char>,
    pub slide_index: i32,
    pub element_id: Seq<char>,
}

impl View for Placement {
    type V = PlacementView;

    open spec fn view(&self) -> PlacementView {
        PlacementView {
            deck_id: self.deck_id@,
            deck_name: opt_text(self.deck_name),
            slide_id: self.slide_id@,
            slide_index: self.slide_index,
            element_id: self.element_id@,
        }
    }
}

/// The abstract values of a sequence of placements.
pub open spec fn placement_views(v: Seq<Placement>) -> Seq<PlacementView> {
    v.map_values(|p: Placement| p@)
}

/// What a scan looks for.
#[derive(Clone, Debug)]
pub enum Wanted {
    /// Image elements whose trimmed content is this (already trimmed) URL;
    /// an element without content counts as empty.
    Image(String),
    /// Poll elements whose style JSON links them to this template id.
    LinkedPoll(String),
}

/// The trimmed content of an element (empty when it has none).
pub open spec fn content_key(content: Option<String>) -> Seq<char> {
    match content {
        Some(c) => trim(c@),
        None => Seq::empty(),
    }
}

/// The template id a poll style links to: the string member
/// `pollTemplateId` of the style JSON.
pub open spec fn linked_template(style: Option<String>) -> Option<Seq<char>> {
    match style {
        Some(s) => json_str_member(s@, "pollTemplateId"@),
        None => None,
    }
}

/// The abstract value of what a scan looks for.
pub enum Target {
    Image(Seq<char>),
    LinkedPoll(Seq<char>),
}

impl View for Wanted {
    type V = Target;

    open spec fn view(&self) -> Target {
        match self {
            Wanted::Image(url) => Target::Image(url@),
            Wanted::LinkedPoll(id) => Target::LinkedPoll(id@),
        }
    }
}

/// Whether element `e` is one a scan for `w` reports.
pub open spec fn is_wanted(e: Element, w: Target) -> bool {
    match w {
        Target::Image(url) => opt_text(e.element_type) == Some("image"@) && content_key(e.content)
            == url,
        Target::LinkedPoll(id) => opt_text(e.element_type) == Some("poll"@) && linked_template(
            e.style,
        ) == Some(id),
    }
}

/// The placement of element `e` of slide `s` (at index `i`) of deck `d`.
pub open spec fn place(d: SlideDeck, i: int, s: Slide, e: Element) -> PlacementView {
    PlacementView {
        deck_id: id_text(d.id),
        deck_name: opt_text(d.name),
        slide_id: s.id@,
        slide_index: i as i32,
        element_id: e.id@,
    }
}

/// The hits among the first `n` elements of slide `s` (index `i`) of `d`.
pub open spec fn element_hits(d: SlideDeck, i: int, s: Slide, n: int, w: Target) -> Seq<PlacementView>
    decreases n,
{
    if n <= 0 {
        Seq::empty()
    } else {
        let e = s.elements@[n - 1];
        element_hits(d, i, s, n - 1, w) + if is_wanted(e, w) {
            seq![place(d, i, s, e)]
        } else {
            Seq::empty()
        }
    }
}

/// The hits among the first `n` slides of `d`.
pub open spec fn slide_hits(d: SlideDeck, n: int, w: Target) -> Seq<PlacementView>
    decreases n,
{
    if n <= 0 {
        Seq::empty()
    } else {
        let s = d.slides@[n - 1];
        slide_hits(d, n - 1, w) + element_hits(d, n - 1, s, s.elements@.len() as int, w)
    }
}

/// The hits among the first `n` decks: decks in order, slides in order,
/// elements in order.
pub open spec fn deck_hits(ds: Seq<SlideDeck>, n: int, w: Target) -> Seq<PlacementView>
    decreases n,
{
    if n <= 0 {
        Seq::empty()
    } else {
        deck_hits(ds, n - 1, w) + slide_hits(ds[n - 1], ds[n - 1].slides@.len() as int, w)
    }
}

/// Whether element `e` is one a scan for `w` reports.
pub fn element_wanted(e: &Element, w: &Wanted) -> (b: bool)
    ensures
        b == is_wanted(*e, w@),
{
    match w {
        Wanted::Image(url) => {
            if !crate::text::opt_equals(&e.element_type, "image") {
                return false;
            }
            proof {
                reveal_strlit("image");
            }
            let key = match &e.content {
                Some(c) => crate::text::trim_str(c.as_str()),
                None => String::new(),
            };
            crate::text::str_equals(key.as_str(), url.as_str())
        },
        Wanted::LinkedPoll(id) => {
            if !crate::text::opt_equals(&e.element_type, "poll") {
                return false;
            }
            let linked = match &e.style {
                Some(st) => crate::outside::read_json_str_member(st.as_str(), "pollTemplateId"),
                None => None,
            };
            match linked {
                Some(t) => crate::text::str_equals(t.as_str(), id.as_str()),
                None => false,
            }
        },
    }
}

/// Appends the hits among the elements of slide `s` (index `i`) of `d`.
fn scan_elements(out: &mut Vec<Placement>, d: &SlideDeck, i: usize, s: &Slide, w: &Wanted)
    requires
        i < d.slides@.len(),
    ensures
        placement_views(final(out)@) == placement_views(old(out)@) + element_hits(
            *d,
            i as int,
            *s,
            s.elements@.len() as int,
            w@,
        ),
{
    let ghost start = placement_views(out@);
    let n = s.elements.len();
    let mut k: usize = 0;
    assert(start + element_hits(*d, i as int, *s, 0, w@) =~= start);
    while k < n
        invariant
            n == s.elements@.len(),
            k <= n,
            placement_views(out@) == start + element_hits(*d, i as int, *s, k as int, w@),
        decreases n - k,
    {
        let e = &s.elements[k];
        let ghost before = out@;
        if element_wanted(e, w) {
            let p = Placement {
                deck_id: d.id_string(),
                deck_name: crate::text::copy_opt(&d.name),
                slide_id: s.id.clone(),
                slide_index: i as i32,
                element_id: e.id.clone(),
            };
            out.push(p);
            assert(placement_views(out@) =~= placement_views(before) + seq![place(*d, i as int, *s, *e)]);
        }
        proof {
            let hits = element_hits(*d, i as int, *s, k + 1, w@);
            assert(hits == element_hits(*d, i as int, *s, k as int, w@) + if is_wanted(*e, w@) {
                seq![place(*d, i as int, *s, *e)]
            } else {
                Seq::empty()
            });
            assert(start + hits =~= start + element_hits(*d, i as int, *s, k as int, w@) + if is_wanted(
                *e,
                w@,
            ) {
                seq![place(*d, i as int, *s, *e)]
            } else {
                Seq::empty()
            });
        }
        k += 1;
    }
}

/// Appends the hits among the slides of `d`.
fn scan_slides(out: &mut Vec<Placement>, d: &SlideDeck, w: &Wanted)
    ensures
        placement_views(final(out)@) == placement_views(old(out)@) + slide_hits(
            *d,
            d.slides@.len() as int,
            w@,
        ),
{
    let ghost start = placement_views(out@);
    let n = d.slides.len();
    let mut i: usize = 0;
    assert(start + slide_hits(*d, 0, w@) =~= start);
    while i < n
        invariant
            n == d.slides@.len(),
            i <= n,
            placement_views(out@) == start + slide_hits(*d, i as int, w@),
        decreases n - i,
    {
        let s = &d.slides[i];
        let ghost mid = placement_views(out@);
        scan_elements(out, d, i, s, w);
        proof {
            assert(slide_hits(*d, i + 1, w@) == slide_hits(*d, i as int, w@) + element_hits(
                *d,
                i as int,
                *s,
                s.elements@.len() as int,
                w@,
            ));
            assert(start + slide_hits(*d, i + 1, w@) =~= mid + element_hits(
                *d,
                i as int,
                *s,
                s.elements@.len() as int,
                w@,
            ));
        }
        i += 1;
    }
}

/// Every placement across `decks` of what `w` looks for: decks in order,
/// slides in order, elements in order.
pub fn scan_decks(decks: &Vec<SlideDeck>, w: &Wanted) -> (out: Vec<Placement>)
    ensures
        placement_views(out@) == deck_hits(decks@, decks@.len() as int, w@),
{
    let mut out: Vec<Placement> = Vec::new();
    let n = decks.len();
    let mut k: usize = 0;
    assert(placement_views(out@) =~= deck_hits(decks@, 0, w@));
    while k < n
        invariant
            n == decks@.len(),
            k <= n,
            placement_views(out@) == deck_hits(decks@, k as int, w@),
        decreases n - k,
    {
        let d = &decks[k];
        scan_slides(&mut out, d, w);
        k += 1;
    }
    out
}

} // verus!
