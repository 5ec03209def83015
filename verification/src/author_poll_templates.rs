//! Reusable poll templates: their titles and style JSON, the poll
//! elements linked to them, and how a template's style is pushed to those
//! elements.
use vstd::prelude::*;
use crate::models::author_assets::AuthorPollTemplate;
use crate::models::slide_deck::{Element, Slide, SlideDeck};
use crate::outside::{json_is_object, json_member_set, json_rewritten, json_str_member};
use crate::placements::{deck_hits, is_wanted, placement_views, Placement, Target, Wanted};
use crate::text::{is_blank, opt_str, opt_text, trim};

verus! {

/// The body of a create or update request.
#[derive(Clone, Debug)]
pub struct TemplateBody {
    pub title: Option<String>,
    pub poll_style_json: Option<String>,
}

/// The query of an update request: whether linked poll elements take the
/// new style too (yes unless asked otherwise).
#[derive(Clone, Debug)]
pub struct UpdateQuery {
    pub sync_linked: bool,
}

/// `syncLinked` when the query leaves it out.
pub fn default_true() -> (b: bool)
    ensures
        b,
{
    true
}

/// Where a template's style is used: deck, slide (with its position) and
/// poll element.
pub type PollTemplateUsage = Placement;

/// The member of the style JSON that links a poll to its template.
pub open spec fn link_key() -> Seq<char> {
    "pollTemplateId"@
}

/// A text that is present and not blank.
pub open spec fn given_text(o: Option<Seq<char>>) -> Option<Seq<char>> {
    match o {
        Some(t) => if is_blank(t) {
            None
        } else {
            Some(t)
        },
        None => None,
    }
}

/// The style of a template whose own style is missing, blank or no JSON:
/// the empty object, with the link to the template set in it when there is
/// one.
pub open spec fn empty_style_text(id: Option<Seq<char>>) -> Seq<char> {
    match id {
        Some(i) => match json_member_set(crate::outside::empty_object_text(), link_key(), i) {
            Some(t) => t,
            None => Seq::empty(),
        },
        None => "{}"@,
    }
}

/// A style JSON rewritten compactly, with `pollTemplateId` set to the
/// (non-blank) template id when the style is an object; a missing, blank
/// or unreadable style counts as the empty object.
pub open spec fn normalized_style(style: Option<Seq<char>>, template_id: Option<Seq<char>>) -> Seq<char> {
    let id = given_text(template_id);
    let rewritten = match given_text(style) {
        Some(s) => match id {
            Some(i) => json_member_set(s, link_key(), i),
            None => json_rewritten(s),
        },
        None => None,
    };
    match rewritten {
        Some(t) => t,
        None => empty_style_text(id),
    }
}

/// The style JSON a template (or a poll linked to it) stores; see
/// `normalized_style`. With a non-blank template id, the id reads back from
/// the result as its `pollTemplateId` member (what `extract_poll_template_id`
/// returns) whenever the style is missing, blank, no JSON or a JSON object;
/// a style that is other JSON comes back only rewritten.
pub fn normalize_style_json(style_json: Option<&str>, template_id: Option<&str>) -> (s: String)
    ensures
        s@ == normalized_style(opt_str(style_json), opt_str(template_id)),
        given_text(opt_str(template_id)) matches Some(i) ==> json_str_member(s@, link_key()) == Some(i) || (
        given_text(opt_str(style_json)) matches Some(st) && !json_is_object(st) && json_rewritten(st) == Some(s@)),
        (given_text(opt_str(template_id)) matches Some(i) && match given_text(opt_str(style_json)) {
            Some(st) => json_is_object(st),
            None => true,
        }) ==> json_str_member(s@, link_key()) == Some(given_text(opt_str(template_id))->0),
{
    let id: Option<&str> = match template_id {
        Some(i) => if crate::text::str_is_blank(i) {
            None
        } else {
            Some(i)
        },
        None => None,
    };
    proof {
        reveal_strlit("pollTemplateId");
    }
    let rewritten = match style_json {
        Some(st) => if crate::text::str_is_blank(st) {
            None
        } else {
            match id {
                Some(i) => crate::outside::set_json_member(st, "pollTemplateId", i),
                None => crate::outside::rewrite_json(st),
            }
        },
        None => None,
    };
    match rewritten {
        Some(t) => t,
        None => match id {
            Some(i) => {
                proof {
                    reveal_strlit("{}");
                }
                assert("{}"@ =~= crate::outside::empty_object_text());
                match crate::outside::set_json_member("{}", "pollTemplateId", i) {
                    Some(t) => t,
                    None => String::new(),
                }
            },
            None => crate::text::owned("{}"),
        },
    }
}

/// The template id a style JSON links to (its string member
/// `pollTemplateId`), if any.
pub fn extract_poll_template_id(style_json: Option<&str>) -> (r: Option<String>)
    ensures
        opt_text(r) == match style_json {
            Some(s) => json_str_member(s@, link_key()),
            None => None,
        },
{
    proof {
        reveal_strlit("pollTemplateId");
    }
    match style_json {
        Some(s) => crate::outside::read_json_str_member(s, "pollTemplateId"),
        None => None,
    }
}

/// The title a request sets: trimmed, and only when something remains.
pub open spec fn requested_title(title: Option<String>) -> Option<Seq<char>> {
    match title {
        Some(t) => if trim(t@).len() == 0 {
            None
        } else {
            Some(trim(t@))
        },
        None => None,
    }
}

/// The trimmed title of a request, when something remains.
fn requested_title_of(title: &Option<String>) -> (r: Option<String>)
    ensures
        opt_text(r) == requested_title(*title),
{
    match title {
        Some(t) => {
            let tt = crate::text::trim_str(t.as_str());
            if crate::text::chars_of(tt.as_str()).len() == 0 {
                None
            } else {
                Some(tt)
            }
        },
        None => None,
    }
}

/// A new template of `owner_id` from a create request: the requested title
/// or "Poll Template", and the normalized style (not yet linked to an id).
pub fn new_template(owner_id: &str, body: &TemplateBody, now: i64) -> (t: AuthorPollTemplate)
    ensures
        t.id is None,
        t.owner_id@ == owner_id@,
        t.title@ == match requested_title(body.title) {
            Some(x) => x,
            None => "Poll Template"@,
        },
        opt_text(t.poll_style_json) == Some(normalized_style(opt_text(body.poll_style_json), None)),
        t.created_at == now,
        t.updated_at == now,
{
    let title = match requested_title_of(&body.title) {
        Some(x) => x,
        None => crate::text::owned("Poll Template"),
    };
    let style_arg: Option<&str> = match &body.poll_style_json {
        Some(s) => Some(s.as_str()),
        None => None,
    };
    let style = normalize_style_json(style_arg, None);
    AuthorPollTemplate {
        id: None,
        owner_id: crate::text::owned(owner_id),
        title,
        poll_style_json: Some(style),
        created_at: now,
        updated_at: now,
    }
}

/// A template after an update request: the title replaced when one is
/// requested, the style normalized and linked to `template_id`, the time
/// bumped; id, owner and creation time kept.
pub fn update_template(existing: AuthorPollTemplate, body: &TemplateBody, template_id: &str, now: i64) -> (t:
    AuthorPollTemplate)
    ensures
        t.id == existing.id,
        t.owner_id == existing.owner_id,
        t.created_at == existing.created_at,
        match requested_title(body.title) {
            Some(x) => t.title@ == x,
            None => t.title == existing.title,
        },
        opt_text(t.poll_style_json) == Some(
            normalized_style(opt_text(body.poll_style_json), Some(template_id@)),
        ),
        t.updated_at == now,
{
    let mut t = existing;
    match requested_title_of(&body.title) {
        Some(x) => {
            t.title = x;
        },
        None => {},
    }
    let style_arg: Option<&str> = match &body.poll_style_json {
        Some(s) => Some(s.as_str()),
        None => None,
    };
    t.poll_style_json = Some(normalize_style_json(style_arg, Some(template_id)));
    t.updated_at = now;
    t
}

/// Every poll element across `decks` linked to `template_id`: decks in
/// order, slides in order, elements in order.
pub fn template_usage(decks: &Vec<SlideDeck>, template_id: &str) -> (v: Vec<PollTemplateUsage>)
    ensures
        placement_views(v@) == deck_hits(decks@, decks@.len() as int, Target::LinkedPoll(template_id@)),
{
    let w = Wanted::LinkedPoll(crate::text::owned(template_id));
    crate::placements::scan_decks(decks, &w)
}

// ---------------------------------------------------------------------------
// Pushing a template's style to its linked polls
// ---------------------------------------------------------------------------

/// `after` is `before` with, when `before` is a poll linked to `id`, its
/// style replaced by `style`.
pub open spec fn synced(after: Element, before: Element, id: Seq<char>, style: Seq<char>) -> bool {
    if is_wanted(before, Target::LinkedPoll(id)) {
        &&& opt_text(after.style) == Some(style)
        &&& after.id == before.id && after.element_type == before.element_type
        &&& after.x == before.x && after.y == before.y
        &&& after.width == before.width && after.height == before.height
        &&& after.content == before.content && after.label == before.label
        &&& after.link_url == before.link_url
        &&& after.flip_h == before.flip_h && after.flip_v == before.flip_v
    } else {
        after == before
    }
}

/// Number of the first `n` elements that are polls linked to `id`.
pub open spec fn linked_in(els: Seq<Element>, n: int, id: Seq<char>) -> nat
    decreases n,
{
    if n <= 0 {
        0
    } else {
        linked_in(els, n - 1, id) + if is_wanted(els[n - 1], Target::LinkedPoll(id)) {
            1nat
        } else {
            0nat
        }
    }
}

/// Number of polls linked to `id` on the first `n` slides.
pub open spec fn linked_total(slides: Seq<Slide>, n: int, id: Seq<char>) -> nat
    decreases n,
{
    if n <= 0 {
        0
    } else {
        linked_total(slides, n - 1, id) + linked_in(
            slides[n - 1].elements@,
            slides[n - 1].elements@.len() as int,
            id,
        )
    }
}

/// Number of elements on the first `n` slides.
pub open spec fn total_elements(slides: Seq<Slide>, n: int) -> nat
    decreases n,
{
    if n <= 0 {
        0
    } else {
        total_elements(slides, n - 1) + slides[n - 1].elements@.len()
    }
}

/// `after` is slide `before` with every poll linked to `id` restyled.
pub open spec fn slide_synced(after: Slide, before: Slide, id: Seq<char>, style: Seq<char>) -> bool {
    &&& after.id == before.id && after.name == before.name
    &&& after.background == before.background && after.level == before.level
    &&& after.progressive_reveal == before.progressive_reveal
    &&& after.reveal_order == before.reveal_order
    &&& after.guided_reveal == before.guided_reveal && after.rpp == before.rpp
    &&& after.elements@.len() == before.elements@.len()
    &&& forall|k: int|
        0 <= k < after.elements@.len() ==> synced(
            #[trigger] after.elements@[k],
            before.elements@[k],
            id,
            style,
        )
}

/// `a` and `b` agree on every field but the slides and the update time.
pub open spec fn same_but_slides_and_time(a: SlideDeck, b: SlideDeck) -> bool {
    &&& a.id == b.id && a.name == b.name && a.slug == b.slug && a.subtitle == b.subtitle
    &&& a.cover_url == b.cover_url && a.description == b.description
    &&& a.long_summary == b.long_summary && a.learning_objectives == b.learning_objectives
    &&& a.requirements == b.requirements && a.target_audience == b.target_audience
    &&& a.tags == b.tags && a.level == b.level && a.language == b.language
    &&& a.instructor_name == b.instructor_name
    &&& a.estimated_duration_minutes == b.estimated_duration_minutes && a.status == b.status
    &&& a.owner_id == b.owner_id && a.community_id == b.community_id && a.event_id == b.event_id
    &&& a.theme == b.theme && a.transition == b.transition && a.layout_format == b.layout_format
    &&& a.price == b.price && a.compare_at_price == b.compare_at_price
    &&& a.paywall_start_slide_index == b.paywall_start_slide_index && a.flow == b.flow
    &&& a.gallery_images == b.gallery_images && a.guided_audio_library == b.guided_audio_library
    &&& a.created_at == b.created_at
}

/// At most `n` of the first `n` elements are linked polls.
proof fn lemma_linked_in_bound(els: Seq<Element>, n: int, id: Seq<char>)
    requires
        n >= 0,
    ensures
        linked_in(els, n, id) <= n,
    decreases n,
{
    if n > 0 {
        lemma_linked_in_bound(els, n - 1, id);
    }
}

/// An element restyled when it is a poll linked to `id`; the flag says
/// whether it was.
fn sync_element(e: Element, id: &str, style: &str) -> (r: (Element, bool))
    ensures
        r.1 == is_wanted(e, Target::LinkedPoll(id@)),
        synced(r.0, e, id@, style@),
{
    let w = Wanted::LinkedPoll(crate::text::owned(id));
    if crate::placements::element_wanted(&e, &w) {
        (Element { style: Some(crate::text::owned(style)), ..e }, true)
    } else {
        (e, false)
    }
}

/// A slide with every poll linked to `id` restyled, and how many were.
fn sync_slide(s: Slide, id: &str, style: &str) -> (r: (Slide, usize))
    ensures
        slide_synced(r.0, s, id@, style@),
        r.1 == linked_in(s.elements@, s.elements@.len() as int, id@),
{
    let ghost given = s;
    let mut s = s;
    let mut els: Vec<Element> = Vec::new();
    std::mem::swap(&mut els, &mut s.elements);
    let ghost all = els@;
    let total = els.len();
    let mut out: Vec<Element> = Vec::new();
    let mut count: usize = 0;
    for e in it: els
        invariant
            it.seq() == all,
            total == all.len(),
            all == given.elements@,
            out@.len() == it.index(),
            count == linked_in(all, it.index() as int, id@),
            forall|k: int| 0 <= k < it.index() ==> synced(#[trigger] out@[k], all[k], id@, style@),
    {
        let ghost k = it.index();
        assert(all[k as int] == e);
        proof {
            lemma_linked_in_bound(all, k as int, id@);
        }
        let (ne, hit) = sync_element(e, id, style);
        if hit {
            count = count + 1;
        }
        out.push(ne);
    }
    s.elements = out;
    (s, count)
}

/// Every poll of `deck` linked to `template_id` takes the style `style`;
/// the deck's update time becomes `now` when any did. Returns how many
/// did.
pub fn sync_deck_polls(deck: &mut SlideDeck, template_id: &str, style: &str, now: i64) -> (changed: usize)
    requires
        total_elements(old(deck).slides@, old(deck).slides@.len() as int) <= usize::MAX,
    ensures
        changed == linked_total(old(deck).slides@, old(deck).slides@.len() as int, template_id@),
        same_but_slides_and_time(*final(deck), *old(deck)),
        final(deck).slides@.len() == old(deck).slides@.len(),
        forall|i: int|
            0 <= i < final(deck).slides@.len() ==> slide_synced(
                #[trigger] final(deck).slides@[i],
                old(deck).slides@[i],
                template_id@,
                style@,
            ),
        final(deck).updated_at == if changed > 0 {
            now
        } else {
            old(deck).updated_at
        },
{
    let ghost before = *deck;
    let mut slides: Vec<Slide> = Vec::new();
    std::mem::swap(&mut slides, &mut deck.slides);
    let ghost all = slides@;
    let mut out: Vec<Slide> = Vec::new();
    let mut changed: usize = 0;
    for s in it: slides
        invariant
            it.seq() == all,
            all == before.slides@,
            total_elements(all, all.len() as int) <= usize::MAX,
            out@.len() == it.index(),
            changed == linked_total(all, it.index() as int, template_id@),
            changed <= total_elements(all, it.index() as int),
            forall|k: int|
                0 <= k < it.index() ==> slide_synced(#[trigger] out@[k], all[k], template_id@, style@),
    {
        let ghost k = it.index();
        assert(all[k as int] == s);
        proof {
            lemma_linked_in_bound(s.elements@, s.elements@.len() as int, template_id@);
            lemma_total_elements_grows(all, k + 1, all.len() as int);
        }
        let (ns, n) = sync_slide(s, template_id, style);
        changed = changed + n;
        out.push(ns);
    }
    deck.slides = out;
    if changed > 0 {
        deck.updated_at = now;
    }
    changed
}

/// Counting more slides counts no fewer elements.
proof fn lemma_total_elements_grows(slides: Seq<Slide>, a: int, b: int)
    requires
        0 <= a <= b,
    ensures
        total_elements(slides, a) <= total_elements(slides, b),
    decreases b - a,
{
    if a < b {
        lemma_total_elements_grows(slides, a, b - 1);
    }
}

/// The elements of one slide the usage scan reports are the ones a sync
/// restyles.
proof fn lemma_element_hits_count(d: SlideDeck, i: int, s: Slide, n: int, id: Seq<char>)
    ensures
        crate::placements::element_hits(d, i, s, n, Target::LinkedPoll(id)).len() == linked_in(
            s.elements@,
            n,
            id,
        ),
    decreases n,
{
    if n > 0 {
        lemma_element_hits_count(d, i, s, n - 1, id);
    }
}

/// A sync restyles exactly as many polls of a deck as the usage report
/// lists for that deck.
pub proof fn lemma_sync_matches_usage(d: SlideDeck, id: Seq<char>, n: int)
    requires
        0 <= n <= d.slides@.len(),
    ensures
        crate::placements::slide_hits(d, n, Target::LinkedPoll(id)).len() == linked_total(d.slides@, n, id),
    decreases n,
{
    if n > 0 {
        lemma_sync_matches_usage(d, id, n - 1);
        let s = d.slides@[n - 1];
        lemma_element_hits_count(d, n - 1, s, s.elements@.len() as int, id);
    }
}

} // verus!
