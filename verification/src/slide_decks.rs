//! Rules of the slide-deck endpoints: slugs, publishing, the paywall
//! preview, the public curriculum and who may read or edit a deck.
use vstd::prelude::*;
use crate::text::{is_ascii_alnum, is_ascii_hex, is_blank, trim, opt_text, decimal, eq_ignore_ascii_case};
use crate::outside::lowered;
use crate::models::slide_deck::{Slide, SlideDeck, SlideDeckInput, GuidedAudioAsset, Element};

verus! {

// ---------------------------------------------------------------------------
// Slugs
// ---------------------------------------------------------------------------

/// Characters a slug keeps; every other character separates words.
pub open spec fn slug_keeps(c: char) -> bool {
    is_ascii_alnum(c) || c == '-'
}

/// The words of `s` (maximal runs of kept characters) joined by `-`,
/// together with whether a separator follows the last kept character.
pub open spec fn slug_fold(s: Seq<char>) -> (Seq<char>, bool)
    decreases s.len(),
{
    if s.len() == 0 {
        (Seq::empty(), false)
    } else {
        let (out, gap) = slug_fold(s.drop_last());
        let c = s.last();
        if slug_keeps(c) {
            if gap && out.len() > 0 {
                (out + seq!['-', c], false)
            } else {
                (out.push(c), false)
            }
        } else {
            (out, true)
        }
    }
}

/// The slug of an already lowercased title: its words joined by `-`, or
/// nothing when it has no words.
pub open spec fn slug_of_lower(lower: Seq<char>) -> Option<Seq<char>> {
    let out = slug_fold(lower).0;
    if out.len() == 0 {
        None
    } else {
        Some(out)
    }
}

/// The slug of a title: trimmed, lowercased, reduced to its words.
pub open spec fn slug_of(input: Option<Seq<char>>) -> Option<Seq<char>> {
    match input {
        None => None,
        Some(s) => if trim(s).len() == 0 {
            None
        } else {
            slug_of_lower(lowered(trim(s)))
        },
    }
}

/// Turns a lowercased title into a URL slug (see `slug_of_lower`).
pub fn slug_from_lower(lower: &str) -> (r: Option<String>)
    ensures
        opt_text(r) == slug_of_lower(lower@),
{
    let v = crate::text::chars_of(lower);
    let mut out = String::new();
    let mut gap = false;
    let mut has_word = false;
    let mut k: usize = 0;
    while k < v.len()
        invariant
            v@ == lower@,
            k <= v@.len(),
            (out@, gap) == slug_fold(v@.take(k as int)),
            has_word == (out@.len() > 0),
        decreases v@.len() - k,
    {
        let c = v[k];
        proof {
            assert(v@.take(k + 1).drop_last() =~= v@.take(k as int));
        }
        let keep = ('0' <= c && c <= '9') || ('a' <= c && c <= 'z') || ('A' <= c && c <= 'Z') || c == '-';
        if keep {
            if gap && has_word {
                crate::text::push_char(&mut out, '-');
                crate::text::push_char(&mut out, c);
                assert(out@ =~= slug_fold(v@.take(k as int)).0 + seq!['-', c]);
            } else {
                crate::text::push_char(&mut out, c);
            }
            gap = false;
            has_word = true;
        } else {
            gap = true;
        }
        k += 1;
    }
    assert(v@.take(v@.len() as int) =~= v@);
    if !has_word {
        None
    } else {
        Some(out)
    }
}

/// Whether a string is empty (by its characters).
fn is_empty_text(s: &String) -> (b: bool)
    ensures
        b == (s@.len() == 0),
{
    crate::text::chars_of(s.as_str()).len() == 0
}

/// The URL slug of an optional title: trimmed, lowercased, every run of
/// characters other than ASCII letters, digits and `-` turned into one `-`
/// between words; nothing when no word remains. A slug is made of
/// lowercase ASCII letters, digits and `-`, and is its own slug.
pub fn slugify(input: Option<&str>) -> (r: Option<String>)
    ensures
        opt_text(r) == slug_of(match input {
            Some(s) => Some(s@),
            None => None,
        }),
        r matches Some(s) ==> forall|k: int| 0 <= k < s@.len() ==> lower_slug_char(#[trigger] s@[k]),
        r matches Some(s) ==> slug_of(Some(s@)) == Some(s@),
{
    let s = match input {
        Some(s) => s,
        None => {
            return None;
        },
    };
    let t = crate::text::trim_str(s);
    if is_empty_text(&t) {
        return None;
    }
    let lower = crate::outside::to_lowercase(t.as_str());
    proof {
        lemma_slug_fold_lower(lower@);
    }
    let r = slug_from_lower(lower.as_str());
    proof {
        if r is Some {
            lemma_plain_slug_is_its_own(r->0@);
        }
    }
    r
}

/// Whether a value looks like a document id: 24 hexadecimal digits.
pub open spec fn is_object_id(s: Seq<char>) -> bool {
    s.len() == 24 && forall|k: int| 0 <= k < s.len() ==> is_ascii_hex(#[trigger] s[k])
}

/// Whether a value looks like a document id.
pub fn looks_like_object_id(value: &str) -> (b: bool)
    ensures
        b == is_object_id(value@),
{
    let v = crate::text::chars_of(value);
    v.len() == 24 && crate::text::all_ascii_hex(&v)
}

/// The `n`-th slug to try for `base`: `base` itself first, then `base-2`,
/// `base-3`, ...
pub open spec fn slug_candidate_text(base: Seq<char>, attempt: nat) -> Seq<char> {
    if attempt <= 1 {
        base
    } else {
        base + "-"@ + decimal(attempt)
    }
}

/// The `attempt`-th slug to try for `base`.
pub fn slug_candidate(base: &str, attempt: u64) -> (s: String)
    ensures
        s@ == slug_candidate_text(base@, attempt as nat),
{
    let mut s = crate::text::owned(base);
    if attempt > 1 {
        crate::text::push_str(&mut s, "-");
        crate::text::push_decimal(&mut s, attempt);
    }
    s
}

/// What to do after looking a slug candidate up.
#[derive(Clone, Copy, PartialEq, Eq, Structural, Debug)]
pub enum SlugStep {
    /// The candidate is free (or already this deck's own): use it.
    Use,
    /// Another deck holds it: try the next candidate.
    TryNext,
}

/// The decision for a candidate slug, given the id of the deck that holds
/// it (if any) and the id of the deck being saved (if any).
pub open spec fn slug_step_spec(holder: Option<Seq<char>>, self_id: Option<Seq<char>>) -> SlugStep {
    match holder {
        None => SlugStep::Use,
        Some(h) => if self_id == Some(h) {
            SlugStep::Use
        } else {
            SlugStep::TryNext
        },
    }
}

/// Decides about a candidate slug from who holds it.
pub fn slug_step(holder: Option<&str>, self_id: Option<&str>) -> (r: SlugStep)
    ensures
        r == slug_step_spec(
            match holder {
                Some(h) => Some(h@),
                None => None,
            },
            match self_id {
                Some(s) => Some(s@),
                None => None,
            },
        ),
{
    match holder {
        None => SlugStep::Use,
        Some(h) => match self_id {
            Some(s) => if crate::text::str_equals(s, h) {
                SlugStep::Use
            } else {
                SlugStep::TryNext
            },
            None => SlugStep::TryNext,
        },
    }
}

/// The text a slug is derived from while a deck is editable: the incoming
/// slug when it is not blank, else the title.
pub open spec fn editable_slug_source(name: Option<Seq<char>>, incoming: Option<Seq<char>>) -> Option<Seq<char>> {
    match incoming {
        Some(s) => if trim(s).len() > 0 {
            Some(trim(s))
        } else {
            name
        },
        None => name,
    }
}

/// The base slug of an editable deck (before making it unique).
pub fn editable_slug_base(name: Option<&str>, incoming: Option<&str>) -> (r: Option<String>)
    ensures
        opt_text(r) == slug_of(
            editable_slug_source(
                match name {
                    Some(s) => Some(s@),
                    None => None,
                },
                match incoming {
                    Some(s) => Some(s@),
                    None => None,
                },
            ),
        ),
{
    match incoming {
        Some(s) => {
            let t = crate::text::trim_str(s);
            if !is_empty_text(&t) {
                proof {
                    crate::text::lemma_trim_ends(s@);
                }
                return slugify(Some(t.as_str()));
            }
        },
        None => {},
    }
    slugify(name)
}

/// The base slug of a deck being published: its current slug re-slugged
/// when it has one, else its title's slug, else `book`.
pub open spec fn published_slug_base_text(slug: Option<Seq<char>>, name: Option<Seq<char>>) -> Seq<char> {
    let current = match slug {
        Some(s) => if trim(s).len() > 0 {
            Some(trim(s))
        } else {
            None
        },
        None => None,
    };
    let derived = match current {
        Some(c) => slug_of(Some(c)),
        None => slug_of(name),
    };
    match derived {
        Some(d) => d,
        None => "book"@,
    }
}

/// The base slug of a deck being published (before making it unique).
pub fn published_slug_base(slug: Option<&str>, name: Option<&str>) -> (r: String)
    ensures
        r@ == published_slug_base_text(
            match slug {
                Some(s) => Some(s@),
                None => None,
            },
            match name {
                Some(s) => Some(s@),
                None => None,
            },
        ),
{
    let derived = match slug {
        Some(s) => {
            let t = crate::text::trim_str(s);
            if !is_empty_text(&t) {
                proof {
                    crate::text::lemma_trim_ends(s@);
                }
                slugify(Some(t.as_str()))
            } else {
                slugify(name)
            }
        },
        None => slugify(name),
    };
    match derived {
        Some(d) => d,
        None => crate::text::owned("book"),
    }
}

} // verus!

verus! {

// ---------------------------------------------------------------------------
// Publishing
// ---------------------------------------------------------------------------

/// Why a deck may not be published (or its slug changed).
#[derive(Clone, Copy, PartialEq, Eq, Structural, Debug)]
pub enum PublishError {
    /// A published deck needs a title.
    TitleRequired,
    /// A published deck needs a cover.
    CoverRequired,
    /// A published deck needs a short description.
    DescriptionRequired,
    /// The URL slug of a published deck cannot change.
    SlugLocked,
}

impl PublishError {
    /// The message the service answers with.
    pub fn message(&self) -> (s: String)
        ensures
            s@ == publish_error_text(*self),
    {
        match self {
            PublishError::TitleRequired => crate::text::owned("Judul wajib diisi sebelum publish"),
            PublishError::CoverRequired => crate::text::owned("Cover wajib diisi sebelum publish"),
            PublishError::DescriptionRequired => crate::text::owned(
                "Deskripsi singkat wajib diisi sebelum publish",
            ),
            PublishError::SlugLocked => crate::text::owned("URL slug tidak bisa diubah setelah publish"),
        }
    }
}

/// The message of a publish error.
pub open spec fn publish_error_text(e: PublishError) -> Seq<char> {
    match e {
        PublishError::TitleRequired => "Judul wajib diisi sebelum publish"@,
        PublishError::CoverRequired => "Cover wajib diisi sebelum publish"@,
        PublishError::DescriptionRequired => "Deskripsi singkat wajib diisi sebelum publish"@,
        PublishError::SlugLocked => "URL slug tidak bisa diubah setelah publish"@,
    }
}

/// An optional text that is absent or blank.
pub open spec fn missing(o: Option<String>) -> bool {
    match o {
        Some(s) => is_blank(s@),
        None => true,
    }
}

/// A status naming the published state (in any ASCII case).
pub open spec fn names_published(s: Seq<char>) -> bool {
    eq_ignore_ascii_case(s, "published"@)
}

/// The outcome of checking the publish fields of `input` for a deck whose
/// status will be `status`: a published deck needs a title, a cover and a
/// description, tested in that order.
pub open spec fn fields_check(status: Seq<char>, input: SlideDeckInput) -> Result<(), PublishError> {
    if !names_published(status) {
        Ok(())
    } else if missing(input.name) {
        Err(PublishError::TitleRequired)
    } else if missing(input.cover_url) {
        Err(PublishError::CoverRequired)
    } else if missing(input.description) {
        Err(PublishError::DescriptionRequired)
    } else {
        Ok(())
    }
}

/// The outcome of checking a create request: the publish fields, for the
/// status the new deck gets.
pub open spec fn publish_check(input: SlideDeckInput) -> Result<(), PublishError> {
    fields_check(initial_status_text(input.status), input)
}

/// Whether an optional text is absent or blank.
fn is_missing(o: &Option<String>) -> (b: bool)
    ensures
        b == missing(*o),
{
    match o {
        Some(s) => crate::text::str_is_blank(s.as_str()),
        None => true,
    }
}

/// Whether a status names the published state.
pub fn is_published(status: &str) -> (b: bool)
    ensures
        b == names_published(status@),
{
    crate::text::str_eq_ignore_ascii_case(status, "published")
}

/// Checks the publish fields of `input` for a deck whose status will be
/// `status`.
fn check_fields(status: &str, input: &SlideDeckInput) -> (r: Result<(), PublishError>)
    ensures
        r == fields_check(status@, *input),
{
    if !is_published(status) {
        return Ok(());
    }
    if is_missing(&input.name) {
        return Err(PublishError::TitleRequired);
    }
    if is_missing(&input.cover_url) {
        return Err(PublishError::CoverRequired);
    }
    if is_missing(&input.description) {
        return Err(PublishError::DescriptionRequired);
    }
    Ok(())
}

/// A create request that publishes a deck must carry a title, a cover and
/// a description.
pub fn validate_publish_fields(input: &SlideDeckInput) -> (r: Result<(), PublishError>)
    ensures
        r == publish_check(*input),
{
    match &input.status {
        Some(s) => if crate::text::str_is_blank(s.as_str()) {
            check_fields("draft", input)
        } else {
            check_fields(s.as_str(), input)
        },
        None => check_fields("draft", input),
    }
}

/// A slug that is present and not blank, trimmed.
pub open spec fn given_slug(o: Option<String>) -> Option<Seq<char>> {
    match o {
        Some(s) => if trim(s@).len() > 0 {
            Some(trim(s@))
        } else {
            None
        },
        None => None,
    }
}

/// The outcome of checking an update of `existing` with `input`: a
/// published deck keeps its slug (case aside), then the publish fields
/// are checked for the status the deck will have after the update.
pub open spec fn update_check(existing: SlideDeck, input: SlideDeckInput) -> Result<(), PublishError> {
    let locked = names_published(existing.status@) && match (given_slug(input.slug), given_slug(existing.slug)) {
        (Some(a), Some(b)) => !eq_ignore_ascii_case(a, b),
        _ => false,
    };
    if locked {
        Err(PublishError::SlugLocked)
    } else {
        fields_check(updated_status(existing.status@, input.status), input)
    }
}

/// The trimmed form of a present, non-blank text.
fn given_text(o: &Option<String>) -> (r: Option<String>)
    ensures
        opt_text(r) == given_slug(*o),
{
    match o {
        Some(s) => {
            let t = crate::text::trim_str(s.as_str());
            if is_empty_text(&t) {
                None
            } else {
                Some(t)
            }
        },
        None => None,
    }
}

/// Checks an update before anything changes: a published deck's slug is
/// immutable, and a deck that the update leaves published (its status as
/// it will be stored) needs the required fields.
pub fn check_update(existing: &SlideDeck, input: &SlideDeckInput) -> (r: Result<(), PublishError>)
    ensures
        r == update_check(*existing, *input),
{
    if is_published(existing.status.as_str()) {
        match (given_text(&input.slug), given_text(&existing.slug)) {
            (Some(a), Some(b)) => {
                if !crate::text::str_eq_ignore_ascii_case(a.as_str(), b.as_str()) {
                    return Err(PublishError::SlugLocked);
                }
            },
            _ => {},
        }
    }
    match &input.status {
        Some(s) => if crate::text::str_is_blank(s.as_str()) {
            check_fields(existing.status.as_str(), input)
        } else {
            let t = crate::text::trim_str(s.as_str());
            let l = crate::outside::to_lowercase(t.as_str());
            check_fields(l.as_str(), input)
        },
        None => check_fields(existing.status.as_str(), input),
    }
}

} // verus!

verus! {

// ---------------------------------------------------------------------------
// Creating and updating
// ---------------------------------------------------------------------------

/// The status a new deck gets: the requested one when it is not blank,
/// else `draft`.
pub open spec fn initial_status_text(status: Option<String>) -> Seq<char> {
    match status {
        Some(s) => if is_blank(s@) {
            "draft"@
        } else {
            s@
        },
        None => "draft"@,
    }
}

/// The status a new deck gets.
pub fn initial_status(status: Option<String>) -> (s: String)
    ensures
        s@ == initial_status_text(status),
{
    match status {
        Some(s) => if crate::text::str_is_blank(s.as_str()) {
            crate::text::owned("draft")
        } else {
            s
        },
        None => crate::text::owned("draft"),
    }
}

/// `d` is the deck a create request makes: owned by the caller (never by
/// an id the request names), with the resolved slug, the initial status
/// and the creation time as both times; every other field as requested.
pub open spec fn made_from(d: SlideDeck, input: SlideDeckInput, owner_id: String, slug: Option<String>, now: i64) -> bool {
    &&& d.id is None
    &&& d.owner_id == owner_id
    &&& d.slug == slug
    &&& d.status@ == initial_status_text(input.status)
    &&& d.name == input.name && d.subtitle == input.subtitle && d.cover_url == input.cover_url
    &&& d.description == input.description && d.long_summary == input.long_summary
    &&& d.learning_objectives == input.learning_objectives && d.requirements == input.requirements
    &&& d.target_audience == input.target_audience && d.tags == input.tags
    &&& d.level == input.level && d.language == input.language
    &&& d.instructor_name == input.instructor_name
    &&& d.estimated_duration_minutes == input.estimated_duration_minutes
    &&& d.community_id == input.community_id && d.event_id == input.event_id
    &&& d.theme == input.theme && d.transition == input.transition
    &&& d.layout_format == input.layout_format
    &&& d.price == input.price && d.compare_at_price == input.compare_at_price
    &&& d.paywall_start_slide_index == input.paywall_start_slide_index
    &&& d.slides == input.slides && d.flow == input.flow
    &&& d.gallery_images == input.gallery_images
    &&& d.guided_audio_library == input.guided_audio_library
    &&& d.created_at == now && d.updated_at == now
}

/// A new deck from a create request (see `made_from`).
pub fn new_deck(input: SlideDeckInput, owner_id: String, slug: Option<String>, now: i64) -> (d: SlideDeck)
    ensures
        made_from(d, input, owner_id, slug, now),
{
    let status = initial_status(input.status);
    SlideDeck {
        id: None,
        name: input.name,
        slug,
        subtitle: input.subtitle,
        cover_url: input.cover_url,
        description: input.description,
        long_summary: input.long_summary,
        learning_objectives: input.learning_objectives,
        requirements: input.requirements,
        target_audience: input.target_audience,
        tags: input.tags,
        level: input.level,
        language: input.language,
        instructor_name: input.instructor_name,
        estimated_duration_minutes: input.estimated_duration_minutes,
        status,
        owner_id,
        community_id: input.community_id,
        event_id: input.event_id,
        theme: input.theme,
        transition: input.transition,
        layout_format: input.layout_format,
        price: input.price,
        compare_at_price: input.compare_at_price,
        paywall_start_slide_index: input.paywall_start_slide_index,
        slides: input.slides,
        flow: input.flow,
        gallery_images: input.gallery_images,
        guided_audio_library: input.guided_audio_library,
        created_at: now,
        updated_at: now,
    }
}

/// A create request checked and turned into a deck: the publish-field
/// error for the status the deck would get, else the deck `made_from`
/// describes.
pub fn prepare_new_deck(input: SlideDeckInput, owner_id: String, slug: Option<String>, now: i64) -> (r: Result<SlideDeck, PublishError>)
    ensures
        match r {
            Ok(d) => publish_check(input) is Ok && made_from(d, input, owner_id, slug, now),
            Err(e) => publish_check(input) == Err::<(), PublishError>(e),
        },
{
    match validate_publish_fields(&input) {
        Ok(()) => Ok(new_deck(input, owner_id, slug, now)),
        Err(e) => Err(e),
    }
}

/// A deck that a create request makes after passing the check, and that is
/// published, has a title, a cover and a description.
pub proof fn lemma_created_published_has_fields(
    d: SlideDeck,
    input: SlideDeckInput,
    owner_id: String,
    slug: Option<String>,
    now: i64,
)
    requires
        publish_check(input) is Ok,
        made_from(d, input, owner_id, slug, now),
        names_published(d.status@),
    ensures
        !missing(d.name),
        !missing(d.cover_url),
        !missing(d.description),
{
}

/// The narration assets of `v` whose file id is not blank, in order.
pub open spec fn named_audio(v: Seq<GuidedAudioAsset>) -> Seq<GuidedAudioAsset>
    decreases v.len(),
{
    if v.len() == 0 {
        Seq::empty()
    } else {
        let rest = named_audio(v.drop_last());
        if is_blank(v.last().file_id@) {
            rest
        } else {
            rest.push(v.last())
        }
    }
}

/// The status an update leaves: the requested one trimmed and lowercased
/// when it is not blank, else the current one.
pub open spec fn updated_status(current: Seq<char>, requested: Option<String>) -> Seq<char> {
    match requested {
        Some(s) => if is_blank(s@) {
            current
        } else {
            lowered(trim(s@))
        },
        None => current,
    }
}

/// Whether an update must (re)establish a unique published slug: the deck
/// ends up published and either was already or this request publishes it.
pub open spec fn needs_published_slug(existing: SlideDeck, input: SlideDeckInput) -> bool {
    names_published(updated_status(existing.status@, input.status)) && (names_published(existing.status@)
        || match input.status {
        Some(s) => names_published(s@),
        None => false,
    })
}

/// Keeps the narration assets whose file id is not blank.
fn keep_named_audio(v: Vec<GuidedAudioAsset>) -> (r: Vec<GuidedAudioAsset>)
    ensures
        r@ == named_audio(v@),
{
    let ghost all = v@;
    let mut r: Vec<GuidedAudioAsset> = Vec::new();
    for a in it: v
        invariant
            it.seq() == all,
            r@ == named_audio(all.take(it.index() as int)),
    {
        let ghost k = it.index();
        proof {
            assert(all.take(k + 1).drop_last() =~= all.take(k as int));
            assert(all.take(k + 1).last() == a);
        }
        if !crate::text::str_is_blank(a.file_id.as_str()) {
            r.push(a);
        }
    }
    assert(all.take(all.len() as int) =~= all);
    r
}

/// `d` is `existing` updated with `input`: a published deck keeps its slug,
/// another takes `editable_slug`; the status as `updated_status` says; the
/// narration assets without a file id dropped; id, owner, layout format
/// and times kept; every other field as requested.
pub open spec fn updated_from(d: SlideDeck, existing: SlideDeck, input: SlideDeckInput, editable_slug: Option<String>) -> bool {
    &&& d.slug == (if names_published(existing.status@) {
        existing.slug
    } else {
        editable_slug
    })
    &&& d.status@ == updated_status(existing.status@, input.status)
    &&& d.guided_audio_library@ == named_audio(input.guided_audio_library@)
    &&& d.id == existing.id && d.owner_id == existing.owner_id
    &&& d.layout_format == existing.layout_format
    &&& d.created_at == existing.created_at && d.updated_at == existing.updated_at
    &&& d.name == input.name && d.subtitle == input.subtitle && d.cover_url == input.cover_url
    &&& d.description == input.description && d.long_summary == input.long_summary
    &&& d.learning_objectives == input.learning_objectives
    &&& d.requirements == input.requirements
    &&& d.target_audience == input.target_audience && d.tags == input.tags
    &&& d.level == input.level && d.language == input.language
    &&& d.instructor_name == input.instructor_name
    &&& d.estimated_duration_minutes == input.estimated_duration_minutes
    &&& d.slides == input.slides && d.community_id == input.community_id
    &&& d.event_id == input.event_id && d.theme == input.theme
    &&& d.transition == input.transition && d.price == input.price
    &&& d.compare_at_price == input.compare_at_price
    &&& d.paywall_start_slide_index == input.paywall_start_slide_index
    &&& d.flow == input.flow && d.gallery_images == input.gallery_images
}

/// Applies an update request to a stored deck (after `check_update`
/// passed; see `updated_from`). `editable_slug` is the unique slug
/// resolved for a deck that was not published. Also says whether the
/// caller must then make the published slug unique.
pub fn apply_update(existing: SlideDeck, input: SlideDeckInput, editable_slug: Option<String>) -> (r: (
    SlideDeck,
    bool,
))
    ensures
        r.1 == needs_published_slug(existing, input),
        updated_from(r.0, existing, input, editable_slug),
{
    let was_published = is_published(existing.status.as_str());
    let incoming_published = match &input.status {
        Some(s) => is_published(s.as_str()),
        None => false,
    };
    let status = match &input.status {
        Some(s) => if crate::text::str_is_blank(s.as_str()) {
            existing.status
        } else {
            let t = crate::text::trim_str(s.as_str());
            crate::outside::to_lowercase(t.as_str())
        },
        None => existing.status,
    };
    let now_published = is_published(status.as_str());
    let slug = if was_published {
        existing.slug
    } else {
        editable_slug
    };
    let audio = keep_named_audio(input.guided_audio_library);
    let d = SlideDeck {
        id: existing.id,
        name: input.name,
        slug,
        subtitle: input.subtitle,
        cover_url: input.cover_url,
        description: input.description,
        long_summary: input.long_summary,
        learning_objectives: input.learning_objectives,
        requirements: input.requirements,
        target_audience: input.target_audience,
        tags: input.tags,
        level: input.level,
        language: input.language,
        instructor_name: input.instructor_name,
        estimated_duration_minutes: input.estimated_duration_minutes,
        status,
        owner_id: existing.owner_id,
        community_id: input.community_id,
        event_id: input.event_id,
        theme: input.theme,
        transition: input.transition,
        layout_format: existing.layout_format,
        price: input.price,
        compare_at_price: input.compare_at_price,
        paywall_start_slide_index: input.paywall_start_slide_index,
        slides: input.slides,
        flow: input.flow,
        gallery_images: input.gallery_images,
        guided_audio_library: audio,
        created_at: existing.created_at,
        updated_at: existing.updated_at,
    };
    (d, now_published && (was_published || incoming_published))
}

/// An update that passed `check_update` never leaves a published deck
/// without a title, a cover or a description.
pub proof fn lemma_updated_published_has_fields(
    d: SlideDeck,
    existing: SlideDeck,
    input: SlideDeckInput,
    editable_slug: Option<String>,
)
    requires
        update_check(existing, input) is Ok,
        updated_from(d, existing, input, editable_slug),
        names_published(d.status@),
    ensures
        !missing(d.name),
        !missing(d.cover_url),
        !missing(d.description),
{
}

} // verus!

verus! {

// ---------------------------------------------------------------------------
// The paywall
// ---------------------------------------------------------------------------

/// Where the preview of a deck ends for a reader without access: the
/// paywall index when it is positive, else the start (no index, or one
/// at or below zero, locks the whole deck); no cut when that is not inside
/// the deck, which is then free.
pub open spec fn preview_cut(deck: SlideDeck) -> Option<int> {
    let start: int = match deck.paywall_start_slide_index {
        Some(s) => if s > 0 {
            s as int
        } else {
            0
        },
        None => 0,
    };
    if start < deck.slides@.len() {
        Some(start)
    } else {
        None
    }
}

/// `r` is slide `s` with its content withheld: same id, background and
/// level; no name, elements, reveal settings or authoring state.
pub open spec fn redacted(r: Slide, s: Slide) -> bool {
    &&& r.id == s.id
    &&& r.name is None
    &&& r.elements@.len() == 0
    &&& r.background == s.background
    &&& r.level == s.level
    &&& r.progressive_reveal is None
    &&& r.reveal_order is None
    &&& r.guided_reveal is None
    &&& r.rpp is None
}

/// `a` and `b` agree on every field but the slides and the paywall index.
pub open spec fn same_but_slides(a: SlideDeck, b: SlideDeck) -> bool {
    &&& a.id == b.id && a.name == b.name && a.slug == b.slug && a.subtitle == b.subtitle
    &&& a.cover_url == b.cover_url && a.description == b.description
    &&& a.long_summary == b.long_summary && a.learning_objectives == b.learning_objectives
    &&& a.requirements == b.requirements && a.target_audience == b.target_audience
    &&& a.tags == b.tags && a.level == b.level && a.language == b.language
    &&& a.instructor_name == b.instructor_name
    &&& a.estimated_duration_minutes == b.estimated_duration_minutes && a.status == b.status
    &&& a.owner_id == b.owner_id && a.community_id == b.community_id && a.event_id == b.event_id
    &&& a.theme == b.theme && a.transition == b.transition && a.layout_format == b.layout_format
    &&& a.price == b.price && a.compare_at_price == b.compare_at_price && a.flow == b.flow
    &&& a.gallery_images == b.gallery_images && a.guided_audio_library == b.guided_audio_library
    &&& a.created_at == b.created_at && a.updated_at == b.updated_at
}

/// `p` is the preview of `deck` a reader without access gets: with a cut,
/// the slides from the cut on are redacted and the cut is reported; with
/// none (the cut would fall at or past the end), the deck is whole and
/// reports no paywall.
pub open spec fn is_preview(p: SlideDeck, deck: SlideDeck) -> bool {
    &&& same_but_slides(p, deck)
    &&& match preview_cut(deck) {
        None => p.slides == deck.slides && p.paywall_start_slide_index is None,
        Some(cut) => {
            &&& p.paywall_start_slide_index == Some(cut as i32)
            &&& p.slides@.len() == deck.slides@.len()
            &&& forall|i: int| 0 <= i < cut ==> #[trigger] p.slides@[i] == deck.slides@[i]
            &&& forall|i: int| cut <= i < p.slides@.len() ==> redacted(#[trigger] p.slides@[i], deck.slides@[i])
        },
    }
}

/// A slide with its content withheld.
fn redact(s: Slide) -> (r: Slide)
    ensures
        redacted(r, s),
{
    Slide {
        id: s.id,
        name: None,
        elements: Vec::new(),
        background: s.background,
        level: s.level,
        progressive_reveal: None,
        reveal_order: None,
        guided_reveal: None,
        rpp: None,
    }
}

/// The deck a reader without access sees (see `is_preview`).
pub fn paywall_preview(deck: SlideDeck) -> (p: SlideDeck)
    ensures
        is_preview(p, deck),
{
    let ghost given = deck;
    let mut d = deck;
    let total = d.slides.len();
    let start: usize = match d.paywall_start_slide_index {
        Some(s) => if s > 0 {
            s as usize
        } else {
            0
        },
        None => 0,
    };
    if start >= total {
        d.paywall_start_slide_index = None;
        return d;
    }
    let mut slides: Vec<Slide> = Vec::new();
    std::mem::swap(&mut slides, &mut d.slides);
    let ghost all = slides@;
    let mut out: Vec<Slide> = Vec::new();
    for s in it: slides
        invariant
            it.seq() == all,
            all == given.slides@,
            start < all.len(),
            out@.len() == it.index(),
            forall|i: int| 0 <= i < it.index() && i < start ==> #[trigger] out@[i] == all[i],
            forall|i: int| start <= i < it.index() ==> redacted(#[trigger] out@[i], all[i]),
    {
        let ghost k = it.index();
        assert(all[k as int] == s);
        if out.len() < start {
            out.push(s);
        } else {
            out.push(redact(s));
        }
    }
    d.slides = out;
    d.paywall_start_slide_index = Some(start as i32);
    d
}

/// The deck a reader gets: whole (without a paywall index) with access,
/// the preview without.
pub fn deck_for_reader(deck: SlideDeck, has_access: bool) -> (r: SlideDeck)
    ensures
        has_access ==> same_but_slides(r, deck) && r.slides == deck.slides
            && r.paywall_start_slide_index is None,
        !has_access ==> is_preview(r, deck),
{
    if has_access {
        let mut d = deck;
        d.paywall_start_slide_index = None;
        d
    } else {
        paywall_preview(deck)
    }
}

} // verus!

verus! {

// ---------------------------------------------------------------------------
// The public curriculum
// ---------------------------------------------------------------------------

/// One entry of a deck's public table of contents.
#[derive(Clone, Debug)]
pub struct CurriculumItemDto {
    pub index: i32,
    pub title: String,
    pub level: i32,
    pub locked: bool,
}

/// Whether an element can title a slide: a text or paragraph element with
/// non-blank content.
pub open spec fn titles_slide(e: Element) -> bool {
    (opt_text(e.element_type) == Some("text"@) || opt_text(e.element_type) == Some("paragraph"@))
        && match e.content {
        Some(c) => !is_blank(c@),
        None => false,
    }
}

/// Index of the first titling element among the first `k`.
pub open spec fn first_titling(els: Seq<Element>, k: int) -> Option<int>
    decreases k,
{
    if k <= 0 {
        None
    } else {
        match first_titling(els, k - 1) {
            Some(i) => Some(i),
            None => if titles_slide(els[k - 1]) {
                Some(k - 1)
            } else {
                None
            },
        }
    }
}

/// The generic title of the slide at position `i`: `Book {i + 1}`.
pub open spec fn generic_title(i: nat) -> Seq<char> {
    "Book "@ + decimal(i + 1)
}

/// The title of slide `s` at position `i`: its first titling element's
/// content, trimmed, else the generic title.
pub open spec fn slide_title_text(s: Slide, i: nat) -> Seq<char> {
    match first_titling(s.elements@, s.elements@.len() as int) {
        Some(k) => match s.elements@[k].content {
            Some(c) => trim(c@),
            None => Seq::empty(),
        },
        None => generic_title(i),
    }
}

/// The generic title of the slide at position `index`.
fn generic_title_of(index: usize) -> (s: String)
    requires
        index < u64::MAX,
    ensures
        s@ == generic_title(index as nat),
{
    let mut s = crate::text::owned("Book ");
    crate::text::push_decimal(&mut s, index as u64 + 1);
    s
}

/// The title of a slide in the curriculum.
pub fn extract_slide_title(slide: &Slide, index: usize) -> (s: String)
    requires
        index < u64::MAX,
    ensures
        s@ == slide_title_text(*slide, index as nat),
{
    let ghost els = slide.elements@;
    let n = slide.elements.len();
    let mut k: usize = 0;
    while k < n
        invariant
            n == els.len(),
            els == slide.elements@,
            k <= n,
            first_titling(els, k as int) is None,
        decreases n - k,
    {
        let e = &slide.elements[k];
        let typed = crate::text::opt_equals(&e.element_type, "text") || crate::text::opt_equals(
            &e.element_type,
            "paragraph",
        );
        if typed {
            match &e.content {
                Some(c) => {
                    if !crate::text::str_is_blank(c.as_str()) {
                        proof {
                            assert(first_titling(els, k + 1) == Some(k as int));
                            lemma_first_titling_stays(els, k + 1, n as int);
                        }
                        return crate::text::trim_str(c.as_str());
                    }
                },
                None => {},
            }
        }
        k += 1;
    }
    generic_title_of(index)
}

/// Once found, the first titling element stays the first one.
proof fn lemma_first_titling_stays(els: Seq<Element>, k: int, n: int)
    requires
        0 <= k <= n,
        first_titling(els, k) is Some,
    ensures
        first_titling(els, n) == first_titling(els, k),
    decreases n - k,
{
    if k < n {
        lemma_first_titling_stays(els, k + 1, n);
    }
}

/// Entry `i` of the curriculum of `slides` (with the given paywall start
/// and access).
pub open spec fn curriculum_entry(c: CurriculumItemDto, s: Slide, i: nat, paywall_start: Option<usize>, has_access: bool) -> bool {
    let locked = !has_access && match paywall_start {
        Some(st) => i >= st,
        None => false,
    };
    &&& c.index == i as i32
    &&& c.locked == locked
    &&& c.title@ == (if locked {
        generic_title(i)
    } else {
        slide_title_text(s, i)
    })
    &&& c.level == match s.level {
        Some(l) => l,
        None => 0i32,
    }
}

/// The public table of contents: every slide with its title, level and
/// whether it is locked (from the paywall start on, for readers without
/// access); locked slides show only their generic title.
pub fn build_curriculum(slides: &Vec<Slide>, paywall_start: Option<usize>, has_access: bool) -> (v: Vec<CurriculumItemDto>)
    ensures
        v@.len() == slides@.len(),
        forall|i: int| 0 <= i < slides@.len() ==> curriculum_entry(#[trigger] v@[i], slides@[i], i as nat, paywall_start, has_access),
{
    let n = slides.len();
    let mut v: Vec<CurriculumItemDto> = Vec::new();
    let mut i: usize = 0;
    while i < n
        invariant
            n == slides@.len(),
            i <= n,
            v@.len() == i,
            forall|j: int| 0 <= j < i ==> curriculum_entry(#[trigger] v@[j], slides@[j], j as nat, paywall_start, has_access),
        decreases n - i,
    {
        let s = &slides[i];
        let locked = !has_access && match paywall_start {
            Some(st) => i >= st,
            None => false,
        };
        let title = if locked {
            generic_title_of(i)
        } else {
            extract_slide_title(s, i)
        };
        let level = match s.level {
            Some(l) => l,
            None => 0,
        };
        let idx = #[verifier::truncate] (i as i32);
        v.push(CurriculumItemDto { index: idx, title, level, locked });
        i += 1;
    }
    v
}

/// The public page of a published deck. Prices are IEEE-754 bit patterns
/// and the update time is in milliseconds since the Unix epoch.
#[derive(Clone, Debug)]
pub struct SlideDeckPublicDetailDto {
    pub id: String,
    pub slug: Option<String>,
    pub name: Option<String>,
    pub subtitle: Option<String>,
    pub cover_url: Option<String>,
    pub description: Option<String>,
    pub long_summary: Option<String>,
    pub learning_objectives: Vec<String>,
    pub requirements: Vec<String>,
    pub target_audience: Vec<String>,
    pub tags: Vec<String>,
    pub level: Option<String>,
    pub language: Option<String>,
    pub instructor_name: Option<String>,
    pub price: Option<u64>,
    pub compare_at_price: Option<u64>,
    pub estimated_duration_minutes: Option<i32>,
    pub slide_count: i32,
    pub paywall_start_slide_index: Option<i32>,
    pub has_access: bool,
    pub curriculum: Vec<CurriculumItemDto>,
    pub updated_at: i64,
}

/// Where the public curriculum locks a deck: at its positive paywall
/// index, else at the first slide; nowhere when that is past the end.
pub open spec fn public_paywall_start(deck: SlideDeck) -> Option<int> {
    let start: int = match deck.paywall_start_slide_index {
        Some(s) => if s > 0 {
            s as int
        } else {
            0
        },
        None => 0,
    };
    if deck.slides@.len() == 0 || start >= deck.slides@.len() {
        None
    } else {
        Some(start)
    }
}

/// The public page of a deck for a reader with or without access.
pub fn to_public_detail(deck: SlideDeck, has_access: bool) -> (p: SlideDeckPublicDetailDto)
    ensures
        p.id@ == crate::models::slide_deck::id_text(deck.id),
        p.slug == deck.slug && p.name == deck.name && p.subtitle == deck.subtitle,
        p.cover_url == deck.cover_url && p.description == deck.description,
        p.long_summary == deck.long_summary && p.learning_objectives == deck.learning_objectives,
        p.requirements == deck.requirements && p.target_audience == deck.target_audience,
        p.tags == deck.tags && p.level == deck.level && p.language == deck.language,
        p.instructor_name == deck.instructor_name && p.price == deck.price,
        p.compare_at_price == deck.compare_at_price,
        p.estimated_duration_minutes == deck.estimated_duration_minutes,
        p.slide_count == deck.slides@.len() as i32,
        p.paywall_start_slide_index == match public_paywall_start(deck) {
            Some(s) => Some(s as i32),
            None => None,
        },
        p.has_access == has_access,
        p.curriculum@.len() == deck.slides@.len(),
        forall|i: int| 0 <= i < deck.slides@.len() ==> curriculum_entry(
            #[trigger] p.curriculum@[i],
            deck.slides@[i],
            i as nat,
            match public_paywall_start(deck) {
                Some(s) => Some(s as usize),
                None => None,
            },
            has_access,
        ),
        p.updated_at == deck.updated_at,
{
    let count = deck.slides.len();
    let start: usize = match deck.paywall_start_slide_index {
        Some(s) => if s > 0 {
            s as usize
        } else {
            0
        },
        None => 0,
    };
    let effective: Option<usize> = if count == 0 || start >= count {
        None
    } else {
        Some(start)
    };
    let curriculum = build_curriculum(&deck.slides, effective, has_access);
    let id = deck.id_string();
    let count32 = #[verifier::truncate] (count as i32);
    let paywall: Option<i32> = match effective {
        Some(s) => Some(s as i32),
        None => None,
    };
    SlideDeckPublicDetailDto {
        id,
        slug: deck.slug,
        name: deck.name,
        subtitle: deck.subtitle,
        cover_url: deck.cover_url,
        description: deck.description,
        long_summary: deck.long_summary,
        learning_objectives: deck.learning_objectives,
        requirements: deck.requirements,
        target_audience: deck.target_audience,
        tags: deck.tags,
        level: deck.level,
        language: deck.language,
        instructor_name: deck.instructor_name,
        price: deck.price,
        compare_at_price: deck.compare_at_price,
        estimated_duration_minutes: deck.estimated_duration_minutes,
        slide_count: count32,
        paywall_start_slide_index: paywall,
        has_access,
        curriculum,
        updated_at: deck.updated_at,
    }
}

} // verus!

verus! {

// ---------------------------------------------------------------------------
// Who may read and edit a deck
// ---------------------------------------------------------------------------

/// Whether the paywall is enforced. It is not yet: every published deck is
/// readable by everyone; the checks below are kept for when it is.
pub const PAYWALL_ACTIVE: bool = false;

/// What the access check does next.
#[derive(Clone, Copy, PartialEq, Eq, Structural, Debug)]
pub enum AccessAction {
    /// The reader may see the whole deck.
    Grant,
    /// The reader gets the preview.
    Deny,
    /// Ask the auth service whether the reader is a platform owner.
    AskPlatformOwner,
    /// Ask the payments service whether the reader paid for the deck.
    AskPayment,
    /// Ask the community service whether the reader is registered for the
    /// deck's event.
    AskRegistration,
}

/// The access decision after the peer answers `answers` (in the order they
/// were asked): the paywall off, the owner, a platform owner, a paid
/// reader or a reader registered for the deck's event may read the whole
/// deck; an anonymous reader may not.
pub open spec fn access_action(
    paywall_active: bool,
    owner_id: Seq<char>,
    has_event: bool,
    caller: Option<Seq<char>>,
    answers: Seq<bool>,
) -> AccessAction {
    if !paywall_active {
        AccessAction::Grant
    } else {
        match caller {
            None => AccessAction::Deny,
            Some(c) => {
                if c == owner_id {
                    AccessAction::Grant
                } else if answers.len() == 0 {
                    AccessAction::AskPlatformOwner
                } else if answers[0] {
                    AccessAction::Grant
                } else if answers.len() == 1 {
                    AccessAction::AskPayment
                } else if answers[1] {
                    AccessAction::Grant
                } else if !has_event {
                    AccessAction::Deny
                } else if answers.len() == 2 {
                    AccessAction::AskRegistration
                } else if answers[2] {
                    AccessAction::Grant
                } else {
                    AccessAction::Deny
                }
            },
        }
    }
}

/// The next step of the access check for `deck` and `caller`, given the
/// peer answers so far.
pub fn access_step(paywall_active: bool, deck: &SlideDeck, caller: Option<&str>, answers: &Vec<bool>) -> (a: AccessAction)
    ensures
        a == access_action(
            paywall_active,
            deck.owner_id@,
            deck.event_id is Some,
            match caller {
                Some(c) => Some(c@),
                None => None,
            },
            answers@,
        ),
{
    if !paywall_active {
        return AccessAction::Grant;
    }
    let c = match caller {
        None => {
            return AccessAction::Deny;
        },
        Some(c) => c,
    };
    if crate::text::str_equals(c, deck.owner_id.as_str()) {
        return AccessAction::Grant;
    }
    let n = answers.len();
    if n == 0 {
        return AccessAction::AskPlatformOwner;
    }
    if answers[0] {
        return AccessAction::Grant;
    }
    if n == 1 {
        return AccessAction::AskPayment;
    }
    if answers[1] {
        return AccessAction::Grant;
    }
    if deck.event_id.is_none() {
        return AccessAction::Deny;
    }
    if n == 2 {
        return AccessAction::AskRegistration;
    }
    if answers[2] {
        AccessAction::Grant
    } else {
        AccessAction::Deny
    }
}

/// Whether `user` owns the deck (an editor may also be a platform owner,
/// which the auth service answers).
pub fn is_deck_owner(deck: &SlideDeck, user_id: &str) -> (b: bool)
    ensures
        b == (user_id@ == deck.owner_id@),
{
    crate::text::str_equals(user_id, deck.owner_id.as_str())
}

/// Whether a caller may list the decks of `owner_id`: only that owner or a
/// platform owner.
pub fn may_list_owner_decks(owner_id: &str, caller: &str, caller_is_platform_owner: bool) -> (b: bool)
    ensures
        b == (owner_id@ == caller@ || caller_is_platform_owner),
{
    crate::text::str_equals(owner_id, caller) || caller_is_platform_owner
}

} // verus!

verus! {

// ---------------------------------------------------------------------------
// Properties of slugs, access and the preview
// ---------------------------------------------------------------------------

/// The folded text of any input keeps only slug characters.
proof fn lemma_slug_fold_keeps(s: Seq<char>)
    ensures
        forall|k: int| 0 <= k < slug_fold(s).0.len() ==> slug_keeps(#[trigger] slug_fold(s).0[k]),
    decreases s.len(),
{
    if s.len() > 0 {
        lemma_slug_fold_keeps(s.drop_last());
        let o = slug_fold(s.drop_last()).0;
        let out = slug_fold(s).0;
        let c = s.last();
        if slug_keeps(c) {
            assert forall|k: int| 0 <= k < out.len() implies slug_keeps(#[trigger] out[k]) by {
                if k < o.len() {
                    assert(out[k] == o[k]);
                } else {
                    assert(out[k] == '-' || out[k] == c);
                }
            }
        }
    }
}

/// Folding a text made of slug characters only gives it back.
proof fn lemma_slug_fold_identity(s: Seq<char>)
    requires
        forall|k: int| 0 <= k < s.len() ==> slug_keeps(#[trigger] s[k]),
    ensures
        slug_fold(s) == (s, false),
    decreases s.len(),
{
    if s.len() > 0 {
        lemma_slug_fold_identity(s.drop_last());
        assert(s.drop_last().push(s.last()) =~= s);
    }
}

/// A slug is never empty and is made of ASCII letters, digits and `-`
/// only.
pub proof fn lemma_slug_chars(input: Option<Seq<char>>)
    ensures
        slug_of(input) matches Some(s) ==> s.len() > 0 && forall|k: int|
            0 <= k < s.len() ==> slug_keeps(#[trigger] s[k]),
{
    match input {
        Some(t) => {
            if trim(t).len() != 0 {
                lemma_slug_fold_keeps(lowered(trim(t)));
            }
        },
        None => {},
    }
}

/// Whether a character is an ASCII lowercase letter, an ASCII digit or `-`.
pub open spec fn lower_slug_char(c: char) -> bool {
    ('a' <= c && c <= 'z') || ('0' <= c && c <= '9') || c == '-'
}

/// Folding a text without ASCII uppercase letters keeps only lowercase
/// letters, digits and `-`.
proof fn lemma_slug_fold_lower(s: Seq<char>)
    requires
        forall|k: int| 0 <= k < s.len() ==> !('A' <= #[trigger] s[k] && s[k] <= 'Z'),
    ensures
        forall|k: int| 0 <= k < slug_fold(s).0.len() ==> lower_slug_char(#[trigger] slug_fold(s).0[k]),
    decreases s.len(),
{
    if s.len() > 0 {
        let pre = s.drop_last();
        assert forall|k: int| 0 <= k < pre.len() implies !('A' <= #[trigger] pre[k] && pre[k] <= 'Z') by {
            assert(pre[k] == s[k]);
        }
        lemma_slug_fold_lower(pre);
        let o = slug_fold(pre).0;
        let out = slug_fold(s).0;
        let c = s.last();
        assert(!('A' <= s[s.len() - 1] && s[s.len() - 1] <= 'Z'));
        if slug_keeps(c) {
            assert forall|k: int| 0 <= k < out.len() implies lower_slug_char(#[trigger] out[k]) by {
                if k < o.len() {
                    assert(out[k] == o[k]);
                } else {
                    assert(out[k] == '-' || out[k] == c);
                }
            }
        }
    }
}

/// The folded words are empty exactly when no character is kept.
proof fn lemma_slug_fold_empty(s: Seq<char>)
    ensures
        (slug_fold(s).0.len() == 0) <==> !(exists|k: int| 0 <= k < s.len() && slug_keeps(#[trigger] s[k])),
    decreases s.len(),
{
    if s.len() > 0 {
        let pre = s.drop_last();
        lemma_slug_fold_empty(pre);
        if exists|k: int| 0 <= k < pre.len() && slug_keeps(#[trigger] pre[k]) {
            let k = choose|k: int| 0 <= k < pre.len() && slug_keeps(#[trigger] pre[k]);
            assert(s[k] == pre[k]);
        }
        if exists|k: int| 0 <= k < s.len() && slug_keeps(#[trigger] s[k]) {
            let k = choose|k: int| 0 <= k < s.len() && slug_keeps(#[trigger] s[k]);
            if k < pre.len() {
                assert(pre[k] == s[k]);
            }
        }
    }
}

/// A title has no slug exactly when it is absent, blank, or its trimmed,
/// lowercased text has no ASCII letter, digit or `-`.
pub proof fn lemma_slug_absent(input: Option<Seq<char>>)
    ensures
        (slug_of(input) is None) <==> match input {
            None => true,
            Some(t) => trim(t).len() == 0 || !(exists|k: int|
                0 <= k < lowered(trim(t)).len() && slug_keeps(#[trigger] lowered(trim(t))[k])),
        },
{
    match input {
        Some(t) => {
            if trim(t).len() != 0 {
                lemma_slug_fold_empty(lowered(trim(t)));
            }
        },
        None => {},
    }
}

/// A non-empty text of lowercase ASCII letters, digits and `-` is its own
/// slug.
pub proof fn lemma_plain_slug_is_its_own(s: Seq<char>)
    requires
        s.len() > 0,
        forall|k: int| 0 <= k < s.len() ==> lower_slug_char(#[trigger] s[k]),
    ensures
        slug_of(Some(s)) == Some(s),
{
    assert(!crate::text::is_ws(s[0]) && lower_slug_char(s[s.len() - 1]));
    assert(!crate::text::is_ws(s[s.len() - 1]));
    crate::text::lemma_lead_ws(s, 0);
    crate::text::lemma_trail_ws(s, 0);
    assert(trim(s) =~= s);
    assert forall|k: int| 0 <= k < s.len() implies crate::outside::is_ascii_char(#[trigger] s[k]) by {
        assert(lower_slug_char(s[k]));
    }
    assert(lowered(s) =~= s) by {
        assert forall|k: int| 0 <= k < s.len() implies crate::outside::ascii_lowered(s)[k] == s[k] by {
            assert(lower_slug_char(s[k]));
        }
    }
    assert forall|k: int| 0 <= k < s.len() implies slug_keeps(#[trigger] s[k]) by {
        assert(lower_slug_char(s[k]));
    }
    lemma_slug_fold_identity(s);
}

/// A requested status that names the published state once trimmed (in any
/// ASCII case, padded with white space or not) is stored as `published`.
pub proof fn lemma_padded_published_is_published(current: Seq<char>, requested: String)
    requires
        names_published(trim(requested@)),
    ensures
        updated_status(current, Some(requested)) == "published"@,
{
    reveal_strlit("published");
    let t = trim(requested@);
    let w = "published"@;
    crate::text::lemma_eq_ignore_case_ascii(t, w);
    crate::text::lemma_ascii_lowered_eq(t, w);
    assert(!is_blank(requested@));
}

/// Slugging a (lowercased) slug gives the same slug back.
pub proof fn lemma_slug_of_slug(lower: Seq<char>)
    ensures
        slug_of_lower(lower) matches Some(s) ==> slug_of_lower(s) == Some(s),
{
    lemma_slug_fold_keeps(lower);
    let s = slug_fold(lower).0;
    lemma_slug_fold_identity(s);
}

/// While the paywall is off, every reader (signed in or not) may read every
/// deck, whatever the other services would answer.
pub proof fn lemma_paywall_off_grants(
    owner_id: Seq<char>,
    has_event: bool,
    caller: Option<Seq<char>>,
    answers: Seq<bool>,
)
    ensures
        access_action(PAYWALL_ACTIVE, owner_id, has_event, caller, answers) == AccessAction::Grant,
{
}

/// With the paywall on, a deck's owner may always read it and an anonymous
/// reader never may.
pub proof fn lemma_owner_reads_anonymous_does_not(owner_id: Seq<char>, has_event: bool, answers: Seq<bool>)
    ensures
        access_action(true, owner_id, has_event, Some(owner_id), answers) == AccessAction::Grant,
        access_action(true, owner_id, has_event, None, answers) == AccessAction::Deny,
{
}

/// The preview keeps every slide in place (same number, same ids); from
/// the paywall on, slides carry no elements.
pub proof fn lemma_preview_keeps_slides(p: SlideDeck, deck: SlideDeck)
    requires
        is_preview(p, deck),
    ensures
        p.slides@.len() == deck.slides@.len(),
        forall|i: int| 0 <= i < p.slides@.len() ==> (#[trigger] p.slides@[i]).id == deck.slides@[i].id,
        preview_cut(deck) matches Some(cut) ==> forall|i: int|
            cut <= i < p.slides@.len() ==> (#[trigger] p.slides@[i]).elements@.len() == 0,
{
    match preview_cut(deck) {
        None => {},
        Some(cut) => {
            assert forall|i: int| 0 <= i < p.slides@.len() implies (#[trigger] p.slides@[i]).id
                == deck.slides@[i].id by {
                if i < cut {
                    assert(p.slides@[i] == deck.slides@[i]);
                } else {
                    assert(redacted(p.slides@[i], deck.slides@[i]));
                }
            }
            assert forall|i: int| cut <= i < p.slides@.len() implies (
            #[trigger] p.slides@[i]).elements@.len() == 0 by {
                assert(redacted(p.slides@[i], deck.slides@[i]));
            }
        },
    }
}


/// A deck without a paywall index, or with one at or below zero, is locked
/// from its first slide: a reader without access gets every slide without
/// its content, and the preview reports the paywall at the start.
pub proof fn lemma_unset_paywall_locks_all(p: SlideDeck, deck: SlideDeck)
    requires
        is_preview(p, deck),
        match deck.paywall_start_slide_index {
            Some(s) => s <= 0,
            None => true,
        },
    ensures
        p.slides@.len() == deck.slides@.len(),
        forall|i: int| 0 <= i < p.slides@.len() ==> (#[trigger] p.slides@[i]).elements@.len() == 0,
        deck.slides@.len() > 0 ==> p.paywall_start_slide_index == Some(0i32),
{
    if deck.slides@.len() > 0 {
        assert forall|i: int| 0 <= i < p.slides@.len() implies (#[trigger] p.slides@[i]).elements@.len()
            == 0 by {
            assert(redacted(p.slides@[i], deck.slides@[i]));
        }
    }
}


/// The public page locks a deck where the preview a reader without access
/// gets cuts it: both use the same paywall start.
pub proof fn lemma_public_cut_is_preview_cut(deck: SlideDeck)
    ensures
        public_paywall_start(deck) == preview_cut(deck),
{
}

/// A deck with slides and without a paywall index, or with one at or below
/// zero, is locked from its first slide on its public page: the page
/// reports the paywall at 0, and for a reader without access every entry
/// of the curriculum is locked and shows only its generic title.
pub proof fn lemma_unset_paywall_locks_curriculum(deck: SlideDeck, cs: Seq<CurriculumItemDto>)
    requires
        deck.slides@.len() > 0,
        match deck.paywall_start_slide_index {
            Some(s) => s <= 0,
            None => true,
        },
        cs.len() == deck.slides@.len(),
        forall|i: int|
            0 <= i < deck.slides@.len() ==> curriculum_entry(
                #[trigger] cs[i],
                deck.slides@[i],
                i as nat,
                match public_paywall_start(deck) {
                    Some(s) => Some(s as usize),
                    None => None,
                },
                false,
            ),
    ensures
        public_paywall_start(deck) == Some(0int),
        forall|i: int| 0 <= i < cs.len() ==> (#[trigger] cs[i]).locked && cs[i].title@ == generic_title(i as nat),
{
    assert forall|i: int| 0 <= i < cs.len() implies (#[trigger] cs[i]).locked && cs[i].title@ == generic_title(
        i as nat,
    ) by {
        assert(curriculum_entry(cs[i], deck.slides@[i], i as nat, Some(0usize), false));
    }
}

/// An update never moves a published deck's URL: whatever slug the caller
/// resolved for an unpublished deck, a deck stored as published keeps its
/// slug.
pub proof fn lemma_published_slug_kept(d: SlideDeck, existing: SlideDeck, input: SlideDeckInput, editable_slug: Option<String>)
    requires
        updated_from(d, existing, input, editable_slug),
        names_published(existing.status@),
    ensures
        d.slug == existing.slug,
{
}

/// An update of a deck that is not published takes the slug the caller
/// resolved for it.
pub proof fn lemma_unpublished_slug_resolved(d: SlideDeck, existing: SlideDeck, input: SlideDeckInput, editable_slug: Option<String>)
    requires
        updated_from(d, existing, input, editable_slug),
        !names_published(existing.status@),
    ensures
        d.slug == editable_slug,
{
}

/// The public curriculum locks exactly the slides the preview withholds: a
/// reader with access sees every entry unlocked under its real title; a
/// reader without access sees the entries before the preview cut unlocked
/// under their real titles, and every entry from the cut on locked under its
/// generic title.
pub proof fn lemma_curriculum_locks_preview(deck: SlideDeck, cs: Seq<CurriculumItemDto>, has_access: bool)
    requires
        cs.len() == deck.slides@.len(),
        forall|i: int|
            0 <= i < deck.slides@.len() ==> curriculum_entry(
                #[trigger] cs[i],
                deck.slides@[i],
                i as nat,
                match public_paywall_start(deck) {
                    Some(s) => Some(s as usize),
                    None => None,
                },
                has_access,
            ),
    ensures
        forall|i: int|
            0 <= i < cs.len() ==> ((#[trigger] cs[i]).locked <==> (!has_access && match preview_cut(deck) {
                Some(c) => i >= c,
                None => false,
            })),
        forall|i: int|
            0 <= i < cs.len() ==> (#[trigger] cs[i]).title@ == (if cs[i].locked {
                generic_title(i as nat)
            } else {
                slide_title_text(deck.slides@[i], i as nat)
            }),
{
    assert(deck.slides.len() == deck.slides@.len());
    assert forall|i: int| 0 <= i < cs.len() implies ((#[trigger] cs[i]).locked <==> (!has_access && match preview_cut(
        deck,
    ) {
        Some(c) => i >= c,
        None => false,
    })) by {
        assert(curriculum_entry(
            cs[i],
            deck.slides@[i],
            i as nat,
            match public_paywall_start(deck) {
                Some(s) => Some(s as usize),
                None => None,
            },
            has_access,
        ));
    }
}

} // verus!
