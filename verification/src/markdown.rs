//! The markdown body grammar of a deck document.
//!
//! A body is read line by line: a `# ` heading opens a slide, `## `/`### `
//! add sub-titles, `>` lines are callouts, fenced blocks are code, bullet
//! runs and plain paragraphs become body text, and a rule (`---`, `***`,
//! `___`) closes the open slide. Content before any heading is refused.
use vstd::prelude::*;
use crate::text::{starts_with, strip_all_end, strip_all_start, trim, trim_end, trim_start};

verus! {

// ---------------------------------------------------------------------------
// Line splitting (`str::lines`)
// ---------------------------------------------------------------------------

/// Offset of the first `'\n'` in `s` (or `s.len()`).
pub open spec fn nl_pos(s: Seq<char>) -> nat
    decreases s.len(),
{
    if s.len() == 0 || s[0] == '\n' {
        0
    } else {
        1 + nl_pos(s.drop_first())
    }
}

/// A line taken before a `'\n'` loses one trailing `'\r'`.
pub open spec fn drop_cr(l: Seq<char>) -> Seq<char> {
    if l.len() > 0 && l.last() == '\r' {
        l.drop_last()
    } else {
        l
    }
}

/// The lines of `s`, split at `"\n"` or `"\r\n"`; a final line ending is
/// optional and an empty text has no lines.
pub open spec fn lines_of(s: Seq<char>) -> Seq<Seq<char>>
    decreases s.len(),
{
    if s.len() == 0 {
        seq![]
    } else {
        let k = nl_pos(s);
        if k >= s.len() {
            seq![s]
        } else {
            seq![drop_cr(s.take(k as int))] + lines_of(s.skip((k + 1) as int))
        }
    }
}

/// Scanning characterisation of `nl_pos`.
pub proof fn lemma_nl_pos(s: Seq<char>, n: int)
    requires
        0 <= n <= s.len(),
        forall|k: int| 0 <= k < n ==> #[trigger] s[k] != '\n',
        n == s.len() || s[n] == '\n',
    ensures
        nl_pos(s) == n,
    decreases n,
{
    if n > 0 {
        assert forall|k: int| 0 <= k < n - 1 implies #[trigger] s.drop_first()[k] != '\n' by {
            assert(s.drop_first()[k] == s[k + 1]);
        }
        lemma_nl_pos(s.drop_first(), n - 1);
    }
}

/// The views of a vector of character vectors.
pub open spec fn views(v: Seq<Vec<char>>) -> Seq<Seq<char>> {
    v.map_values(|x: Vec<char>| x@)
}

/// A new vector holding `v[a..b]`.
pub fn copy_range(v: &[char], a: usize, b: usize) -> (out: Vec<char>)
    requires
        a <= b <= v@.len(),
    ensures
        out@ == v@.subrange(a as int, b as int),
{
    let mut out: Vec<char> = Vec::new();
    let mut k = a;
    while k < b
        invariant
            a <= k <= b <= v@.len(),
            out@ == v@.subrange(a as int, k as int),
        decreases b - k,
    {
        out.push(v[k]);
        k += 1;
        assert(out@ =~= v@.subrange(a as int, k as int));
    }
    out
}

/// Position of the first `'\n'` at or after `start` (or `v.len()`).
fn next_newline(v: &[char], start: usize) -> (j: usize)
    requires
        start <= v@.len(),
    ensures
        start <= j <= v@.len(),
        j - start == nl_pos(v@.skip(start as int)),
{
    let ghost rest = v@.skip(start as int);
    let mut j = start;
    while j < v.len() && v[j] != '\n'
        invariant
            start <= j <= v@.len(),
            forall|k: int| start <= k < j ==> v@[k] != '\n',
        decreases v@.len() - j,
    {
        j += 1;
    }
    proof {
        assert forall|k: int| 0 <= k < j - start implies #[trigger] rest[k] != '\n' by {
            assert(rest[k] == v@[start + k]);
        }
        if j < v@.len() {
            assert(rest[j - start] == v@[j as int]);
        }
        lemma_nl_pos(rest, j - start);
    }
    j
}

/// One step of `lines_of` on a suffix of `v`.
proof fn lemma_lines_step(v: Seq<char>, start: int, j: int)
    requires
        0 <= start < v.len(),
        start <= j <= v.len(),
        j - start == nl_pos(v.skip(start)),
    ensures
        j == v.len() ==> lines_of(v.skip(start)) == seq![v.subrange(start, j)],
        j < v.len() ==> lines_of(v.skip(start)) == seq![drop_cr(v.subrange(start, j))] + lines_of(
            v.skip(j + 1),
        ),
{
    let rest = v.skip(start);
    assert(rest.take(j - start) =~= v.subrange(start, j));
    if j < v.len() {
        assert(rest.skip(j - start + 1) =~= v.skip(j + 1));
    } else {
        assert(rest =~= v.subrange(start, j));
    }
}

/// Splits `v` into lines (`str::lines`).
pub fn split_lines(v: &[char]) -> (out: Vec<Vec<char>>)
    ensures
        views(out@) == lines_of(v@),
{
    let mut out: Vec<Vec<char>> = Vec::new();
    let mut start: usize = 0;
    assert(v@.skip(0) =~= v@);
    assert(views(out@) + lines_of(v@) =~= lines_of(v@));
    while start < v.len()
        invariant
            start <= v@.len(),
            lines_of(v@) == views(out@) + lines_of(v@.skip(start as int)),
        decreases v@.len() - start,
    {
        let j = next_newline(v, start);
        proof {
            lemma_lines_step(v@, start as int, j as int);
        }
        let ghost old_out = out@;
        if j == v.len() {
            let line = copy_range(v, start, j);
            out.push(line);
            proof {
                assert(views(out@) =~= views(old_out).push(line@));
                assert(v@.skip(j as int) =~= Seq::<char>::empty());
                assert(lines_of(v@.skip(j as int)) =~= Seq::<Seq<char>>::empty());
                assert(views(old_out) + seq![line@] =~= views(out@) + Seq::<Seq<char>>::empty());
            }
            start = j;
        } else {
            let end = if j > start && v[j - 1] == '\r' { j - 1 } else { j };
            let line = copy_range(v, start, end);
            proof {
                assert(line@ =~= drop_cr(v@.subrange(start as int, j as int)));
            }
            out.push(line);
            proof {
                assert(views(out@) =~= views(old_out).push(line@));
                assert(views(old_out) + (seq![line@] + lines_of(v@.skip(j + 1))) =~= views(out@)
                    + lines_of(v@.skip(j + 1)));
            }
            start = j + 1;
        }
    }
    assert(v@.skip(start as int) =~= Seq::<char>::empty());
    assert(views(out@) + Seq::<Seq<char>>::empty() =~= views(out@));
    out
}

// ---------------------------------------------------------------------------
// Parsed slides
// ---------------------------------------------------------------------------

/// The kind of content block a markdown construct produces.
#[derive(Clone, Copy, PartialEq, Eq, Structural, Debug)]
pub enum BlockKind {
    Title,
    Subtitle,
    Para,
    Callout,
    Code,
}

/// A content block: its kind and its markdown text.
#[derive(Clone, Debug)]
pub struct Block {
    pub kind: BlockKind,
    pub text: String,
}

/// The abstract value of a block.
pub struct BlockView {
    pub kind: BlockKind,
    pub text: Seq<char>,
}

impl View for Block {
    type V = BlockView;

    open spec fn view(&self) -> BlockView {
        BlockView { kind: self.kind, text: self.text@ }
    }
}

/// A slide produced by the markdown parser: title, outline level and
/// ordered blocks.
#[derive(Clone, Debug)]
pub struct ParsedSlide {
    pub name: String,
    pub level: i32,
    pub blocks: Vec<Block>,
}

/// The abstract value of a parsed slide.
pub struct SlideView {
    pub name: Seq<char>,
    pub level: int,
    pub blocks: Seq<BlockView>,
}

impl View for ParsedSlide {
    type V = SlideView;

    open spec fn view(&self) -> SlideView {
        SlideView {
            name: self.name@,
            level: self.level as int,
            blocks: self.blocks@.map_values(|b: Block| b@),
        }
    }
}

/// The abstract values of a sequence of parsed slides.
pub open spec fn slide_views(v: Seq<ParsedSlide>) -> Seq<SlideView> {
    v.map_values(|s: ParsedSlide| s@)
}

/// Why a markdown body yields no slides.
#[derive(Clone, Copy, PartialEq, Eq, Structural, Debug)]
pub enum MarkdownError {
    /// Content appears before the first `#` heading.
    ContentBeforeHeading,
    /// The body has no `#` heading at all.
    NoSlides,
    /// A line such as `#tag` or `#### x` inside an open slide: the grammar
    /// neither consumes it nor moves past it, so reading never ends.
    Stalled,
}

/// The text a caller shows for a markdown error.
pub open spec fn markdown_error_text(e: MarkdownError) -> Seq<char> {
    match e {
        MarkdownError::ContentBeforeHeading => "Content appears before any `#` slide heading \u{2014} every slide must start with an H1"@,
        MarkdownError::NoSlides => "No slides found in document: add at least one `#` heading"@,
        MarkdownError::Stalled => "A line starting with `#` that is not a `# `, `## ` or `### ` heading cannot be read"@,
    }
}

impl MarkdownError {
    /// The message shown for this error.
    pub fn message(&self) -> (s: String)
        ensures
            s@ == markdown_error_text(*self),
    {
        match self {
            MarkdownError::ContentBeforeHeading => String::from_str(
                "Content appears before any `#` slide heading \u{2014} every slide must start with an H1",
            ),
            MarkdownError::NoSlides => String::from_str("No slides found in document: add at least one `#` heading"),
            MarkdownError::Stalled => String::from_str(
                "A line starting with `#` that is not a `# `, `## ` or `### ` heading cannot be read",
            ),
        }
    }
}

/// The outcome of reading a body.
pub enum Outcome {
    Slides(Seq<SlideView>),
    Failed(MarkdownError),
}

// ---------------------------------------------------------------------------
// The grammar
// ---------------------------------------------------------------------------

pub open spec fn ticks() -> Seq<char> {
    seq!['`', '`', '`']
}

pub open spec fn tildes() -> Seq<char> {
    seq!['~', '~', '~']
}

/// A line that opens or closes a fenced code block.
pub open spec fn fence_line(l: Seq<char>) -> bool {
    starts_with(trim_start(l), ticks()) || starts_with(trim_start(l), tildes())
}

/// The fence marker a fence line uses.
pub open spec fn fence_marker(l: Seq<char>) -> Seq<char> {
    if starts_with(trim_start(l), ticks()) {
        ticks()
    } else {
        tildes()
    }
}

/// A horizontal rule: `---`, `***` or `___`.
pub open spec fn is_rule(t: Seq<char>) -> bool {
    t == seq!['-', '-', '-'] || t == seq!['*', '*', '*'] || t == seq!['_', '_', '_']
}

/// A bullet item: `- ` or `* ` at the start.
pub open spec fn is_item(t: Seq<char>) -> bool {
    starts_with(t, seq!['-', ' ']) || starts_with(t, seq!['*', ' '])
}

/// A line with its trailing carriage returns removed, then trimmed.
pub open spec fn clean(l: Seq<char>) -> Seq<char> {
    trim(strip_all_end(l, '\r'))
}

/// First line at or after `j` whose trimmed form starts with `m`.
pub open spec fn code_end(lines: Seq<Seq<char>>, j: int, m: Seq<char>) -> int
    decreases lines.len() - j,
{
    if j < 0 || j >= lines.len() || starts_with(trim(lines[j]), m) {
        j
    } else {
        code_end(lines, j + 1, m)
    }
}

/// The raw lines `a..b`, each followed by a newline.
pub open spec fn code_text(lines: Seq<Seq<char>>, a: int, b: int) -> Seq<char>
    decreases b - a,
{
    if b <= a {
        seq![]
    } else {
        code_text(lines, a, b - 1) + lines[b - 1] + seq!['\n']
    }
}

/// A line that ends a bullet run.
pub open spec fn ends_list(raw: Seq<char>) -> bool {
    let l = clean(raw);
    l.len() == 0 || fence_line(raw) || starts_with(l, seq!['#']) || l == seq!['-', '-', '-']
}

/// First line at or after `j` that ends a bullet run.
pub open spec fn list_end(lines: Seq<Seq<char>>, j: int) -> int
    decreases lines.len() - j,
{
    if j < 0 || j >= lines.len() {
        j
    } else if !is_item(clean(lines[j])) && ends_list(lines[j]) {
        j
    } else {
        list_end(lines, j + 1)
    }
}

/// The text one line contributes to a bullet run.
pub open spec fn list_piece(raw: Seq<char>) -> Seq<char> {
    let l = clean(raw);
    if is_item(l) {
        seq!['•', ' '] + l.skip(2) + seq!['\n']
    } else {
        l + seq!['\n']
    }
}

/// The text the lines `a..b` contribute to a bullet run.
pub open spec fn list_text(lines: Seq<Seq<char>>, a: int, b: int) -> Seq<char>
    decreases b - a,
{
    if b <= a {
        seq![]
    } else {
        list_text(lines, a, b - 1) + list_piece(lines[b - 1])
    }
}

/// A line that ends a paragraph.
pub open spec fn ends_para(raw: Seq<char>) -> bool {
    let l = strip_all_end(raw, '\r');
    let t = trim(l);
    t.len() == 0 || fence_line(l) || starts_with(t, seq!['#']) || is_rule(t)
}

/// First line at or after `j` that ends a paragraph.
pub open spec fn para_end(lines: Seq<Seq<char>>, j: int) -> int
    decreases lines.len() - j,
{
    if j < 0 || j >= lines.len() || ends_para(lines[j]) {
        j
    } else {
        para_end(lines, j + 1)
    }
}

/// The trimmed lines `a..b` joined by single spaces.
pub open spec fn para_text(lines: Seq<Seq<char>>, a: int, b: int) -> Seq<char>
    decreases b - a,
{
    if b <= a {
        seq![]
    } else if b == a + 1 {
        clean(lines[a])
    } else {
        para_text(lines, a, b - 1) + seq![' '] + clean(lines[b - 1])
    }
}

/// `code_end` moves forward and stays within the lines.
pub proof fn lemma_code_end(lines: Seq<Seq<char>>, j: int, m: Seq<char>)
    requires
        0 <= j,
    ensures
        j <= code_end(lines, j, m),
        j <= lines.len() ==> code_end(lines, j, m) <= lines.len(),
        code_end(lines, j, m) < lines.len() ==> starts_with(trim(lines[code_end(lines, j, m)]), m),
    decreases lines.len() - j,
{
    if j < lines.len() && !starts_with(trim(lines[j]), m) {
        lemma_code_end(lines, j + 1, m);
    }
}

/// `list_end` moves forward and stays within the lines.
pub proof fn lemma_list_end(lines: Seq<Seq<char>>, j: int)
    requires
        0 <= j,
    ensures
        j <= list_end(lines, j),
        j <= lines.len() ==> list_end(lines, j) <= lines.len(),
    decreases lines.len() - j,
{
    if j < lines.len() && !(!is_item(clean(lines[j])) && ends_list(lines[j])) {
        lemma_list_end(lines, j + 1);
    }
}

/// `para_end` moves forward and stays within the lines.
pub proof fn lemma_para_end(lines: Seq<Seq<char>>, j: int)
    requires
        0 <= j,
    ensures
        j <= para_end(lines, j),
        j <= lines.len() ==> para_end(lines, j) <= lines.len(),
    decreases lines.len() - j,
{
    if j < lines.len() && !ends_para(lines[j]) {
        lemma_para_end(lines, j + 1);
    }
}

/// `done` with the open slide (if any) appended.
pub open spec fn close(done: Seq<SlideView>, cur: Option<SlideView>) -> Seq<SlideView> {
    match cur {
        Some(s) => done.push(s),
        None => done,
    }
}

/// The open slide with one more block.
pub open spec fn add_block(s: SlideView, kind: BlockKind, text: Seq<char>) -> SlideView {
    SlideView { blocks: s.blocks.push(BlockView { kind, text }), ..s }
}

/// The outcome of reading `lines` from line `i`, with the slides `done`
/// closed so far and `cur` open.
pub open spec fn read_from(
    lines: Seq<Seq<char>>,
    i: int,
    done: Seq<SlideView>,
    cur: Option<SlideView>,
) -> Outcome
    decreases lines.len() + 1 - i,
{
    if i < 0 || i >= lines.len() {
        let all = close(done, cur);
        if all.len() == 0 {
            Outcome::Failed(MarkdownError::NoSlides)
        } else {
            Outcome::Slides(all)
        }
    } else {
        let raw = lines[i];
        let line = strip_all_end(raw, '\r');
        let t = trim(line);
        if fence_line(line) {
            let e = code_end(lines, i + 1, fence_marker(line));
            proof {
                lemma_code_end(lines, i + 1, fence_marker(line));
            }
            match cur {
                None => Outcome::Failed(MarkdownError::ContentBeforeHeading),
                Some(s) => read_from(
                    lines,
                    e + 1,
                    done,
                    Some(add_block(s, BlockKind::Code, trim_end(code_text(lines, i + 1, e)))),
                ),
            }
        } else if starts_with(t, seq!['#', ' ']) {
            let name = t.skip(2);
            read_from(
                lines,
                i + 1,
                close(done, cur),
                Some(
                    SlideView {
                        name,
                        level: 1,
                        blocks: seq![BlockView { kind: BlockKind::Title, text: name }],
                    },
                ),
            )
        } else if starts_with(t, seq!['#', '#', ' ']) || starts_with(t, seq!['#', '#', '#', ' ']) {
            let rest = if starts_with(t, seq!['#', '#', ' ']) {
                t.skip(3)
            } else {
                t.skip(4)
            };
            match cur {
                None => Outcome::Failed(MarkdownError::ContentBeforeHeading),
                Some(s) => read_from(lines, i + 1, done, Some(add_block(s, BlockKind::Subtitle, rest))),
            }
        } else if is_rule(t) {
            read_from(lines, i + 1, close(done, cur), None)
        } else if starts_with(t, seq!['>']) {
            let quote = trim(strip_all_start(trim_start(t.skip(1)), '>'));
            match cur {
                None => Outcome::Failed(MarkdownError::ContentBeforeHeading),
                Some(s) => read_from(lines, i + 1, done, Some(add_block(s, BlockKind::Callout, quote))),
            }
        } else if is_item(t) {
            let e = list_end(lines, i + 1);
            proof {
                lemma_list_end(lines, i + 1);
            }
            let text = seq!['•', ' '] + t.skip(2) + seq!['\n'] + list_text(lines, i + 1, e);
            match cur {
                None => Outcome::Failed(MarkdownError::ContentBeforeHeading),
                Some(s) => read_from(lines, e, done, Some(add_block(s, BlockKind::Para, trim_end(text)))),
            }
        } else if t.len() > 0 {
            let e = para_end(lines, i);
            proof {
                lemma_para_end(lines, i);
            }
            match cur {
                None => Outcome::Failed(MarkdownError::ContentBeforeHeading),
                Some(s) => if e == i {
                    Outcome::Failed(MarkdownError::Stalled)
                } else {
                    read_from(lines, e, done, Some(add_block(s, BlockKind::Para, para_text(lines, i, e))))
                },
            }
        } else {
            read_from(lines, i + 1, done, cur)
        }
    }
}

/// The outcome of reading a whole body.
pub open spec fn read_body(body: Seq<char>) -> Outcome {
    read_from(lines_of(body), 0, seq![], None)
}

} // verus!

verus! {

// ---------------------------------------------------------------------------
// Executable reader
// ---------------------------------------------------------------------------

/// The abstract value of the open slide.
pub open spec fn open_view(cur: Option<ParsedSlide>) -> Option<SlideView> {
    match cur {
        Some(s) => Some(s@),
        None => None,
    }
}

/// A two-character pattern.
fn pat2(a: char, b: char) -> (v: Vec<char>)
    ensures
        v@ == seq![a, b],
{
    let mut v: Vec<char> = Vec::new();
    v.push(a);
    v.push(b);
    assert(v@ =~= seq![a, b]);
    v
}

/// A three-character pattern.
fn pat3(a: char, b: char, c: char) -> (v: Vec<char>)
    ensures
        v@ == seq![a, b, c],
{
    let mut v: Vec<char> = Vec::new();
    v.push(a);
    v.push(b);
    v.push(c);
    assert(v@ =~= seq![a, b, c]);
    v
}

/// A four-character pattern.
fn pat4(a: char, b: char, c: char, d: char) -> (v: Vec<char>)
    ensures
        v@ == seq![a, b, c, d],
{
    let mut v: Vec<char> = Vec::new();
    v.push(a);
    v.push(b);
    v.push(c);
    v.push(d);
    assert(v@ =~= seq![a, b, c, d]);
    v
}

/// End of `v` once trailing carriage returns are removed.
fn cr_end(v: &[char]) -> (e: usize)
    ensures
        e <= v@.len(),
        v@.subrange(0, e as int) == strip_all_end(v@, '\r'),
{
    let mut e = v.len();
    while e > 0 && v[e - 1] == '\r'
        invariant
            e <= v@.len(),
            forall|k: int| e <= k < v@.len() ==> #[trigger] v@[k] == '\r',
        decreases e,
    {
        e -= 1;
    }
    proof {
        crate::text::lemma_strip_all_end(v@, '\r', e as int);
        assert(v@.take(e as int) =~= v@.subrange(0, e as int));
    }
    e
}

/// Fence test of `v[lo..hi]`: 0 when it is no fence, 1 for a backtick
/// fence, 2 for a tilde fence.
fn fence_of(v: &[char], lo: usize, hi: usize) -> (k: u8)
    requires
        lo <= hi <= v@.len(),
    ensures
        k <= 2,
        (k != 0) == fence_line(v@.subrange(lo as int, hi as int)),
        k == 1 ==> fence_marker(v@.subrange(lo as int, hi as int)) == ticks(),
        k == 2 ==> fence_marker(v@.subrange(lo as int, hi as int)) == tildes(),
{
    let (a, _b) = crate::text::trim_bounds(v, lo, hi);
    let t = pat3('`', '`', '`');
    let w = pat3('~', '~', '~');
    if crate::text::range_starts_with(v, a, hi, &t) {
        1
    } else if crate::text::range_starts_with(v, a, hi, &w) {
        2
    } else {
        0
    }
}

/// Whether `line` opens or closes a fenced code block (after leading
/// white space it starts with three backticks or three tildes).
pub fn is_fence(line: &str) -> (b: bool)
    ensures
        b == fence_line(line@),
{
    let v = crate::text::chars_of(line);
    assert(v@.subrange(0, v@.len() as int) =~= v@);
    fence_of(&v, 0, v.len()) != 0
}

/// The marker of a fence line: three backticks, or else three tildes.
pub fn fence_tick(line: &str) -> (m: String)
    ensures
        m@ == fence_marker(line@),
{
    let v = crate::text::chars_of(line);
    assert(v@.subrange(0, v@.len() as int) =~= v@);
    let (a, _b) = crate::text::trim_bounds(&v, 0, v.len());
    let t = pat3('`', '`', '`');
    if crate::text::range_starts_with(&v, a, v.len(), &t) {
        let m = String::from_str("```");
        proof {
            reveal_strlit("```");
            assert(m@ =~= ticks());
        }
        m
    } else {
        let m = String::from_str("~~~");
        proof {
            reveal_strlit("~~~");
            assert(m@ =~= tildes());
        }
        m
    }
}

/// Bounds of the cleaned (carriage returns stripped, trimmed) form of `v`,
/// and the end of `v` without trailing carriage returns.
fn clean_bounds(v: &[char]) -> (r: (usize, usize, usize))
    ensures
        r.0 <= r.1 <= r.2 <= v@.len(),
        v@.subrange(0, r.2 as int) == strip_all_end(v@, '\r'),
        v@.subrange(r.0 as int, r.1 as int) == clean(v@),
        v@.subrange(r.0 as int, r.1 as int) == trim(strip_all_end(v@, '\r')),
{
    let e = cr_end(v);
    let (a, b) = crate::text::trim_bounds(v, 0, e);
    (a, b, e)
}

/// Whether `v[lo..hi]` is a rule line.
fn rule_of(v: &[char], lo: usize, hi: usize) -> (b: bool)
    requires
        lo <= hi <= v@.len(),
    ensures
        b == is_rule(v@.subrange(lo as int, hi as int)),
{
    let d = pat3('-', '-', '-');
    let s = pat3('*', '*', '*');
    let u = pat3('_', '_', '_');
    crate::text::range_equals(v, lo, hi, &d) || crate::text::range_equals(v, lo, hi, &s)
        || crate::text::range_equals(v, lo, hi, &u)
}

/// Whether `v[lo..hi]` is a bullet item.
fn item_of(v: &[char], lo: usize, hi: usize) -> (b: bool)
    requires
        lo <= hi <= v@.len(),
    ensures
        b == is_item(v@.subrange(lo as int, hi as int)),
{
    let d = pat2('-', ' ');
    let s = pat2('*', ' ');
    crate::text::range_starts_with(v, lo, hi, &d) || crate::text::range_starts_with(v, lo, hi, &s)
}

/// Whether `v[lo..hi]` starts with `#`.
fn hash_of(v: &[char], lo: usize, hi: usize) -> (b: bool)
    requires
        lo <= hi <= v@.len(),
    ensures
        b == starts_with(v@.subrange(lo as int, hi as int), seq!['#']),
{
    let ghost s = v@.subrange(lo as int, hi as int);
    if lo < hi && v[lo] == '#' {
        assert(s.take(1) =~= seq!['#']);
        true
    } else {
        if lo < hi {
            assert(s.take(1)[0] != '#');
        }
        false
    }
}

/// Reads a fenced code block starting at line `start`: the index of the
/// closing fence (or the number of lines) and the text in between.
fn scan_code(lines: &Vec<Vec<char>>, start: usize, marker: &Vec<char>) -> (r: (usize, Vec<char>))
    requires
        start <= lines@.len(),
    ensures
        r.0 == code_end(views(lines@), start as int, marker@),
        r.1@ == code_text(views(lines@), start as int, r.0 as int),
{
    let ghost ls = views(lines@);
    let mut buf: Vec<char> = Vec::new();
    let mut j = start;
    loop
        invariant
            start <= j <= lines@.len(),
            ls == views(lines@),
            ls.len() == lines@.len(),
            code_end(ls, start as int, marker@) == code_end(ls, j as int, marker@),
            buf@ == code_text(ls, start as int, j as int),
        ensures
            j == code_end(ls, start as int, marker@),
            buf@ == code_text(ls, start as int, j as int),
        decreases lines@.len() - j,
    {
        if j >= lines.len() {
            break;
        }
        let line = &lines[j];
        assert(ls[j as int] == line@);
        let (a, b) = crate::text::trim_bounds(line, 0, line.len());
        assert(line@.subrange(0, line@.len() as int) =~= line@);
        if crate::text::range_starts_with(line, a, b, marker) {
            assert(code_end(ls, j as int, marker@) == j);
            break;
        }
        let ghost old_buf = buf@;
        let mut k: usize = 0;
        while k < line.len()
            invariant
                0 <= k <= line@.len(),
                buf@ == old_buf + line@.subrange(0, k as int),
            decreases line@.len() - k,
        {
            buf.push(line[k]);
            k += 1;
            assert(buf@ =~= old_buf + line@.subrange(0, k as int));
        }
        buf.push('\n');
        assert(buf@ =~= old_buf + line@ + seq!['\n']);
        j += 1;
    }
    (j, buf)
}

/// Reads the continuation of a bullet run from line `start`.
fn scan_list(lines: &Vec<Vec<char>>, start: usize) -> (r: (usize, Vec<char>))
    requires
        start <= lines@.len(),
    ensures
        r.0 == list_end(views(lines@), start as int),
        r.1@ == list_text(views(lines@), start as int, r.0 as int),
{
    let ghost ls = views(lines@);
    let mut buf: Vec<char> = Vec::new();
    let mut j = start;
    loop
        invariant
            start <= j <= lines@.len(),
            ls == views(lines@),
            ls.len() == lines@.len(),
            list_end(ls, start as int) == list_end(ls, j as int),
            buf@ == list_text(ls, start as int, j as int),
        ensures
            j == list_end(ls, start as int),
            buf@ == list_text(ls, start as int, j as int),
        decreases lines@.len() - j,
    {
        if j >= lines.len() {
            break;
        }
        let line = &lines[j];
        assert(ls[j as int] == line@);
        let (a, b, _e) = clean_bounds(line);
        let ghost l = line@.subrange(a as int, b as int);
        let ghost old_buf = buf@;
        if item_of(line, a, b) {
            buf.push('•');
            buf.push(' ');
            let mut k = a + 2;
            while k < b
                invariant
                    a + 2 <= k <= b <= line@.len(),
                    buf@ == old_buf + seq!['•', ' '] + line@.subrange(a + 2, k as int),
                decreases b - k,
            {
                buf.push(line[k]);
                k += 1;
                assert(buf@ =~= old_buf + seq!['•', ' '] + line@.subrange(a + 2, k as int));
            }
            buf.push('\n');
            assert(l.skip(2) =~= line@.subrange(a + 2, b as int));
            assert(buf@ =~= old_buf + list_piece(line@));
        } else {
            let f = fence_of(line, 0, line.len());
            assert(line@.subrange(0, line@.len() as int) =~= line@);
            let dash = pat3('-', '-', '-');
            if a == b || f != 0 || hash_of(line, a, b) || crate::text::range_equals(line, a, b, &dash) {
                assert(list_end(ls, j as int) == j);
                break;
            }
            let mut k = a;
            while k < b
                invariant
                    a <= k <= b <= line@.len(),
                    buf@ == old_buf + line@.subrange(a as int, k as int),
                decreases b - k,
            {
                buf.push(line[k]);
                k += 1;
                assert(buf@ =~= old_buf + line@.subrange(a as int, k as int));
            }
            buf.push('\n');
            assert(buf@ =~= old_buf + list_piece(line@));
        }
        j += 1;
    }
    (j, buf)
}

/// Reads a paragraph from line `start`.
fn scan_para(lines: &Vec<Vec<char>>, start: usize) -> (r: (usize, Vec<char>))
    requires
        start <= lines@.len(),
    ensures
        r.0 == para_end(views(lines@), start as int),
        r.1@ == para_text(views(lines@), start as int, r.0 as int),
{
    let ghost ls = views(lines@);
    let mut buf: Vec<char> = Vec::new();
    let mut j = start;
    loop
        invariant
            start <= j <= lines@.len(),
            ls == views(lines@),
            ls.len() == lines@.len(),
            para_end(ls, start as int) == para_end(ls, j as int),
            buf@ == para_text(ls, start as int, j as int),
        ensures
            j == para_end(ls, start as int),
            buf@ == para_text(ls, start as int, j as int),
        decreases lines@.len() - j,
    {
        if j >= lines.len() {
            break;
        }
        let line = &lines[j];
        assert(ls[j as int] == line@);
        let (a, b, e) = clean_bounds(line);
        let f = fence_of(line, 0, e);
        if a == b || f != 0 || hash_of(line, a, b) || rule_of(line, a, b) {
            assert(para_end(ls, j as int) == j);
            break;
        }
        let ghost old_buf = buf@;
        if j > start {
            buf.push(' ');
        }
        let ghost mid = buf@;
        let mut k = a;
        while k < b
            invariant
                a <= k <= b <= line@.len(),
                buf@ == mid + line@.subrange(a as int, k as int),
            decreases b - k,
        {
            buf.push(line[k]);
            k += 1;
            assert(buf@ =~= mid + line@.subrange(a as int, k as int));
        }
        proof {
            if j > start {
                assert(buf@ =~= old_buf + seq![' '] + clean(line@));
            } else {
                assert(para_text(ls, start as int, j as int) =~= Seq::<char>::empty());
                assert(buf@ =~= clean(line@));
            }
        }
        j += 1;
    }
    (j, buf)
}

} // verus!

verus! {

/// Appends a block to the open slide; `false` (and no change) when no
/// slide is open.
fn add_to(cur: &mut Option<ParsedSlide>, kind: BlockKind, text: String) -> (ok: bool)
    ensures
        ok == old(cur).is_some(),
        ok ==> open_view(*final(cur)) == Some(add_block(open_view(*old(cur))->0, kind, text@)),
        !ok ==> *final(cur) == *old(cur),
{
    match cur.take() {
        None => false,
        Some(mut s) => {
            let ghost before = s@;
            s.blocks.push(Block { kind, text });
            assert(s@.blocks =~= before.blocks.push(BlockView { kind, text: text@ }));
            assert(s@ =~= add_block(before, kind, text@));
            *cur = Some(s);
            true
        },
    }
}

/// Closes the open slide.
fn close_open(done: &mut Vec<ParsedSlide>, cur: &mut Option<ParsedSlide>)
    ensures
        slide_views(final(done)@) == close(slide_views(old(done)@), open_view(*old(cur))),
        *final(cur) is None,
{
    let ghost d = slide_views(done@);
    match cur.take() {
        None => {},
        Some(s) => {
            let ghost sv = s@;
            done.push(s);
            assert(slide_views(done@) =~= d.push(sv));
        },
    }
}

/// The facts every line step needs about line `i`.
pub open spec fn line_parts(ls: Seq<Seq<char>>, i: int, v: Seq<char>, a: int, b: int, e: int) -> bool {
    &&& 0 <= i < ls.len()
    &&& ls[i] == v
    &&& 0 <= a <= b <= e <= v.len()
    &&& v.subrange(0, e) == strip_all_end(v, '\r')
    &&& v.subrange(a, b) == trim(strip_all_end(v, '\r'))
}

/// One step of the reader: reading from `i` with `d`/`c` gives the same
/// outcome as reading from `ni` with `d2`/`c2`.
pub open spec fn same_outcome(
    ls: Seq<Seq<char>>,
    i: int,
    d: Seq<SlideView>,
    c: Option<SlideView>,
    ni: int,
    d2: Seq<SlideView>,
    c2: Option<SlideView>,
) -> bool {
    &&& i < ni <= ls.len() + 1
    &&& read_from(ls, i, d, c) == read_from(ls, ni, d2, c2)
}

/// Reads a fenced code block at line `i`.
fn step_fence(
    lines: &Vec<Vec<char>>,
    i: usize,
    done: &Vec<ParsedSlide>,
    cur: &mut Option<ParsedSlide>,
    f: u8,
) -> (r: Result<usize, MarkdownError>)
    requires
        i < lines@.len(),
        (f != 0) == fence_line(strip_all_end(lines@[i as int]@, '\r')),
        f == 1 ==> fence_marker(strip_all_end(lines@[i as int]@, '\r')) == ticks(),
        f == 2 ==> fence_marker(strip_all_end(lines@[i as int]@, '\r')) == tildes(),
        f == 1 || f == 2,
    ensures
        match r {
            Ok(ni) => same_outcome(views(lines@), i as int, slide_views(done@), open_view(*old(cur)), ni as int, slide_views(done@), open_view(*final(cur))),
            Err(e) => read_from(views(lines@), i as int, slide_views(done@), open_view(*old(cur))) == Outcome::Failed(e),
        },
{
    let n_lines = lines.len();
    let ghost ls = views(lines@);
    assert(ls[i as int] == lines@[i as int]@);
    let marker = if f == 1 { pat3('`', '`', '`') } else { pat3('~', '~', '~') };
    let (end, buf) = scan_code(lines, i + 1, &marker);
    proof {
        lemma_code_end(ls, i + 1, marker@);
    }
    let n = crate::text::trail_ws_in(&buf, 0, buf.len());
    let text = crate::text::string_of(&buf, 0, buf.len() - n);
    proof {
        assert(buf@.subrange(0, buf@.len() as int) =~= buf@);
        assert(text@ =~= trim_end(code_text(ls, i + 1, end as int)));
        let line = strip_all_end(ls[i as int], '\r');
        assert(fence_line(line));
        assert(fence_marker(line) == marker@);
    }
    if !add_to(cur, BlockKind::Code, text) {
        return Err(MarkdownError::ContentBeforeHeading);
    }
    if end < n_lines {
        Ok(end + 1)
    } else {
        proof {
            let d = slide_views(done@);
            let c2 = open_view(*cur);
            assert(read_from(ls, end + 1, d, c2) == read_from(ls, end as int, d, c2));
        }
        Ok(end)
    }
}

/// Reads a `# ` heading at line `i`.
fn step_heading(
    lines: &Vec<Vec<char>>,
    i: usize,
    done: &mut Vec<ParsedSlide>,
    cur: &mut Option<ParsedSlide>,
    a: usize,
    b: usize,
    e: usize,
) -> (r: usize)
    requires
        i < lines@.len(),
        line_parts(views(lines@), i as int, lines@[i as int]@, a as int, b as int, e as int),
        !fence_line(strip_all_end(lines@[i as int]@, '\r')),
        starts_with(lines@[i as int]@.subrange(a as int, b as int), seq!['#', ' ']),
    ensures
        same_outcome(views(lines@), i as int, slide_views(old(done)@), open_view(*old(cur)), r as int, slide_views(final(done)@), open_view(*final(cur))),
{
    let n_lines = lines.len();
    let ghost ls = views(lines@);
    let line = &lines[i];
    let ghost t = line@.subrange(a as int, b as int);
    let name = crate::text::string_of(line, a + 2, b);
    let title = crate::text::string_of(line, a + 2, b);
    proof {
        assert(t.skip(2) =~= line@.subrange(a + 2, b as int));
    }
    close_open(done, cur);
    let mut blocks: Vec<Block> = Vec::new();
    blocks.push(Block { kind: BlockKind::Title, text: title });
    let s = ParsedSlide { name, level: 1, blocks };
    proof {
        assert(s@.blocks =~= seq![BlockView { kind: BlockKind::Title, text: t.skip(2) }]);
    }
    *cur = Some(s);
    i + 1
}

/// Reads a `## ` or `### ` sub-title at line `i`.
fn step_subtitle(
    lines: &Vec<Vec<char>>,
    i: usize,
    done: &Vec<ParsedSlide>,
    cur: &mut Option<ParsedSlide>,
    a: usize,
    b: usize,
    e: usize,
    is2: bool,
) -> (r: Result<usize, MarkdownError>)
    requires
        i < lines@.len(),
        line_parts(views(lines@), i as int, lines@[i as int]@, a as int, b as int, e as int),
        !fence_line(strip_all_end(lines@[i as int]@, '\r')),
        !starts_with(lines@[i as int]@.subrange(a as int, b as int), seq!['#', ' ']),
        is2 == starts_with(lines@[i as int]@.subrange(a as int, b as int), seq!['#', '#', ' ']),
        is2 || starts_with(lines@[i as int]@.subrange(a as int, b as int), seq!['#', '#', '#', ' ']),
    ensures
        match r {
            Ok(ni) => same_outcome(views(lines@), i as int, slide_views(done@), open_view(*old(cur)), ni as int, slide_views(done@), open_view(*final(cur))),
            Err(e) => read_from(views(lines@), i as int, slide_views(done@), open_view(*old(cur))) == Outcome::Failed(e),
        },
{
    let n_lines = lines.len();
    let line = &lines[i];
    let ghost t = line@.subrange(a as int, b as int);
    let skip: usize = if is2 { 3 } else { 4 };
    let text = crate::text::string_of(line, a + skip, b);
    proof {
        assert(t.skip(skip as int) =~= line@.subrange(a + skip, b as int));
    }
    if !add_to(cur, BlockKind::Subtitle, text) {
        return Err(MarkdownError::ContentBeforeHeading);
    }
    Ok(i + 1)
}

/// Bounds of the callout text of a `>` line whose trimmed form is `v[a..b]`.
fn quote_bounds(line: &Vec<char>, a: usize, b: usize) -> (r: (usize, usize))
    requires
        a < b <= line@.len(),
        line@[a as int] == '>',
    ensures
        r.0 <= r.1 <= line@.len(),
        line@.subrange(r.0 as int, r.1 as int) == trim(strip_all_start(trim_start(line@.subrange(a as int, b as int).skip(1)), '>')),
{
    let ghost t = line@.subrange(a as int, b as int);
    let (p, _q) = crate::text::trim_bounds(line, a + 1, b);
    let mut s = p;
    while s < b && line[s] == '>'
        invariant
            p <= s <= b <= line@.len(),
            forall|k: int| p <= k < s ==> #[trigger] line@[k] == '>',
        decreases b - s,
    {
        s += 1;
    }
    proof {
        let ts = line@.subrange(p as int, b as int);
        assert(t.skip(1) =~= line@.subrange(a + 1, b as int));
        assert forall|k: int| 0 <= k < s - p implies #[trigger] ts[k] == '>' by {
            assert(ts[k] == line@[p + k]);
        }
        if s < b {
            assert(ts[s - p] == line@[s as int]);
        }
        crate::text::lemma_strip_all_start(ts, '>', s - p);
        assert(ts.skip(s - p) =~= line@.subrange(s as int, b as int));
    }
    crate::text::trim_bounds(line, s, b)
}

/// Reads a `>` callout at line `i`.
fn step_quote(
    lines: &Vec<Vec<char>>,
    i: usize,
    done: &Vec<ParsedSlide>,
    cur: &mut Option<ParsedSlide>,
    a: usize,
    b: usize,
    e: usize,
) -> (r: Result<usize, MarkdownError>)
    requires
        i < lines@.len(),
        line_parts(views(lines@), i as int, lines@[i as int]@, a as int, b as int, e as int),
        !fence_line(strip_all_end(lines@[i as int]@, '\r')),
        !starts_with(lines@[i as int]@.subrange(a as int, b as int), seq!['#', ' ']),
        !starts_with(lines@[i as int]@.subrange(a as int, b as int), seq!['#', '#', ' ']),
        !starts_with(lines@[i as int]@.subrange(a as int, b as int), seq!['#', '#', '#', ' ']),
        !is_rule(lines@[i as int]@.subrange(a as int, b as int)),
        a < b,
        lines@[i as int]@[a as int] == '>',
        starts_with(lines@[i as int]@.subrange(a as int, b as int), seq!['>']),
    ensures
        match r {
            Ok(ni) => same_outcome(views(lines@), i as int, slide_views(done@), open_view(*old(cur)), ni as int, slide_views(done@), open_view(*final(cur))),
            Err(e) => read_from(views(lines@), i as int, slide_views(done@), open_view(*old(cur))) == Outcome::Failed(e),
        },
{
    let n_lines = lines.len();
    let line = &lines[i];
    let (x, y) = quote_bounds(line, a, b);
    let quote = crate::text::string_of(line, x, y);
    if !add_to(cur, BlockKind::Callout, quote) {
        return Err(MarkdownError::ContentBeforeHeading);
    }
    Ok(i + 1)
}

/// Reads a bullet run starting at line `i`.
fn step_list(
    lines: &Vec<Vec<char>>,
    i: usize,
    done: &Vec<ParsedSlide>,
    cur: &mut Option<ParsedSlide>,
    a: usize,
    b: usize,
    e: usize,
) -> (r: Result<usize, MarkdownError>)
    requires
        i < lines@.len(),
        line_parts(views(lines@), i as int, lines@[i as int]@, a as int, b as int, e as int),
        !fence_line(strip_all_end(lines@[i as int]@, '\r')),
        !starts_with(lines@[i as int]@.subrange(a as int, b as int), seq!['#', ' ']),
        !starts_with(lines@[i as int]@.subrange(a as int, b as int), seq!['#', '#', ' ']),
        !starts_with(lines@[i as int]@.subrange(a as int, b as int), seq!['#', '#', '#', ' ']),
        !is_rule(lines@[i as int]@.subrange(a as int, b as int)),
        !starts_with(lines@[i as int]@.subrange(a as int, b as int), seq!['>']),
        is_item(lines@[i as int]@.subrange(a as int, b as int)),
    ensures
        match r {
            Ok(ni) => same_outcome(views(lines@), i as int, slide_views(done@), open_view(*old(cur)), ni as int, slide_views(done@), open_view(*final(cur))),
            Err(e) => read_from(views(lines@), i as int, slide_views(done@), open_view(*old(cur))) == Outcome::Failed(e),
        },
{
    let n_lines = lines.len();
    let ghost ls = views(lines@);
    let line = &lines[i];
    let ghost t = line@.subrange(a as int, b as int);
    let (end, rest) = scan_list(lines, i + 1);
    proof {
        lemma_list_end(ls, i + 1);
    }
    let mut buf: Vec<char> = Vec::new();
    buf.push('•');
    buf.push(' ');
    let mut k = a + 2;
    while k < b
        invariant
            a + 2 <= k <= b <= line@.len(),
            buf@ == seq!['•', ' '] + line@.subrange(a + 2, k as int),
        decreases b - k,
    {
        buf.push(line[k]);
        k += 1;
        assert(buf@ =~= seq!['•', ' '] + line@.subrange(a + 2, k as int));
    }
    buf.push('\n');
    let ghost head = buf@;
    let mut m: usize = 0;
    while m < rest.len()
        invariant
            0 <= m <= rest@.len(),
            buf@ == head + rest@.subrange(0, m as int),
        decreases rest@.len() - m,
    {
        buf.push(rest[m]);
        m += 1;
        assert(buf@ =~= head + rest@.subrange(0, m as int));
    }
    proof {
        assert(t.skip(2) =~= line@.subrange(a + 2, b as int));
        assert(rest@.subrange(0, rest@.len() as int) =~= rest@);
        assert(buf@ =~= seq!['•', ' '] + t.skip(2) + seq!['\n'] + list_text(ls, i + 1, end as int));
    }
    let n = crate::text::trail_ws_in(&buf, 0, buf.len());
    let text = crate::text::string_of(&buf, 0, buf.len() - n);
    proof {
        assert(buf@.subrange(0, buf@.len() as int) =~= buf@);
    }
    if !add_to(cur, BlockKind::Para, text) {
        return Err(MarkdownError::ContentBeforeHeading);
    }
    Ok(end)
}

/// Reads a paragraph starting at line `i`.
fn step_para(
    lines: &Vec<Vec<char>>,
    i: usize,
    done: &Vec<ParsedSlide>,
    cur: &mut Option<ParsedSlide>,
    a: usize,
    b: usize,
    e: usize,
) -> (r: Result<usize, MarkdownError>)
    requires
        i < lines@.len(),
        line_parts(views(lines@), i as int, lines@[i as int]@, a as int, b as int, e as int),
        !fence_line(strip_all_end(lines@[i as int]@, '\r')),
        !starts_with(lines@[i as int]@.subrange(a as int, b as int), seq!['#', ' ']),
        !starts_with(lines@[i as int]@.subrange(a as int, b as int), seq!['#', '#', ' ']),
        !starts_with(lines@[i as int]@.subrange(a as int, b as int), seq!['#', '#', '#', ' ']),
        !is_rule(lines@[i as int]@.subrange(a as int, b as int)),
        !starts_with(lines@[i as int]@.subrange(a as int, b as int), seq!['>']),
        !is_item(lines@[i as int]@.subrange(a as int, b as int)),
        a < b,
    ensures
        match r {
            Ok(ni) => same_outcome(views(lines@), i as int, slide_views(done@), open_view(*old(cur)), ni as int, slide_views(done@), open_view(*final(cur))),
            Err(e) => read_from(views(lines@), i as int, slide_views(done@), open_view(*old(cur))) == Outcome::Failed(e),
        },
{
    let n_lines = lines.len();
    let ghost ls = views(lines@);
    let (end, buf) = scan_para(lines, i);
    proof {
        lemma_para_end(ls, i as int);
    }
    if cur.is_none() {
        return Err(MarkdownError::ContentBeforeHeading);
    }
    if end == i {
        return Err(MarkdownError::Stalled);
    }
    let text = crate::text::string_of(&buf, 0, buf.len());
    proof {
        assert(buf@.subrange(0, buf@.len() as int) =~= buf@);
    }
    let ok = add_to(cur, BlockKind::Para, text);
    Ok(end)
}

/// Reads one line (or block of lines) starting at line `i`.
fn step(
    lines: &Vec<Vec<char>>,
    i: usize,
    done: &mut Vec<ParsedSlide>,
    cur: &mut Option<ParsedSlide>,
) -> (r: Result<usize, MarkdownError>)
    requires
        i < lines@.len(),
    ensures
        match r {
            Ok(ni) => same_outcome(views(lines@), i as int, slide_views(old(done)@), open_view(*old(cur)), ni as int, slide_views(final(done)@), open_view(*final(cur))),
            Err(e) => read_from(views(lines@), i as int, slide_views(old(done)@), open_view(*old(cur))) == Outcome::Failed(e),
        },
{
    let n_lines = lines.len();
    let ghost ls = views(lines@);
    let line = &lines[i];
    assert(ls[i as int] == line@);
    let (a, b, e) = clean_bounds(line);
    let ghost t = line@.subrange(a as int, b as int);
    let f = fence_of(line, 0, e);
    if f != 0 {
        return step_fence(lines, i, done, cur, f);
    }
    let h1 = pat2('#', ' ');
    if crate::text::range_starts_with(line, a, b, &h1) {
        return Ok(step_heading(lines, i, done, cur, a, b, e));
    }
    let h2 = pat3('#', '#', ' ');
    let h3 = pat4('#', '#', '#', ' ');
    let is2 = crate::text::range_starts_with(line, a, b, &h2);
    if is2 || crate::text::range_starts_with(line, a, b, &h3) {
        return step_subtitle(lines, i, done, cur, a, b, e, is2);
    }
    if rule_of(line, a, b) {
        close_open(done, cur);
        return Ok(i + 1);
    }
    if a < b && line[a] == '>' {
        proof {
            assert(t.take(1) =~= seq!['>']);
        }
        return step_quote(lines, i, done, cur, a, b, e);
    }
    proof {
        if a < b {
            assert(t.take(1)[0] != '>');
        }
    }
    if item_of(line, a, b) {
        return step_list(lines, i, done, cur, a, b, e);
    }
    if a < b {
        return step_para(lines, i, done, cur, a, b, e);
    }
    Ok(i + 1)
}

/// Reads a markdown body into slides.
///
/// The result is exactly `read_body(body@)`: the slides in order, or why
/// the body yields none (including `Stalled` for bodies on which reading
/// would never finish).
pub fn parse_markdown(body: &str) -> (r: Result<Vec<ParsedSlide>, MarkdownError>)
    ensures
        match r {
            Ok(v) => read_body(body@) == Outcome::Slides(slide_views(v@)),
            Err(e) => read_body(body@) == Outcome::Failed(e),
        },
{
    let chars = crate::text::chars_of(body);
    let lines = split_lines(&chars);
    let ghost ls = views(lines@);
    let mut done: Vec<ParsedSlide> = Vec::new();
    let mut cur: Option<ParsedSlide> = None;
    let mut i: usize = 0;
    assert(slide_views(done@) =~= Seq::<SlideView>::empty());
    while i < lines.len()
        invariant
            ls == views(lines@),
            ls == lines_of(body@),
            i <= lines@.len() + 1,
            read_body(body@) == read_from(ls, i as int, slide_views(done@), open_view(cur)),
        decreases lines@.len() + 1 - i,
    {
        match step(&lines, i, &mut done, &mut cur) {
            Ok(ni) => {
                i = ni;
            },
            Err(e) => {
                return Err(e);
            },
        }
    }
    close_open(&mut done, &mut cur);
    if done.len() == 0 {
        return Err(MarkdownError::NoSlides);
    }
    Ok(done)
}

} // verus!
