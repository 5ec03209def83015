//! Exporting an imported deck and reading the export back: the slides come
//! back, in order and with their titles.
use vstd::prelude::*;
use crate::markdown::{
    add_block, close, code_end, fence_line, fence_marker, is_item, is_rule, lemma_code_end, lemma_list_end,
    lemma_nl_pos, lemma_para_end, lines_of, list_end, nl_pos, para_end, read_from, BlockKind, BlockView,
    Outcome, SlideView, drop_cr,
};
use crate::text::{is_ws, opt_text, starts_with, strip_all_end, trim, trim_end, trim_start};
use crate::deck_doc::{
    block_height, block_top, clamp, code_style, element_text, elements_text, first_text_in,
    imported, laid_out, lemma_block_top_range, lines_tenths, slide_heading, slide_laid_out, slide_text,
    slides_text, style_text, title_y, DeckMeta, ThemeView, cover_blocks, blocks_before, deck_slides,
};
use crate::models::slide_deck::{Coord, Element, Slide, SlideDeckInput};

verus! {

// ---------------------------------------------------------------------------
// Lines of concatenated text
// ---------------------------------------------------------------------------

/// `s` has no line break.
pub open spec fn no_nl(s: Seq<char>) -> bool {
    forall|k: int| 0 <= k < s.len() ==> s[k] != '\n'
}

/// Basic facts about `nl_pos`.
proof fn lemma_nl_pos_props(s: Seq<char>)
    ensures
        nl_pos(s) <= s.len(),
        forall|k: int| 0 <= k < nl_pos(s) ==> s[k] != '\n',
        nl_pos(s) < s.len() ==> s[nl_pos(s) as int] == '\n',
    decreases s.len(),
{
    if s.len() > 0 && s[0] != '\n' {
        lemma_nl_pos_props(s.drop_first());
        assert forall|k: int| 0 <= k < nl_pos(s) implies s[k] != '\n' by {
            if k > 0 {
                assert(s[k] == s.drop_first()[k - 1]);
            }
        }
        if nl_pos(s) < s.len() {
            assert(s[nl_pos(s) as int] == s.drop_first()[nl_pos(s) - 1]);
        }
    }
}

/// Splitting `a`, a line break and `b` into lines splits `a` and `b`
/// apart, when `a` is not empty and does not end in a line break or a
/// carriage return.
pub proof fn lemma_lines_concat(a: Seq<char>, b: Seq<char>)
    requires
        a.len() > 0,
        a.last() != '\n',
        a.last() != '\r',
    ensures
        lines_of(a + seq!['\n'] + b) == lines_of(a) + lines_of(b),
    decreases a.len(),
{
    let s = a + seq!['\n'] + b;
    lemma_nl_pos_props(a);
    let n = nl_pos(a);
    if n < a.len() {
        assert forall|k: int| 0 <= k < n implies #[trigger] s[k] != '\n' by {
            assert(s[k] == a[k]);
        }
        assert(s[n as int] == a[n as int]);
        lemma_nl_pos(s, n as int);
        assert(n != a.len() - 1);
        let rest = a.skip((n + 1) as int);
        assert(rest.last() == a.last());
        lemma_lines_concat(rest, b);
        assert(s.take(n as int) =~= a.take(n as int));
        assert(s.skip((n + 1) as int) =~= rest + seq!['\n'] + b);
        assert(lines_of(s) == seq![drop_cr(a.take(n as int))] + lines_of(rest + seq!['\n'] + b));
        assert(lines_of(a) == seq![drop_cr(a.take(n as int))] + lines_of(rest));
        assert(lines_of(s) =~= lines_of(a) + lines_of(b));
    } else {
        assert forall|k: int| 0 <= k < a.len() implies #[trigger] s[k] != '\n' by {
            assert(s[k] == a[k]);
        }
        assert(s[a.len() as int] == '\n');
        lemma_nl_pos(s, a.len() as int);
        assert(s.take(a.len() as int) =~= a);
        assert(s.skip((a.len() + 1) as int) =~= b);
        assert(drop_cr(a) == a);
        assert(lines_of(a) == seq![a]);
        assert(lines_of(s) =~= lines_of(a) + lines_of(b));
    }
}

/// A leading line break is an empty line.
pub proof fn lemma_lines_blank(b: Seq<char>)
    ensures
        lines_of(seq!['\n'] + b) == seq![Seq::<char>::empty()] + lines_of(b),
{
    let s = seq!['\n'] + b;
    assert(s[0] == '\n');
    lemma_nl_pos(s, 0);
    assert(s.take(0) =~= Seq::<char>::empty());
    assert(s.skip(1) =~= b);
}

/// A text without line breaks is one line (or none when empty).
pub proof fn lemma_lines_single(a: Seq<char>)
    requires
        no_nl(a),
    ensures
        lines_of(a) == (if a.len() == 0 {
            Seq::<Seq<char>>::empty()
        } else {
            seq![a]
        }),
{
    if a.len() > 0 {
        lemma_nl_pos(a, a.len() as int);
    }
}

/// No line of a text holds a line break.
pub proof fn lemma_lines_no_nl(s: Seq<char>)
    ensures
        forall|k: int| 0 <= k < lines_of(s).len() ==> no_nl(#[trigger] lines_of(s)[k]),
    decreases s.len(),
{
    if s.len() > 0 {
        lemma_nl_pos_props(s);
        let n = nl_pos(s);
        if n < s.len() {
            lemma_lines_no_nl(s.skip((n + 1) as int));
            let first = drop_cr(s.take(n as int));
            assert forall|k: int| 0 <= k < lines_of(s).len() implies no_nl(#[trigger] lines_of(s)[k]) by {
                if k == 0 {
                    assert(lines_of(s)[0] == first);
                    assert forall|j: int| 0 <= j < first.len() implies first[j] != '\n' by {
                        assert(first[j] == s[j]);
                    }
                } else {
                    assert(lines_of(s)[k] == lines_of(s.skip((n + 1) as int))[k - 1]);
                }
            }
        }
    }
}

/// Trimming or stripping a line keeps it free of line breaks.
proof fn lemma_no_nl_trim(s: Seq<char>)
    requires
        no_nl(s),
    ensures
        no_nl(trim(s)),
        no_nl(strip_all_end(s, '\r')),
        no_nl(trim_start(s)),
    decreases s.len(),
{
    crate::text::lemma_lead_ws_props(s);
    let t = trim_start(s);
    assert forall|k: int| 0 <= k < t.len() implies t[k] != '\n' by {
        assert(t[k] == s[k + crate::text::lead_ws(s)]);
    }
    let r = trim(s);
    crate::text::lemma_trail_ws_props(t);
    assert forall|k: int| 0 <= k < r.len() implies r[k] != '\n' by {
        assert(r[k] == t[k]);
    }
    if s.len() > 0 && s.last() == '\r' {
        assert(no_nl(s.drop_last())) by {
            assert forall|k: int| 0 <= k < s.drop_last().len() implies s.drop_last()[k] != '\n' by {
                assert(s.drop_last()[k] == s[k]);
            }
        }
        lemma_no_nl_trim(s.drop_last());
    }
}

// ---------------------------------------------------------------------------
// What the reader produces
// ---------------------------------------------------------------------------

/// A slide title the reader can produce: not empty, on one line, not
/// ending in white space.
pub open spec fn heading_name(n: Seq<char>) -> bool {
    &&& n.len() > 0
    &&& no_nl(n)
    &&& !is_ws(n.last())
}

/// A slide as the reader produces it: outline level 1, its title as first
/// block and no other title block.
pub open spec fn parsed_slide(s: SlideView) -> bool {
    &&& s.level == 1
    &&& heading_name(s.name)
    &&& s.blocks.len() >= 1
    &&& s.blocks[0] == BlockView { kind: BlockKind::Title, text: s.name }
    &&& forall|k: int| 1 <= k < s.blocks.len() ==> (#[trigger] s.blocks[k]).kind != BlockKind::Title
}

/// Adding a non-title block keeps a slide as the reader produces it.
proof fn lemma_add_block_parsed(s: SlideView, kind: BlockKind, text: Seq<char>)
    requires
        parsed_slide(s),
        kind != BlockKind::Title,
    ensures
        parsed_slide(add_block(s, kind, text)),
{
    let r = add_block(s, kind, text);
    assert forall|k: int| 1 <= k < r.blocks.len() implies (#[trigger] r.blocks[k]).kind != BlockKind::Title by {
        if k < s.blocks.len() {
            assert(r.blocks[k] == s.blocks[k]);
        }
    }
}

/// Every slide the reader produces is as `parsed_slide` describes.
pub proof fn lemma_read_parsed(lines: Seq<Seq<char>>, i: int, done: Seq<SlideView>, cur: Option<SlideView>)
    requires
        forall|k: int| 0 <= k < lines.len() ==> no_nl(#[trigger] lines[k]),
        forall|m: int| 0 <= m < done.len() ==> parsed_slide(#[trigger] done[m]),
        cur matches Some(s) ==> parsed_slide(s),
    ensures
        read_from(lines, i, done, cur) matches Outcome::Slides(ps) ==> ps.len() > 0 && forall|m: int|
            0 <= m < ps.len() ==> parsed_slide(#[trigger] ps[m]),
    decreases lines.len() + 1 - i,
{
    let closed = close(done, cur);
    assert forall|m: int| 0 <= m < closed.len() implies parsed_slide(#[trigger] closed[m]) by {
        if m < done.len() {
            assert(closed[m] == done[m]);
        }
    }
    if 0 <= i < lines.len() {
        let raw = lines[i];
        let line = strip_all_end(raw, '\r');
        let t = trim(line);
        if fence_line(line) {
            let e = code_end(lines, i + 1, fence_marker(line));
            lemma_code_end(lines, i + 1, fence_marker(line));
            if let Some(s) = cur {
                let text = trim_end(crate::markdown::code_text(lines, i + 1, e));
                lemma_add_block_parsed(s, BlockKind::Code, text);
                lemma_read_parsed(lines, e + 1, done, Some(add_block(s, BlockKind::Code, text)));
            }
        } else if starts_with(t, seq!['#', ' ']) {
            let name = t.skip(2);
            lemma_no_nl_trim(raw);
            lemma_no_nl_trim(line);
            crate::text::lemma_trim_ends(line);
            assert(t.take(2) == seq!['#', ' ']);
            assert(t[1] == ' ');
            assert(t.len() > 2) by {
                if t.len() == 2 {
                    assert(t.last() == t[1]);
                }
            }
            assert(name.last() == t.last());
            assert forall|k: int| 0 <= k < name.len() implies name[k] != '\n' by {
                assert(name[k] == t[k + 2]);
            }
            let s = SlideView { name, level: 1, blocks: seq![BlockView { kind: BlockKind::Title, text: name }] };
            assert(parsed_slide(s));
            lemma_read_parsed(lines, i + 1, closed, Some(s));
        } else if starts_with(t, seq!['#', '#', ' ']) || starts_with(t, seq!['#', '#', '#', ' ']) {
            let rest = if starts_with(t, seq!['#', '#', ' ']) {
                t.skip(3)
            } else {
                t.skip(4)
            };
            if let Some(s) = cur {
                lemma_add_block_parsed(s, BlockKind::Subtitle, rest);
                lemma_read_parsed(lines, i + 1, done, Some(add_block(s, BlockKind::Subtitle, rest)));
            }
        } else if is_rule(t) {
            lemma_read_parsed(lines, i + 1, closed, None);
        } else if starts_with(t, seq!['>']) {
            let quote = trim(crate::text::strip_all_start(trim_start(t.skip(1)), '>'));
            if let Some(s) = cur {
                lemma_add_block_parsed(s, BlockKind::Callout, quote);
                lemma_read_parsed(lines, i + 1, done, Some(add_block(s, BlockKind::Callout, quote)));
            }
        } else if is_item(t) {
            let e = list_end(lines, i + 1);
            lemma_list_end(lines, i + 1);
            let text = trim_end(
                seq!['•', ' '] + t.skip(2) + seq!['\n'] + crate::markdown::list_text(lines, i + 1, e),
            );
            if let Some(s) = cur {
                lemma_add_block_parsed(s, BlockKind::Para, text);
                lemma_read_parsed(lines, e, done, Some(add_block(s, BlockKind::Para, text)));
            }
        } else if t.len() > 0 {
            let e = para_end(lines, i);
            lemma_para_end(lines, i);
            if let Some(s) = cur {
                if e != i {
                    let text = crate::markdown::para_text(lines, i, e);
                    lemma_add_block_parsed(s, BlockKind::Para, text);
                    lemma_read_parsed(lines, e, done, Some(add_block(s, BlockKind::Para, text)));
                }
            }
        } else {
            lemma_read_parsed(lines, i + 1, done, cur);
        }
    }
}

/// Splitting text that ends in a line break, followed by more text, splits
/// the two apart.
pub proof fn lemma_lines_append(a: Seq<char>, b: Seq<char>)
    requires
        a.len() > 0,
        a.last() == '\n',
    ensures
        lines_of(a + b) == lines_of(a) + lines_of(b),
    decreases a.len(),
{
    let s = a + b;
    lemma_nl_pos_props(a);
    let n = nl_pos(a);
    assert(n < a.len()) by {
        if n == a.len() {
            assert(a[a.len() - 1] == a.last());
        }
    }
    assert forall|k: int| 0 <= k < n implies #[trigger] s[k] != '\n' by {
        assert(s[k] == a[k]);
    }
    assert(s[n as int] == a[n as int]);
    lemma_nl_pos(s, n as int);
    let rest = a.skip((n + 1) as int);
    assert(s.take(n as int) =~= a.take(n as int));
    assert(s.skip((n + 1) as int) =~= rest + b);
    if rest.len() > 0 {
        assert(rest.last() == a.last());
        lemma_lines_append(rest, b);
        assert(lines_of(s) =~= lines_of(a) + lines_of(b));
    } else {
        assert(rest + b =~= b);
        assert(lines_of(rest) =~= Seq::<Seq<char>>::empty());
        assert(lines_of(s) =~= lines_of(a) + lines_of(b));
    }
}

/// A chunk followed by a blank line: its lines and one empty line.
proof fn lemma_lines_chunk(x: Seq<char>)
    requires
        x.len() > 0,
        x.last() != '\n',
        x.last() != '\r',
    ensures
        lines_of(x + seq!['\n', '\n']) == lines_of(x) + seq![Seq::<char>::empty()],
{
    lemma_lines_concat(x, seq!['\n']);
    assert(x + seq!['\n', '\n'] =~= x + seq!['\n'] + seq!['\n']);
    lemma_lines_blank(Seq::<char>::empty());
    assert(seq!['\n'] + Seq::<char>::empty() =~= seq!['\n']);
    assert(lines_of(Seq::<char>::empty()) =~= Seq::<Seq<char>>::empty());
}

// ---------------------------------------------------------------------------
// The slide body an export writes for parsed slides
// ---------------------------------------------------------------------------

/// The markdown written for a non-blank block (before its blank line).
pub open spec fn chunk_text(b: BlockView) -> Seq<char> {
    let c = trim(b.text);
    match b.kind {
        BlockKind::Callout => "> "@ + c,
        BlockKind::Code => "```\n"@ + c + "\n```"@,
        _ => c,
    }
}

/// The markdown written for a block: its chunk and a blank line, or
/// nothing for a blank block.
pub open spec fn block_md(b: BlockView) -> Seq<char> {
    if trim(b.text).len() == 0 {
        Seq::empty()
    } else {
        chunk_text(b) + "\n\n"@
    }
}

/// The markdown written for blocks `1..k` (block 0 is the title).
pub open spec fn blocks_md(bs: Seq<BlockView>, k: int) -> Seq<char>
    decreases k,
{
    if k <= 1 {
        Seq::empty()
    } else {
        blocks_md(bs, k - 1) + block_md(bs[k - 1])
    }
}

/// The markdown written for a slide: its heading, then its blocks.
pub open spec fn slide_md(s: SlideView) -> Seq<char> {
    "# "@ + s.name + "\n\n"@ + blocks_md(s.blocks, s.blocks.len() as int)
}

/// The markdown written for the first `k` slides.
pub open spec fn body_md(ps: Seq<SlideView>, k: int) -> Seq<char>
    decreases k,
{
    if k <= 0 {
        Seq::empty()
    } else {
        body_md(ps, k - 1) + slide_md(ps[k - 1])
    }
}

/// The lines of a non-blank block's chunk.
pub open spec fn chunk_lines(b: BlockView) -> Seq<Seq<char>> {
    let c = trim(b.text);
    match b.kind {
        BlockKind::Callout => lines_of("> "@ + c),
        BlockKind::Code => seq!["```"@] + lines_of(c) + seq!["```"@],
        _ => lines_of(c),
    }
}

/// The lines written for a block.
pub open spec fn block_lines(b: BlockView) -> Seq<Seq<char>> {
    if trim(b.text).len() == 0 {
        Seq::empty()
    } else {
        chunk_lines(b) + seq![Seq::<char>::empty()]
    }
}

/// The lines written for blocks `1..k`.
pub open spec fn blocks_lines(bs: Seq<BlockView>, k: int) -> Seq<Seq<char>>
    decreases k,
{
    if k <= 1 {
        Seq::empty()
    } else {
        blocks_lines(bs, k - 1) + block_lines(bs[k - 1])
    }
}

/// The lines written for a slide.
pub open spec fn slide_lines(s: SlideView) -> Seq<Seq<char>> {
    seq!["# "@ + s.name, Seq::<char>::empty()] + blocks_lines(s.blocks, s.blocks.len() as int)
}

/// The lines written for the first `k` slides.
pub open spec fn body_lines(ps: Seq<SlideView>, k: int) -> Seq<Seq<char>>
    decreases k,
{
    if k <= 0 {
        Seq::empty()
    } else {
        body_lines(ps, k - 1) + slide_lines(ps[k - 1])
    }
}

/// A trimmed, non-empty text ends in neither a line break nor a carriage
/// return.
proof fn lemma_trimmed_end(t: Seq<char>)
    ensures
        trim(t).len() > 0 ==> trim(t).last() != '\n' && trim(t).last() != '\r' && trim(t)[0] != '\n'
            && !is_ws(trim(t)[0]) && !is_ws(trim(t).last()),
{
    crate::text::lemma_trim_ends(t);
}

/// The lines of a block's markdown.
proof fn lemma_block_lines(b: BlockView)
    ensures
        lines_of(block_md(b)) == block_lines(b),
        block_md(b).len() == 0 || block_md(b).last() == '\n',
{
    let c = trim(b.text);
    if c.len() > 0 {
        lemma_trimmed_end(b.text);
        reveal_strlit("\n\n");
        reveal_strlit("> ");
        reveal_strlit("```\n");
        reveal_strlit("\n```");
        reveal_strlit("```");
        assert("\n\n"@ =~= seq!['\n', '\n']);
        let x = chunk_text(b);
        match b.kind {
            BlockKind::Callout => {
                assert(x.last() == c.last());
            },
            BlockKind::Code => {
                assert(x.last() == '`');
                let f = "```"@;
                assert(x =~= f + seq!['\n'] + (c + seq!['\n'] + f));
                lemma_lines_concat(f, c + seq!['\n'] + f);
                lemma_lines_concat(c, f);
                lemma_lines_single(f);
                assert(lines_of(x) =~= seq!["```"@] + lines_of(c) + seq!["```"@]);
            },
            _ => {},
        }
        lemma_lines_chunk(x);
        assert(block_md(b) == x + seq!['\n', '\n']);
    } else {
        assert(lines_of(Seq::<char>::empty()) =~= Seq::<Seq<char>>::empty());
    }
}

/// The lines of the markdown of blocks `1..k`.
proof fn lemma_blocks_lines(bs: Seq<BlockView>, k: int)
    ensures
        lines_of(blocks_md(bs, k)) == blocks_lines(bs, k),
        blocks_md(bs, k).len() == 0 || blocks_md(bs, k).last() == '\n',
    decreases k,
{
    if k <= 1 {
        assert(lines_of(Seq::<char>::empty()) =~= Seq::<Seq<char>>::empty());
    } else {
        lemma_blocks_lines(bs, k - 1);
        lemma_block_lines(bs[k - 1]);
        let a = blocks_md(bs, k - 1);
        let b = block_md(bs[k - 1]);
        if a.len() > 0 {
            lemma_lines_append(a, b);
            if b.len() > 0 {
                assert((a + b).last() == b.last());
            } else {
                assert(a + b =~= a);
            }
        } else {
            assert(a + b =~= b);
            assert(blocks_lines(bs, k - 1) =~= Seq::<Seq<char>>::empty());
        }
        assert(lines_of(blocks_md(bs, k)) =~= blocks_lines(bs, k));
    }
}

/// The lines of a slide's markdown.
proof fn lemma_slide_lines(s: SlideView)
    requires
        heading_name(s.name),
    ensures
        lines_of(slide_md(s)) == slide_lines(s),
        slide_md(s).last() == '\n',
{
    reveal_strlit("# ");
    reveal_strlit("\n\n");
    let h = "# "@ + s.name;
    assert(h.last() == s.name.last());
    assert(no_nl(h)) by {
        assert forall|k: int| 0 <= k < h.len() implies h[k] != '\n' by {
            if k >= 2 {
                assert(h[k] == s.name[k - 2]);
            }
        }
    }
    assert(s.name.last() != '\n' && s.name.last() != '\r');
    lemma_lines_chunk(h);
    lemma_lines_single(h);
    let head = h + "\n\n"@;
    assert("\n\n"@ =~= seq!['\n', '\n']);
    let rest = blocks_md(s.blocks, s.blocks.len() as int);
    lemma_blocks_lines(s.blocks, s.blocks.len() as int);
    lemma_lines_append(head, rest);
    assert(slide_md(s) =~= head + rest);
    assert(lines_of(slide_md(s)) =~= slide_lines(s));
    if rest.len() > 0 {
        assert((head + rest).last() == rest.last());
    } else {
        assert(head + rest =~= head);
    }
}

/// The lines of the markdown of the first `k` slides.
pub proof fn lemma_body_lines(ps: Seq<SlideView>, k: int)
    requires
        0 <= k <= ps.len(),
        forall|m: int| 0 <= m < ps.len() ==> heading_name((#[trigger] ps[m]).name),
    ensures
        lines_of(body_md(ps, k)) == body_lines(ps, k),
        body_md(ps, k).len() == 0 || body_md(ps, k).last() == '\n',
    decreases k,
{
    if k <= 0 {
        assert(lines_of(Seq::<char>::empty()) =~= Seq::<Seq<char>>::empty());
    } else {
        lemma_body_lines(ps, k - 1);
        lemma_slide_lines(ps[k - 1]);
        let a = body_md(ps, k - 1);
        let b = slide_md(ps[k - 1]);
        if a.len() > 0 {
            lemma_lines_append(a, b);
        } else {
            assert(a + b =~= b);
            assert(body_lines(ps, k - 1) =~= Seq::<Seq<char>>::empty());
        }
        assert((a + b).last() == b.last());
        assert(lines_of(body_md(ps, k)) =~= body_lines(ps, k));
    }
}

// ---------------------------------------------------------------------------
// Reading the written lines back
// ---------------------------------------------------------------------------

/// A line of written block text the reader takes as content of the open
/// slide: not blank, no fence, no rule, and no `#` unless it opens a
/// `## ` or `### ` sub-title.
pub open spec fn plain_line(raw: Seq<char>) -> bool {
    let l = strip_all_end(raw, '\r');
    let t = trim(l);
    &&& t.len() > 0
    &&& !fence_line(l)
    &&& !fence_line(raw)
    &&& !is_rule(t)
    &&& (!starts_with(t, seq!['#']) || starts_with(t, seq!['#', '#', ' ']) || starts_with(
        t,
        seq!['#', '#', '#', ' '],
    ))
}

/// A block whose written markdown reads back into the same slide: code
/// without a line starting with three backticks, other text made of plain
/// lines only.
pub open spec fn reads_back(b: BlockView) -> bool {
    let c = trim(b.text);
    c.len() == 0 || match b.kind {
        BlockKind::Code => forall|k: int|
            0 <= k < lines_of(c).len() ==> !starts_with(trim(#[trigger] lines_of(c)[k]), crate::markdown::ticks()),
        _ => forall|k: int| 0 <= k < chunk_lines(b).len() ==> plain_line(#[trigger] chunk_lines(b)[k]),
    }
}

/// The empty line is blank to the reader.
proof fn lemma_blank_facts()
    ensures
        strip_all_end(Seq::<char>::empty(), '\r') == Seq::<char>::empty(),
        trim(Seq::<char>::empty()) == Seq::<char>::empty(),
        !fence_line(Seq::<char>::empty()),
        crate::markdown::ends_para(Seq::<char>::empty()),
        crate::markdown::ends_list(Seq::<char>::empty()),
        !is_item(crate::markdown::clean(Seq::<char>::empty())),
{
    let e = Seq::<char>::empty();
    crate::text::lemma_trim_clean(e);
    crate::text::lemma_lead_ws_props(e);
    assert(trim_start(e) =~= e);
}

/// A paragraph started at `a` ends by line `j` when line `j` ends one.
proof fn lemma_para_end_by(lines: Seq<Seq<char>>, a: int, j: int)
    requires
        0 <= a <= j < lines.len(),
        crate::markdown::ends_para(lines[j]),
    ensures
        a <= para_end(lines, a) <= j,
    decreases j - a,
{
    if a < j && !crate::markdown::ends_para(lines[a]) {
        lemma_para_end_by(lines, a + 1, j);
    }
}

/// A bullet run continued at `a` ends by the blank line `j`.
proof fn lemma_list_end_by(lines: Seq<Seq<char>>, a: int, j: int)
    requires
        0 <= a <= j < lines.len(),
        lines[j] == Seq::<char>::empty(),
    ensures
        a <= list_end(lines, a) <= j,
    decreases j - a,
{
    lemma_blank_facts();
    if a < j && !(!is_item(crate::markdown::clean(lines[a])) && crate::markdown::ends_list(lines[a])) {
        lemma_list_end_by(lines, a + 1, j);
    }
}

/// Reading plain lines `i..j` and the blank line `j` adds content to the
/// open slide and leaves it open.
proof fn lemma_read_plain(lines: Seq<Seq<char>>, i: int, j: int, done: Seq<SlideView>, s: SlideView)
    requires
        0 <= i <= j < lines.len(),
        forall|k: int| i <= k < j ==> plain_line(#[trigger] lines[k]),
        lines[j] == Seq::<char>::empty(),
    ensures
        exists|s2: SlideView|
            s2.name == s.name && read_from(lines, i, done, Some(s)) == read_from(lines, j + 1, done, Some(s2)),
    decreases j - i,
{
    lemma_blank_facts();
    if i == j {
        assert(read_from(lines, i, done, Some(s)) == read_from(lines, j + 1, done, Some(s)));
    } else {
        let raw = lines[i];
        assert(plain_line(raw));
        let line = strip_all_end(raw, '\r');
        let t = trim(line);
        if starts_with(t, seq!['#', ' ']) {
            assert(t.take(2)[1] == ' ');
            assert(t[0] == '#');
            assert(t.take(1) =~= seq!['#']);
            if starts_with(t, seq!['#', '#', ' ']) {
                assert(t.take(3)[1] == '#');
            } else {
                assert(t.take(4)[1] == '#');
            }
            assert(false);
        }
        if starts_with(t, seq!['#', '#', ' ']) || starts_with(t, seq!['#', '#', '#', ' ']) {
            let rest = if starts_with(t, seq!['#', '#', ' ']) {
                t.skip(3)
            } else {
                t.skip(4)
            };
            let s1 = add_block(s, BlockKind::Subtitle, rest);
            lemma_read_plain(lines, i + 1, j, done, s1);
            let s2 = choose|s2: SlideView|
                s2.name == s1.name && read_from(lines, i + 1, done, Some(s1)) == read_from(lines, j + 1, done, Some(s2));
            assert(read_from(lines, i, done, Some(s)) == read_from(lines, i + 1, done, Some(s1)));
        } else if starts_with(t, seq!['>']) {
            let quote = trim(crate::text::strip_all_start(trim_start(t.skip(1)), '>'));
            let s1 = add_block(s, BlockKind::Callout, quote);
            lemma_read_plain(lines, i + 1, j, done, s1);
            let s2 = choose|s2: SlideView|
                s2.name == s1.name && read_from(lines, i + 1, done, Some(s1)) == read_from(lines, j + 1, done, Some(s2));
            assert(read_from(lines, i, done, Some(s)) == read_from(lines, i + 1, done, Some(s1)));
        } else if is_item(t) {
            let e = list_end(lines, i + 1);
            lemma_list_end_by(lines, i + 1, j);
            let text = trim_end(
                seq!['•', ' '] + t.skip(2) + seq!['\n'] + crate::markdown::list_text(lines, i + 1, e),
            );
            let s1 = add_block(s, BlockKind::Para, text);
            lemma_read_plain(lines, e, j, done, s1);
            let s2 = choose|s2: SlideView|
                s2.name == s1.name && read_from(lines, e, done, Some(s1)) == read_from(lines, j + 1, done, Some(s2));
            assert(read_from(lines, i, done, Some(s)) == read_from(lines, e, done, Some(s1)));
        } else {
            assert(!starts_with(t, seq!['#']));
            assert(!crate::markdown::ends_para(raw));
            assert(para_end(lines, i) == para_end(lines, i + 1));
            lemma_para_end_by(lines, i + 1, j);
            let e = para_end(lines, i);
            let s1 = add_block(s, BlockKind::Para, crate::markdown::para_text(lines, i, e));
            lemma_read_plain(lines, e, j, done, s1);
            let s2 = choose|s2: SlideView|
                s2.name == s1.name && read_from(lines, e, done, Some(s1)) == read_from(lines, j + 1, done, Some(s2));
            assert(read_from(lines, i, done, Some(s)) == read_from(lines, e, done, Some(s1)));
        }
    }
}

/// A fence of three backticks, as the reader sees it.
proof fn lemma_tick_fence()
    ensures
        strip_all_end("```"@, '\r') == "```"@,
        trim("```"@) == "```"@,
        fence_line("```"@),
        fence_marker("```"@) == crate::markdown::ticks(),
        starts_with(trim("```"@), crate::markdown::ticks()),
{
    reveal_strlit("```");
    let f = "```"@;
    assert(f =~= crate::markdown::ticks());
    crate::text::lemma_trim_clean(f);
    crate::text::lemma_lead_ws(f, 0);
    assert(f.skip(0) =~= f);
    assert(f.take(3) =~= f);
}

/// The code block opened before line `a` closes at line `m`.
proof fn lemma_code_end_at(lines: Seq<Seq<char>>, a: int, m: int, mk: Seq<char>)
    requires
        0 <= a <= m < lines.len(),
        forall|k: int| a <= k < m ==> !starts_with(trim(#[trigger] lines[k]), mk),
        starts_with(trim(lines[m]), mk),
    ensures
        code_end(lines, a, mk) == m,
    decreases m - a,
{
    if a < m {
        lemma_code_end_at(lines, a + 1, m, mk);
    }
}

/// Reading a written block adds content to the open slide and leaves it
/// open, just past the block's blank line.
proof fn lemma_read_block(lines: Seq<Seq<char>>, p: int, b: BlockView, done: Seq<SlideView>, s: SlideView)
    requires
        0 <= p,
        p + block_lines(b).len() <= lines.len(),
        lines.subrange(p, p + block_lines(b).len()) == block_lines(b),
        reads_back(b),
    ensures
        exists|s2: SlideView|
            s2.name == s.name && read_from(lines, p, done, Some(s)) == read_from(
                lines,
                p + block_lines(b).len(),
                done,
                Some(s2),
            ),
{
    let c = trim(b.text);
    let bl = block_lines(b);
    if c.len() == 0 {
        assert(read_from(lines, p, done, Some(s)) == read_from(lines, p + bl.len(), done, Some(s)));
    } else {
        let cl = chunk_lines(b);
        assert(bl == cl + seq![Seq::<char>::empty()]);
        assert forall|k: int| 0 <= k < bl.len() implies lines[p + k] == #[trigger] bl[k] by {
            assert(lines.subrange(p, p + bl.len())[k] == lines[p + k]);
        }
        let j = p + cl.len();
        assert(lines[j] == bl[cl.len() as int]);
        if b.kind == BlockKind::Code {
            lemma_tick_fence();
            lemma_blank_facts();
            let lc = lines_of(c);
            let m = p + 1 + lc.len();
            assert(cl == seq!["```"@] + lc + seq!["```"@]);
            assert(lines[p] == bl[0]);
            assert(bl[0] == "```"@);
            assert(lines[m] == bl[1 + lc.len() as int]);
            assert(lines[m] == "```"@);
            assert forall|k: int| p + 1 <= k < m implies !starts_with(trim(#[trigger] lines[k]), crate::markdown::ticks()) by {
                assert(lines[k] == bl[k - p]);
                assert(bl[k - p] == lc[k - p - 1]);
            }
            lemma_code_end_at(lines, p + 1, m, crate::markdown::ticks());
            let code = trim_end(crate::markdown::code_text(lines, p + 1, m));
            let s1 = add_block(s, BlockKind::Code, code);
            assert(read_from(lines, p, done, Some(s)) == read_from(lines, m + 1, done, Some(s1)));
            assert(m + 1 == j);
            assert(read_from(lines, m + 1, done, Some(s1)) == read_from(lines, m + 2, done, Some(s1)));
        } else {
            assert forall|k: int| p <= k < j implies plain_line(#[trigger] lines[k]) by {
                assert(lines[k] == bl[k - p]);
                assert(bl[k - p] == cl[k - p]);
            }
            lemma_read_plain(lines, p, j, done, s);
        }
    }
}

/// Reading written blocks `1..k` adds content to the open slide and leaves
/// it open, just past them.
proof fn lemma_read_blocks(
    lines: Seq<Seq<char>>,
    p: int,
    bs: Seq<BlockView>,
    k: int,
    done: Seq<SlideView>,
    s: SlideView,
)
    requires
        0 <= p,
        k <= bs.len(),
        p + blocks_lines(bs, k).len() <= lines.len(),
        lines.subrange(p, p + blocks_lines(bs, k).len()) == blocks_lines(bs, k),
        forall|m: int| 1 <= m < bs.len() ==> reads_back(#[trigger] bs[m]),
    ensures
        exists|s2: SlideView|
            s2.name == s.name && read_from(lines, p, done, Some(s)) == read_from(
                lines,
                p + blocks_lines(bs, k).len(),
                done,
                Some(s2),
            ),
    decreases k,
{
    if k <= 1 {
        assert(read_from(lines, p, done, Some(s)) == read_from(lines, p + blocks_lines(bs, k).len(), done, Some(s)));
    } else {
        let before = blocks_lines(bs, k - 1);
        let last = block_lines(bs[k - 1]);
        assert(blocks_lines(bs, k) == before + last);
        assert(lines.subrange(p, p + before.len()) =~= before) by {
            assert forall|m: int| 0 <= m < before.len() implies lines.subrange(p, p + before.len())[m] == before[m] by {
                assert(lines.subrange(p, p + blocks_lines(bs, k).len())[m] == (before + last)[m]);
            }
        }
        lemma_read_blocks(lines, p, bs, k - 1, done, s);
        let s1 = choose|s1: SlideView|
            s1.name == s.name && read_from(lines, p, done, Some(s)) == read_from(lines, p + before.len(), done, Some(s1));
        let q = p + before.len();
        assert(lines.subrange(q, q + last.len()) =~= last) by {
            assert forall|m: int| 0 <= m < last.len() implies lines.subrange(q, q + last.len())[m] == last[m] by {
                assert(lines.subrange(p, p + blocks_lines(bs, k).len())[before.len() + m] == (before + last)[before.len() + m]);
            }
        }
        lemma_read_block(lines, q, bs[k - 1], done, s1);
    }
}

/// Reading a written heading closes the open slide and opens the titled
/// one.
proof fn lemma_read_heading(lines: Seq<Seq<char>>, p: int, name: Seq<char>, done: Seq<SlideView>, cur: Option<SlideView>)
    requires
        heading_name(name),
        0 <= p,
        p + 2 <= lines.len(),
        lines[p] == "# "@ + name,
        lines[p + 1] == Seq::<char>::empty(),
    ensures
        read_from(lines, p, done, cur) == read_from(
            lines,
            p + 2,
            close(done, cur),
            Some(SlideView { name, level: 1, blocks: seq![BlockView { kind: BlockKind::Title, text: name }] }),
        ),
{
    reveal_strlit("# ");
    lemma_blank_facts();
    let raw = lines[p];
    assert(raw.last() == name.last());
    assert(raw[0] == '#');
    assert(!is_ws('#'));
    assert(raw.last() != '\r');
    assert(strip_all_end(raw, '\r') == raw);
    crate::text::lemma_trim_clean(raw);
    crate::text::lemma_lead_ws(raw, 0);
    assert(raw.skip(0) =~= raw);
    assert(trim_start(raw) == raw);
    assert(!fence_line(raw)) by {
        assert(raw.take(3)[0] == '#');
        assert(crate::markdown::ticks()[0] == '`');
        assert(crate::markdown::tildes()[0] == '~');
    }
    assert(raw.take(2) =~= seq!['#', ' ']);
    assert(raw.skip(2) =~= name);
    let t = trim(strip_all_end(raw, '\r'));
    assert(t == raw);
    assert(starts_with(t, seq!['#', ' ']));
    let s = SlideView { name, level: 1, blocks: seq![BlockView { kind: BlockKind::Title, text: name }] };
    assert(read_from(lines, p, done, cur) == read_from(lines, p + 1, close(done, cur), Some(s)));
    assert(lines[p + 1] == Seq::<char>::empty());
    assert(read_from(lines, p + 1, close(done, cur), Some(s)) == read_from(lines, p + 2, close(done, cur), Some(s)));
}

/// The slide `s` as the reader opens it from a written heading.
pub open spec fn opened(name: Seq<char>) -> SlideView {
    SlideView { name, level: 1, blocks: seq![BlockView { kind: BlockKind::Title, text: name }] }
}

/// Reading a written slide closes the open slide and leaves the written one
/// open (with its title), just past it.
proof fn lemma_read_slide(
    lines: Seq<Seq<char>>,
    p: int,
    sl: SlideView,
    done: Seq<SlideView>,
    cur: Option<SlideView>,
)
    requires
        heading_name(sl.name),
        forall|m: int| 1 <= m < sl.blocks.len() ==> reads_back(#[trigger] sl.blocks[m]),
        0 <= p,
        p + slide_lines(sl).len() <= lines.len(),
        lines.subrange(p, p + slide_lines(sl).len()) == slide_lines(sl),
    ensures
        exists|s2: SlideView|
            s2.name == sl.name && read_from(lines, p, done, cur) == read_from(
                lines,
                p + slide_lines(sl).len(),
                close(done, cur),
                Some(s2),
            ),
{
    let sls = slide_lines(sl);
    let bls = blocks_lines(sl.blocks, sl.blocks.len() as int);
    assert(sls == seq!["# "@ + sl.name, Seq::<char>::empty()] + bls);
    assert(lines[p] == sls[0]);
    assert(lines[p + 1] == sls[1]);
    lemma_read_heading(lines, p, sl.name, done, cur);
    let q = p + 2;
    assert(lines.subrange(q, q + bls.len()) =~= bls) by {
        assert forall|m: int| 0 <= m < bls.len() implies lines.subrange(q, q + bls.len())[m] == bls[m] by {
            assert(lines.subrange(p, p + sls.len())[2 + m] == sls[2 + m]);
        }
    }
    lemma_read_blocks(lines, q, sl.blocks, sl.blocks.len() as int, close(done, cur), opened(sl.name));
}

/// A written slide body, as a whole.
pub open spec fn body_reads_back(ps: Seq<SlideView>) -> bool {
    &&& forall|m: int| 0 <= m < ps.len() ==> heading_name((#[trigger] ps[m]).name)
    &&& forall|m: int, k: int|
        0 <= m < ps.len() && 1 <= k < ps[m].blocks.len() ==> reads_back(#[trigger] ps[m].blocks[k])
}

/// Reading the lines written for slides `0..k`, then more lines `rest`:
/// the first `k - 1` slides are closed with their titles and slide `k - 1`
/// is open.
proof fn lemma_read_prefix(ps: Seq<SlideView>, k: int, rest: Seq<Seq<char>>)
    requires
        1 <= k <= ps.len(),
        body_reads_back(ps),
    ensures
        exists|d: Seq<SlideView>, s: SlideView|
            d.len() == k - 1 && (forall|m: int| 0 <= m < k - 1 ==> (#[trigger] d[m]).name == ps[m].name)
                && s.name == ps[k - 1].name && read_from(body_lines(ps, k) + rest, 0, Seq::empty(), None)
                == read_from(body_lines(ps, k) + rest, body_lines(ps, k).len() as int, d, Some(s)),
    decreases k,
{
    let sl = ps[k - 1];
    let before = body_lines(ps, k - 1);
    let mine = slide_lines(sl);
    let lines = body_lines(ps, k) + rest;
    assert(body_lines(ps, k) == before + mine);
    assert(lines =~= before + (mine + rest));
    let p = before.len() as int;
    assert(lines.subrange(p, p + mine.len()) =~= mine);
    assert forall|m: int| 1 <= m < sl.blocks.len() implies reads_back(#[trigger] sl.blocks[m]) by {
        assert(reads_back(ps[k - 1].blocks[m]));
    }
    if k == 1 {
        assert(before =~= Seq::<Seq<char>>::empty());
        lemma_read_slide(lines, 0, sl, Seq::empty(), None);
        let s2 = choose|s2: SlideView|
            s2.name == sl.name && read_from(lines, 0, Seq::empty(), None) == read_from(
                lines,
                mine.len() as int,
                close(Seq::empty(), None),
                Some(s2),
            );
        assert(close(Seq::<SlideView>::empty(), None) == Seq::<SlideView>::empty());
        assert(body_lines(ps, k).len() == mine.len());
    } else {
        lemma_read_prefix(ps, k - 1, mine + rest);
        let (d, s) = choose|d: Seq<SlideView>, s: SlideView|
            d.len() == k - 2 && (forall|m: int| 0 <= m < k - 2 ==> (#[trigger] d[m]).name == ps[m].name)
                && s.name == ps[k - 2].name && read_from(before + (mine + rest), 0, Seq::empty(), None)
                == read_from(before + (mine + rest), before.len() as int, d, Some(s));
        lemma_read_slide(lines, p, sl, d, Some(s));
        let s2 = choose|s2: SlideView|
            s2.name == sl.name && read_from(lines, p, d, Some(s)) == read_from(
                lines,
                p + mine.len(),
                close(d, Some(s)),
                Some(s2),
            );
        let d2 = d.push(s);
        assert forall|m: int| 0 <= m < k - 1 implies (#[trigger] d2[m]).name == ps[m].name by {
            if m < k - 2 {
                assert(d2[m] == d[m]);
            }
        }
        assert(body_lines(ps, k).len() == p + mine.len());
    }
}

/// Reading the lines written for all slides gives back as many slides,
/// with the same titles in the same order.
pub proof fn lemma_read_written_lines(ps: Seq<SlideView>)
    requires
        ps.len() >= 1,
        body_reads_back(ps),
    ensures
        read_from(body_lines(ps, ps.len() as int), 0, Seq::empty(), None) matches Outcome::Slides(qs)
            && qs.len() == ps.len() && forall|m: int| 0 <= m < ps.len() ==> (#[trigger] qs[m]).name == ps[m].name,
{
    let n = ps.len() as int;
    let lines = body_lines(ps, n);
    lemma_read_prefix(ps, n, Seq::empty());
    assert(lines + Seq::<Seq<char>>::empty() =~= lines);
    let (d, s) = choose|d: Seq<SlideView>, s: SlideView|
        d.len() == n - 1 && (forall|m: int| 0 <= m < n - 1 ==> (#[trigger] d[m]).name == ps[m].name)
            && s.name == ps[n - 1].name && read_from(lines + Seq::<Seq<char>>::empty(), 0, Seq::empty(), None)
            == read_from(lines + Seq::<Seq<char>>::empty(), lines.len() as int, d, Some(s));
    let qs = d.push(s);
    assert(read_from(lines, lines.len() as int, d, Some(s)) == Outcome::Slides(qs));
    assert forall|m: int| 0 <= m < ps.len() implies (#[trigger] qs[m]).name == ps[m].name by {
        if m < n - 1 {
            assert(qs[m] == d[m]);
        }
    }
}

// ---------------------------------------------------------------------------
// What the export writes for an imported deck
// ---------------------------------------------------------------------------

/// The kind a block of an imported deck is exported as: a sub-title or
/// paragraph whose style (under theme `t`) looks like a code style
/// (`whiteSpace`, `monospace` or `backgroundColor` in it) comes out as a
/// code block; every other block keeps its kind.
pub open spec fn written_kind(k: BlockKind, t: ThemeView) -> BlockKind {
    if (k == BlockKind::Subtitle || k == BlockKind::Para) && code_style(style_text(k, t, false)) {
        BlockKind::Code
    } else {
        k
    }
}

/// A block as the export writes it.
pub open spec fn as_written(b: BlockView, t: ThemeView) -> BlockView {
    BlockView { kind: written_kind(b.kind, t), text: b.text }
}

/// A parsed slide as the export writes it: its blocks as written.
pub open spec fn slide_as_written(s: SlideView, t: ThemeView) -> SlideView {
    SlideView { name: s.name, level: s.level, blocks: s.blocks.map_values(|b: BlockView| as_written(b, t)) }
}

/// Parsed slides as the export writes them.
pub open spec fn slides_as_written(ps: Seq<SlideView>, t: ThemeView) -> Seq<SlideView> {
    ps.map_values(|s: SlideView| slide_as_written(s, t))
}

/// Code blocks are styled as code.
proof fn lemma_code_style(t: ThemeView, f: bool)
    ensures
        code_style(style_text(BlockKind::Code, t, f)),
{
    reveal_strlit(",\"whiteSpace\":\"pre\",\"backgroundColor\":\"");
    reveal_strlit("whiteSpace");
    let st = style_text(BlockKind::Code, t, f);
    let x = "{\"fontSize\":26,\"color\":\""@ + t.ink + "\",\"fontWeight\":400"@ + ",\"fontFamily\":\""@ + t.font_mono
        + "\""@;
    let l = ",\"whiteSpace\":\"pre\",\"backgroundColor\":\""@;
    let y = t.surface + "\",\"borderRadius\":12,\"padding\":22,\"displayEffect\":\"fade\""@ + "}"@;
    assert(st =~= x + l + y);
    let i: int = (x.len() + 2) as int;
    assert(st.subrange(i, i + 10) =~= "whiteSpace"@);
}

/// The first element of a laid-out slide's elements is its first text
/// element when it is one.
proof fn lemma_first_text_zero(els: Seq<Element>, k: int)
    requires
        1 <= k <= els.len(),
        opt_text(els[0].element_type) == Some("text"@),
    ensures
        first_text_in(els, k) == Some(0int),
    decreases k,
{
    if k > 1 {
        lemma_first_text_zero(els, k - 1);
    } else {
        assert(first_text_in(els, 0) == None::<int>);
    }
}

/// Blocks after a title start below the title zone (at 178.8px or lower).
proof fn lemma_below_title(bs: Seq<BlockView>, k: int)
    requires
        bs.len() >= 1,
        bs[0].kind == BlockKind::Title,
        k >= 1,
    ensures
        block_top(bs, k) >= 17880,
    decreases k,
{
    lemma_block_top_range(bs, k - 1);
    if k == 1 {
        let n = bs[0].text.len();
        let lt = lines_tenths(BlockKind::Title, n);
        assert(lt >= 10) by {
            if n > 0 {
                let need = (n * 72 * 11) as int;
                let per = (1700 * 20) as int;
                assert(need >= 1);
                assert((need + per - 1) / per >= 1) by (nonlinear_arith)
                    requires
                        need >= 1,
                        per == 34000,
                ;
            }
        }
        assert(crate::deck_doc::line_tenths(BlockKind::Title) == 828);
        assert(crate::deck_doc::pad(BlockKind::Title) == 0);
        assert(lt * 828 >= 8280) by (nonlinear_arith)
            requires
                lt >= 10,
        ;
        assert(block_height(BlockKind::Title, n) >= 8280);
        assert(block_top(bs, 0) == 7000);
    } else {
        lemma_below_title(bs, k - 1);
    }
}

/// The markdown an element laid out from block `k >= 1` contributes is the
/// markdown written for that block.
proof fn lemma_element_md(e: Element, b: BlockView, bs: Seq<BlockView>, k: int, id: nat, t: ThemeView, f: bool)
    requires
        bs.len() >= 1,
        bs[0].kind == BlockKind::Title,
        1 <= k < bs.len(),
        b == bs[k],
        b.kind != BlockKind::Title,
        laid_out(e, id, b, block_top(bs, k), clamp(block_height(b.kind, b.text.len()) as int), t, f),
    ensures
        element_text(e) == block_md(as_written(b, t)),
{
    reveal_strlit("text");
    reveal_strlit("callout");
    reveal_strlit("paragraph");
    lemma_below_title(bs, k);
    lemma_block_top_range(bs, k);
    let y = block_top(bs, k);
    assert(e.y == Coord::Hundredths(y as u64));
    assert(!crate::models::slide_deck::coord_at_most(e.y, 12000, crate::deck_doc::title_zone_y_bits()));
    if b.kind == BlockKind::Code {
        lemma_code_style(t, f);
    }
    assert(style_text(BlockKind::Subtitle, t, f) == style_text(BlockKind::Subtitle, t, false));
    assert(style_text(BlockKind::Para, t, f) == style_text(BlockKind::Para, t, false));
    assert("text"@.len() == 4 && "callout"@.len() == 7 && "paragraph"@.len() == 9);
    assert("text"@ != "callout"@);
    assert("paragraph"@ != "callout"@);
    let c = trim(b.text);
    let raw = e.content->0;
    assert(raw@ == b.text);
    if c.len() > 0 {
        let st = e.style->0@;
        assert(st == style_text(b.kind, t, f));
        reveal_strlit("\n\n");
        reveal_strlit("\n```");
        reveal_strlit("\n```\n\n");
        match b.kind {
            BlockKind::Callout => {
                assert(opt_text(e.element_type) == Some("callout"@));
                assert(element_text(e) == "> "@ + c + "\n\n"@);
            },
            BlockKind::Code => {
                assert(opt_text(e.element_type) == Some("text"@));
                assert(code_style(st));
                assert(element_text(e) == "```\n"@ + c + "\n```\n\n"@);
                assert("\n```\n\n"@ =~= "\n```"@ + "\n\n"@);
                assert(element_text(e) =~= block_md(b));
            },
            _ => {
                assert(opt_text(e.element_type) == Some("text"@));
                if code_style(st) {
                    assert(written_kind(b.kind, t) == BlockKind::Code);
                    assert(element_text(e) == "```\n"@ + c + "\n```\n\n"@);
                    assert("\n```\n\n"@ =~= "\n```"@ + "\n\n"@);
                    assert(element_text(e) =~= block_md(as_written(b, t)));
                } else {
                    assert(written_kind(b.kind, t) == b.kind);
                    assert(element_text(e) == c + "\n\n"@);
                }
            },
        }
    }
}

/// The markdown of elements `0..k` of a laid-out slide is the markdown
/// written for its blocks `1..k`: the title element is skipped.
proof fn lemma_elements_md(els: Seq<Element>, sl: SlideView, t: ThemeView, first: nat, k: int)
    requires
        parsed_slide(sl),
        slide_laid_out(els, sl.blocks, sl.level, t, first),
        0 <= k <= els.len(),
    ensures
        elements_text(els, k) == blocks_md(slide_as_written(sl, t).blocks, k),
    decreases k,
{
    let bs = sl.blocks;
    if k == 1 {
        reveal_strlit("text");
        let e = els[0];
        assert(laid_out(
            e,
            (first + 1) as nat,
            bs[0],
            block_top(bs, 0),
            clamp(block_height(bs[0].kind, bs[0].text.len()) as int),
            t,
            bs[0].kind == BlockKind::Title && sl.level == 1 && block_top(bs, 0) == title_y(),
        ));
        assert(block_top(bs, 0) == 7000);
        assert(elements_text(els, 1) == elements_text(els, 0) + element_text(e));
        assert(element_text(e) == Seq::<char>::empty());
        assert(elements_text(els, 1) =~= Seq::<char>::empty());
    } else if k > 1 {
        lemma_elements_md(els, sl, t, first, k - 1);
        let b = bs[k - 1];
        assert(b.kind != BlockKind::Title);
        assert(slide_as_written(sl, t).blocks[k - 1] == as_written(b, t));
        lemma_element_md(
            els[k - 1],
            b,
            bs,
            k - 1,
            (first + (k - 1) + 1) as nat,
            t,
            b.kind == BlockKind::Title && sl.level == 1 && block_top(bs, k - 1) == title_y(),
        );
    }
}

/// The markdown an export writes for an imported content slide is the
/// markdown written for the parsed slide.
proof fn lemma_slide_md(s: Slide, sl: SlideView, t: ThemeView, first: nat)
    requires
        parsed_slide(sl),
        slide_laid_out(s.elements@, sl.blocks, sl.level, t, first),
        s.level == Some(sl.level as i32),
    ensures
        slide_text(s) == slide_md(slide_as_written(sl, t)),
{
    reveal_strlit("text");
    let els = s.elements@;
    let bs = sl.blocks;
    assert(laid_out(
        els[0],
        (first + 1) as nat,
        bs[0],
        block_top(bs, 0),
        clamp(block_height(bs[0].kind, bs[0].text.len()) as int),
        t,
        bs[0].kind == BlockKind::Title && sl.level == 1 && block_top(bs, 0) == title_y(),
    ));
    lemma_first_text_zero(els, els.len() as int);
    lemma_elements_md(els, sl, t, first, els.len() as int);
    assert(s.level != Some(0i32));
    assert(slide_heading(s) =~= "# "@ + sl.name + "\n\n"@);
}

/// The slide text an export writes for an imported deck's slides is the
/// markdown written for the parsed slides.
proof fn lemma_slides_md(slides: Seq<Slide>, meta: DeckMeta, t: ThemeView, ps: Seq<SlideView>, j: int)
    requires
        deck_slides(slides, meta, t, ps),
        forall|m: int| 0 <= m < ps.len() ==> parsed_slide(#[trigger] ps[m]),
        0 <= j <= ps.len(),
    ensures
        slides_text(slides, j + 1) == body_md(slides_as_written(ps, t), j),
    decreases j,
{
    if j == 0 {
        assert(slide_text(slides[0]) == Seq::<char>::empty());
        assert(slides_text(slides, 0) == Seq::<char>::empty());
        assert(slides_text(slides, 1) == slides_text(slides, 0) + slide_text(slides[0]));
        assert(slides_text(slides, 1) =~= Seq::<char>::empty());
        assert(body_md(slides_as_written(ps, t), 0) == Seq::<char>::empty());
    } else {
        lemma_slides_md(slides, meta, t, ps, j - 1);
        let s = slides[j];
        assert(s == slides[(j - 1) + 1]);
        lemma_slide_md(s, ps[j - 1], t, cover_blocks(meta).len() + blocks_before(ps, j - 1));
        assert(slides_as_written(ps, t)[j - 1] == slide_as_written(ps[j - 1], t));
    }
}

/// Export reads back: a deck imported from a markdown body and
/// exported again writes, after its frontmatter, a slide body that reads
/// back into as many slides as the import found, with the same titles in
/// the same order. This holds whatever the theme, when every block's
/// written markdown (a sub-title or paragraph whose theme style looks like
/// code is written as a code block: `as_written`) reads back into the same
/// slide (`reads_back`).
pub proof fn lemma_export_reads_back(
    body: Seq<char>,
    ps: Seq<SlideView>,
    meta: DeckMeta,
    t: ThemeView,
    input: SlideDeckInput,
    deck: crate::models::slide_deck::SlideDeck,
    t2: ThemeView,
)
    requires
        crate::markdown::read_body(body) == Outcome::Slides(ps),
        imported(input, meta, t, ps),
        deck.slides@ == input.slides@,
        forall|m: int, k: int|
            0 <= m < ps.len() && 1 <= k < ps[m].blocks.len() ==> reads_back(as_written(#[trigger] ps[m].blocks[k], t)),
    ensures
        crate::deck_doc::export_text(deck, t2) == crate::deck_doc::export_header(deck, t2) + slides_text(
            deck.slides@,
            deck.slides@.len() as int,
        ),
        crate::markdown::read_body(slides_text(deck.slides@, deck.slides@.len() as int)) matches Outcome::Slides(qs)
            && qs.len() == ps.len() && forall|m: int| 0 <= m < ps.len() ==> (#[trigger] qs[m]).name == ps[m].name,
{
    let lines = lines_of(body);
    lemma_lines_no_nl(body);
    lemma_read_parsed(lines, 0, Seq::empty(), None);
    assert(deck_slides(input.slides@, meta, t, ps));
    lemma_slides_md(input.slides@, meta, t, ps, ps.len() as int);
    let pw = slides_as_written(ps, t);
    assert(body_reads_back(pw)) by {
        assert forall|m: int| 0 <= m < pw.len() implies heading_name((#[trigger] pw[m]).name) by {
            assert(parsed_slide(ps[m]));
            assert(pw[m].name == ps[m].name);
        }
        assert forall|m: int, k: int| 0 <= m < pw.len() && 1 <= k < pw[m].blocks.len() implies reads_back(
            #[trigger] pw[m].blocks[k],
        ) by {
            assert(pw[m] == slide_as_written(ps[m], t));
            assert(pw[m].blocks[k] == as_written(ps[m].blocks[k], t));
        }
    }
    lemma_body_lines(pw, pw.len() as int);
    lemma_read_written_lines(pw);
    assert forall|m: int| 0 <= m < ps.len() implies pw[m].name == ps[m].name by {
        assert(pw[m] == slide_as_written(ps[m], t));
    }
}

} // verus!
