//! The reader page: the page template with the deck's slug filled in.
use vstd::prelude::*;

verus! {

/// The placeholder the page template holds for the deck's slug.
pub open spec fn slug_mark() -> Seq<char> {
    seq!['_', '_', 'S', 'L', 'U', 'G', '_', '_']
}

/// `s` with every occurrence of the placeholder, from left to right and
/// without overlap, replaced by `slug` (as `str::replace` does).
pub open spec fn fill_slug(s: Seq<char>, slug: Seq<char>) -> Seq<char>
    decreases s.len(),
{
    if s.len() < slug_mark().len() {
        s
    } else if s.take(slug_mark().len() as int) == slug_mark() {
        slug + fill_slug(s.skip(slug_mark().len() as int), slug)
    } else {
        seq![s[0]] + fill_slug(s.drop_first(), slug)
    }
}

/// The reader page for the deck `slug`: the template with every
/// placeholder replaced by the slug.
pub fn reader_page(template: &str, slug: &str) -> (page: String)
    ensures
        page@ == fill_slug(template@, slug@),
{
    let v = crate::text::chars_of(template);
    let mark: Vec<char> = vec!['_', '_', 'S', 'L', 'U', 'G', '_', '_'];
    assert(mark@ =~= slug_mark());
    let n = v.len();
    let mut out = String::new();
    let mut i: usize = 0;
    assert(v@.skip(0) =~= v@);
    assert(out@ + fill_slug(v@.skip(0), slug@) =~= fill_slug(template@, slug@));
    while i < n
        invariant
            n == v@.len(),
            v@ == template@,
            mark@ == slug_mark(),
            i <= n,
            out@ + fill_slug(v@.skip(i as int), slug@) == fill_slug(template@, slug@),
        decreases n - i,
    {
        let ghost rest = v@.skip(i as int);
        let ghost out0 = out@;
        if n - i >= 8 && crate::text::range_starts_with(&v, i, n, &mark) {
            proof {
                assert(v@.subrange(i as int, n as int) =~= rest);
                assert(rest.take(8) == slug_mark());
                assert(rest.skip(8) =~= v@.skip(i + 8));
                assert(fill_slug(rest, slug@) == slug@ + fill_slug(rest.skip(8), slug@));
            }
            crate::text::push_str(&mut out, slug);
            proof {
                assert(out@ + fill_slug(v@.skip(i + 8), slug@) =~= out0 + fill_slug(rest, slug@));
            }
            i = i + 8;
        } else {
            let c = v[i];
            proof {
                assert(v@.subrange(i as int, n as int) =~= rest);
                assert(rest.drop_first() =~= v@.skip(i + 1));
                assert(rest[0] == c);
                if rest.len() < 8 {
                    assert(fill_slug(rest, slug@) == rest);
                    assert(fill_slug(rest.drop_first(), slug@) == rest.drop_first());
                    assert(rest =~= seq![c] + rest.drop_first());
                } else {
                    assert(fill_slug(rest, slug@) == seq![c] + fill_slug(rest.drop_first(), slug@));
                }
            }
            crate::text::push_char(&mut out, c);
            proof {
                assert(out@ + fill_slug(v@.skip(i + 1), slug@) =~= out0 + fill_slug(rest, slug@));
            }
            i = i + 1;
        }
    }
    proof {
        assert(v@.skip(n as int) =~= Seq::<char>::empty());
    }
    out
}

} // verus!
