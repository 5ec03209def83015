//! Character-level text operations used throughout the library.
//!
//! Text is modelled as `Seq<char>` (the view of `str` and `String`); the
//! executable helpers work on character slices and return exact results
//! over the spec functions below.
use vstd::prelude::*;
use vstd::string::*;

verus! {

broadcast use vstd::string::group_string_axioms;

/// Unicode `White_Space` code points (the set `char::is_whitespace` tests).
pub open spec fn is_ws(c: char) -> bool {
    let u = c as u32;
    ||| (0x09 <= u && u <= 0x0d)
    ||| u == 0x20
    ||| u == 0x85
    ||| u == 0xa0
    ||| u == 0x1680
    ||| (0x2000 <= u && u <= 0x200a)
    ||| u == 0x2028
    ||| u == 0x2029
    ||| u == 0x202f
    ||| u == 0x205f
    ||| u == 0x3000
}

/// Number of white-space characters at the start of `s`.
pub open spec fn lead_ws(s: Seq<char>) -> nat
    decreases s.len(),
{
    if s.len() == 0 || !is_ws(s[0]) {
        0
    } else {
        1 + lead_ws(s.drop_first())
    }
}

/// Number of white-space characters at the end of `s`.
pub open spec fn trail_ws(s: Seq<char>) -> nat
    decreases s.len(),
{
    if s.len() == 0 || !is_ws(s.last()) {
        0
    } else {
        1 + trail_ws(s.drop_last())
    }
}

/// `s` without leading white space (`str::trim_start`).
pub open spec fn trim_start(s: Seq<char>) -> Seq<char> {
    s.skip(lead_ws(s) as int)
}

/// `s` without trailing white space (`str::trim_end`).
pub open spec fn trim_end(s: Seq<char>) -> Seq<char> {
    s.take(s.len() - trail_ws(s))
}

/// `s` without leading and trailing white space (`str::trim`).
pub open spec fn trim(s: Seq<char>) -> Seq<char> {
    trim_end(trim_start(s))
}

/// `s` consists of white space only (possibly nothing).
pub open spec fn is_blank(s: Seq<char>) -> bool {
    trim(s).len() == 0
}

/// `s` begins with `p`.
pub open spec fn starts_with(s: Seq<char>, p: Seq<char>) -> bool {
    p.len() <= s.len() && s.take(p.len() as int) == p
}

/// `p` occurs in `s` as a contiguous run.
pub open spec fn contains_seq(s: Seq<char>, p: Seq<char>) -> bool {
    exists|i: int|
        0 <= i && i + p.len() <= s.len() && #[trigger] s.subrange(i, i + p.len()) == p
}

/// `s` with every leading `c` removed (`str::trim_start_matches` on a char).
pub open spec fn strip_all_start(s: Seq<char>, c: char) -> Seq<char>
    decreases s.len(),
{
    if s.len() > 0 && s[0] == c {
        strip_all_start(s.drop_first(), c)
    } else {
        s
    }
}

/// `s` with every trailing `c` removed (`str::trim_end_matches` on a char).
pub open spec fn strip_all_end(s: Seq<char>, c: char) -> Seq<char>
    decreases s.len(),
{
    if s.len() > 0 && s.last() == c {
        strip_all_end(s.drop_last(), c)
    } else {
        s
    }
}

/// Code of `c` after ASCII upper-to-lower mapping.
pub open spec fn ascii_lower_code(c: char) -> u32 {
    if 'A' <= c && c <= 'Z' {
        (c as u32 + 32) as u32
    } else {
        c as u32
    }
}

/// ASCII case-insensitive equality (`str::eq_ignore_ascii_case`).
pub open spec fn eq_ignore_ascii_case(a: Seq<char>, b: Seq<char>) -> bool {
    a.len() == b.len() && forall|i: int|
        0 <= i < a.len() ==> #[trigger] ascii_lower_code(a[i]) == ascii_lower_code(b[i])
}

/// ASCII letter or digit (`char::is_ascii_alphanumeric`).
pub open spec fn is_ascii_alnum(c: char) -> bool {
    ('0' <= c && c <= '9') || ('a' <= c && c <= 'z') || ('A' <= c && c <= 'Z')
}

/// ASCII hexadecimal digit (`char::is_ascii_hexdigit`).
pub open spec fn is_ascii_hex(c: char) -> bool {
    ('0' <= c && c <= '9') || ('a' <= c && c <= 'f') || ('A' <= c && c <= 'F')
}

/// The decimal digit character for `d < 10`.
pub open spec fn digit_char(d: nat) -> char {
    if d == 0 {
        '0'
    } else if d == 1 {
        '1'
    } else if d == 2 {
        '2'
    } else if d == 3 {
        '3'
    } else if d == 4 {
        '4'
    } else if d == 5 {
        '5'
    } else if d == 6 {
        '6'
    } else if d == 7 {
        '7'
    } else if d == 8 {
        '8'
    } else {
        '9'
    }
}

/// Decimal notation of `n` (as `Display` writes an unsigned integer).
pub open spec fn decimal(n: nat) -> Seq<char>
    decreases n,
{
    if n < 10 {
        seq![digit_char(n)]
    } else {
        decimal(n / 10).push(digit_char(n % 10))
    }
}

/// Decimal notation of a signed integer (as `Display` writes it).
pub open spec fn signed_decimal(n: int) -> Seq<char> {
    if n < 0 {
        seq!['-'] + decimal((-n) as nat)
    } else {
        decimal(n as nat)
    }
}

/// Join `parts` with `sep` between consecutive parts.
pub open spec fn join(parts: Seq<Seq<char>>, sep: Seq<char>) -> Seq<char>
    decreases parts.len(),
{
    if parts.len() == 0 {
        seq![]
    } else if parts.len() == 1 {
        parts[0]
    } else {
        join(parts.drop_last(), sep) + sep + parts.last()
    }
}

// ---------------------------------------------------------------------------
// Lemmas about the spec functions
// ---------------------------------------------------------------------------

/// ASCII lowercasing a character gives the code `ascii_lower_code` names.
pub proof fn lemma_ascii_lower_char_code(c: char)
    ensures
        crate::outside::ascii_lower_char(c) as u32 == ascii_lower_code(c),
{
}

/// Compared with a word of lowercase ASCII letters, ASCII lowercasing a
/// text and ASCII case-insensitive equality agree.
pub proof fn lemma_ascii_lowered_eq(t: Seq<char>, w: Seq<char>)
    requires
        forall|k: int| 0 <= k < w.len() ==> 'a' <= #[trigger] w[k] && w[k] <= 'z',
    ensures
        (crate::outside::ascii_lowered(t) == w) <==> eq_ignore_ascii_case(t, w),
{
    let l = crate::outside::ascii_lowered(t);
    if l == w {
        assert forall|i: int| 0 <= i < t.len() implies #[trigger] ascii_lower_code(t[i]) == ascii_lower_code(w[i]) by {
            lemma_ascii_lower_char_code(t[i]);
            assert(l[i] == w[i]);
        }
    }
    if eq_ignore_ascii_case(t, w) {
        assert forall|i: int| 0 <= i < t.len() implies l[i] == w[i] by {
            lemma_ascii_lower_char_code(t[i]);
            assert(ascii_lower_code(t[i]) == ascii_lower_code(w[i]));
        }
        assert(l =~= w);
    }
}

/// A text equal to a word of lowercase ASCII letters, ignoring ASCII case,
/// is ASCII.
pub proof fn lemma_eq_ignore_case_ascii(t: Seq<char>, w: Seq<char>)
    requires
        forall|k: int| 0 <= k < w.len() ==> 'a' <= #[trigger] w[k] && w[k] <= 'z',
        eq_ignore_ascii_case(t, w),
    ensures
        crate::outside::is_ascii_text(t),
{
    assert forall|k: int| 0 <= k < t.len() implies crate::outside::is_ascii_char(#[trigger] t[k]) by {
        assert(ascii_lower_code(t[k]) == ascii_lower_code(w[k]));
    }
}

/// A run of `s` found at position `i` is contained in `s`.
pub proof fn lemma_contains_at(s: Seq<char>, p: Seq<char>, i: int)
    requires
        0 <= i,
        i + p.len() <= s.len(),
        s.subrange(i, i + p.len()) == p,
    ensures
        contains_seq(s, p),
{
}

/// A text is contained in any text it stands in the middle of.
pub proof fn lemma_contains_middle(x: Seq<char>, b: Seq<char>, y: Seq<char>)
    ensures
        contains_seq(x + b + y, b),
{
    let s = x + b + y;
    assert(s.subrange(x.len() as int, (x.len() + b.len()) as int) =~= b);
    lemma_contains_at(s, b, x.len() as int);
}

/// Containment is transitive.
pub proof fn lemma_contains_trans(a: Seq<char>, b: Seq<char>, c: Seq<char>)
    requires
        contains_seq(a, b),
        contains_seq(b, c),
    ensures
        contains_seq(a, c),
{
    let i = choose|i: int| 0 <= i && i + b.len() <= a.len() && #[trigger] a.subrange(i, i + b.len()) == b;
    let j = choose|j: int| 0 <= j && j + c.len() <= b.len() && #[trigger] b.subrange(j, j + c.len()) == c;
    assert(a.subrange(i + j, i + j + c.len()) =~= b.subrange(j, j + c.len()));
    lemma_contains_at(a, c, i + j);
}

/// Scanning characterisation of `lead_ws`.
pub proof fn lemma_lead_ws(s: Seq<char>, n: int)
    requires
        0 <= n <= s.len(),
        forall|k: int| 0 <= k < n ==> is_ws(#[trigger] s[k]),
        n == s.len() || !is_ws(s[n]),
    ensures
        lead_ws(s) == n,
    decreases n,
{
    if n > 0 {
        assert forall|k: int| 0 <= k < n - 1 implies is_ws(#[trigger] s.drop_first()[k]) by {
            assert(s.drop_first()[k] == s[k + 1]);
        }
        lemma_lead_ws(s.drop_first(), n - 1);
    }
}

/// Scanning characterisation of `trail_ws`.
pub proof fn lemma_trail_ws(s: Seq<char>, n: int)
    requires
        0 <= n <= s.len(),
        forall|k: int| s.len() - n <= k < s.len() ==> is_ws(#[trigger] s[k]),
        n == s.len() || !is_ws(s[s.len() - n - 1]),
    ensures
        trail_ws(s) == n,
    decreases n,
{
    if n > 0 {
        assert forall|k: int| s.drop_last().len() - (n - 1) <= k < s.drop_last().len() implies is_ws(
            #[trigger] s.drop_last()[k],
        ) by {
            assert(s.drop_last()[k] == s[k]);
        }
        lemma_trail_ws(s.drop_last(), n - 1);
    }
}

/// Scanning characterisation of `strip_all_start`.
pub proof fn lemma_strip_all_start(s: Seq<char>, c: char, n: int)
    requires
        0 <= n <= s.len(),
        forall|k: int| 0 <= k < n ==> #[trigger] s[k] == c,
        n == s.len() || s[n] != c,
    ensures
        strip_all_start(s, c) == s.skip(n),
    decreases n,
{
    if n > 0 {
        assert forall|k: int| 0 <= k < n - 1 implies #[trigger] s.drop_first()[k] == c by {
            assert(s.drop_first()[k] == s[k + 1]);
        }
        lemma_strip_all_start(s.drop_first(), c, n - 1);
        assert(s.drop_first().skip(n - 1) =~= s.skip(n));
    } else {
        assert(s.skip(0) =~= s);
    }
}

/// Scanning characterisation of `strip_all_end`.
pub proof fn lemma_strip_all_end(s: Seq<char>, c: char, n: int)
    requires
        0 <= n <= s.len(),
        forall|k: int| n <= k < s.len() ==> #[trigger] s[k] == c,
        n == 0 || s[n - 1] != c,
    ensures
        strip_all_end(s, c) == s.take(n),
    decreases s.len() - n,
{
    if n < s.len() {
        assert forall|k: int| n <= k < s.drop_last().len() implies #[trigger] s.drop_last()[k]
            == c by {
            assert(s.drop_last()[k] == s[k]);
        }
        lemma_strip_all_end(s.drop_last(), c, n);
        assert(s.drop_last().take(n) =~= s.take(n));
    } else {
        assert(s.take(n) =~= s);
    }
}

/// Trimming a string that has no white space at either end changes nothing.
pub proof fn lemma_trim_clean(s: Seq<char>)
    requires
        s.len() == 0 || (!is_ws(s[0]) && !is_ws(s.last())),
    ensures
        trim(s) == s,
{
    lemma_lead_ws(s, 0);
    assert(s.skip(0) =~= s);
    lemma_trail_ws(s, 0);
    assert(s.take(s.len() as int) =~= s);
}

/// The result of `trim` starts and ends with a non-white-space character.
pub proof fn lemma_trim_ends(s: Seq<char>)
    ensures
        trim(s).len() == 0 || (!is_ws(trim(s)[0]) && !is_ws(trim(s).last())),
        trim(trim(s)) == trim(s),
    decreases s.len(),
{
    lemma_lead_ws_props(s);
    let t = trim_start(s);
    lemma_trail_ws_props(t);
    let r = trim(s);
    if r.len() > 0 {
        assert(r[0] == t[0]);
    }
    lemma_trim_clean(r);
}

/// Basic facts about `lead_ws`.
pub proof fn lemma_lead_ws_props(s: Seq<char>)
    ensures
        lead_ws(s) <= s.len(),
        forall|k: int| 0 <= k < lead_ws(s) ==> is_ws(#[trigger] s[k]),
        lead_ws(s) == s.len() || !is_ws(s[lead_ws(s) as int]),
    decreases s.len(),
{
    if s.len() > 0 && is_ws(s[0]) {
        lemma_lead_ws_props(s.drop_first());
        assert forall|k: int| 0 <= k < lead_ws(s) implies is_ws(#[trigger] s[k]) by {
            if k > 0 {
                assert(s[k] == s.drop_first()[k - 1]);
            }
        }
    }
}

/// Basic facts about `trail_ws`.
pub proof fn lemma_trail_ws_props(s: Seq<char>)
    ensures
        trail_ws(s) <= s.len(),
        forall|k: int| s.len() - trail_ws(s) <= k < s.len() ==> is_ws(#[trigger] s[k]),
        trail_ws(s) == s.len() || !is_ws(s[s.len() - trail_ws(s) - 1]),
    decreases s.len(),
{
    if s.len() > 0 && is_ws(s.last()) {
        lemma_trail_ws_props(s.drop_last());
        assert forall|k: int| s.len() - trail_ws(s) <= k < s.len() implies is_ws(#[trigger] s[k]) by {
            if k < s.len() - 1 {
                assert(s[k] == s.drop_last()[k]);
            }
        }
    }
}

// ---------------------------------------------------------------------------
// Executable helpers
// ---------------------------------------------------------------------------

/// Executable test for a Unicode white-space character.
pub fn is_white_space(c: char) -> (b: bool)
    ensures
        b == is_ws(c),
{
    let u = c as u32;
    (0x09 <= u && u <= 0x0d) || u == 0x20 || u == 0x85 || u == 0xa0 || u == 0x1680 || (0x2000 <= u
        && u <= 0x200a) || u == 0x2028 || u == 0x2029 || u == 0x202f || u == 0x205f || u == 0x3000
}

/// The characters of a string slice, in order.
pub fn chars_of(s: &str) -> (v: Vec<char>)
    ensures
        v@ == s@,
{
    let mut v: Vec<char> = Vec::new();
    for c in it: s.chars()
        invariant
            v@ == it.seq().take(it.index() as int),
            it.seq() == s@,
    {
        v.push(c);
    }
    v
}

/// Appends one character to a string (`String::push`).
#[verifier::external_body]
pub(crate) fn push_char(s: &mut String, c: char)
    ensures
        final(s)@ == old(s)@.push(c),
{
    s.push(c);
}

/// Appends the characters `v[lo..hi]` to `s`.
pub fn push_chars(s: &mut String, v: &[char], lo: usize, hi: usize)
    requires
        lo <= hi <= v@.len(),
    ensures
        final(s)@ == old(s)@ + v@.subrange(lo as int, hi as int),
{
    let mut i = lo;
    while i < hi
        invariant
            lo <= i <= hi <= v@.len(),
            s@ == old(s)@ + v@.subrange(lo as int, i as int),
        decreases hi - i,
    {
        push_char(s, v[i]);
        i += 1;
        assert(v@.subrange(lo as int, i as int) =~= v@.subrange(lo as int, i - 1).push(v@[i - 1]));
    }
}

/// Appends a string slice to `s`.
pub fn push_str(s: &mut String, t: &str)
    ensures
        final(s)@ == old(s)@ + t@,
{
    s.append(t);
}

/// A new string holding `v[lo..hi]`.
pub fn string_of(v: &[char], lo: usize, hi: usize) -> (s: String)
    requires
        lo <= hi <= v@.len(),
    ensures
        s@ == v@.subrange(lo as int, hi as int),
{
    let mut s = String::new();
    push_chars(&mut s, v, lo, hi);
    s
}

/// A new string with the contents of `t`.
pub fn owned(t: &str) -> (s: String)
    ensures
        s@ == t@,
{
    let mut s = String::new();
    push_str(&mut s, t);
    s
}

/// A copy of `t`.
pub fn copy_string(t: &String) -> (s: String)
    ensures
        s@ == t@,
{
    t.clone()
}

/// Number of leading white-space characters of `v[lo..hi]`.
pub fn lead_ws_in(v: &[char], lo: usize, hi: usize) -> (n: usize)
    requires
        lo <= hi <= v@.len(),
    ensures
        n == lead_ws(v@.subrange(lo as int, hi as int)),
        lo + n <= hi,
{
    let ghost s = v@.subrange(lo as int, hi as int);
    let mut i = lo;
    while i < hi && is_white_space(v[i])
        invariant
            lo <= i <= hi <= v@.len(),
            forall|k: int| lo <= k < i ==> is_ws(#[trigger] v@[k]),
        decreases hi - i,
    {
        i += 1;
    }
    proof {
        assert forall|k: int| 0 <= k < i - lo implies is_ws(#[trigger] s[k]) by {
            assert(s[k] == v@[lo + k]);
        }
        if i < hi {
            assert(s[i - lo] == v@[i as int]);
        }
        lemma_lead_ws(s, i - lo);
    }
    i - lo
}

/// Number of trailing white-space characters of `v[lo..hi]`.
pub fn trail_ws_in(v: &[char], lo: usize, hi: usize) -> (n: usize)
    requires
        lo <= hi <= v@.len(),
    ensures
        n == trail_ws(v@.subrange(lo as int, hi as int)),
        lo + n <= hi,
{
    let ghost s = v@.subrange(lo as int, hi as int);
    let mut j = hi;
    while j > lo && is_white_space(v[j - 1])
        invariant
            lo <= j <= hi <= v@.len(),
            forall|k: int| j <= k < hi ==> is_ws(#[trigger] v@[k]),
        decreases j - lo,
    {
        j -= 1;
    }
    proof {
        assert forall|k: int| s.len() - (hi - j) <= k < s.len() implies is_ws(#[trigger] s[k]) by {
            assert(s[k] == v@[lo + k]);
        }
        if j > lo {
            assert(s[s.len() - (hi - j) - 1] == v@[j - 1]);
        }
        lemma_trail_ws(s, hi - j);
    }
    hi - j
}

/// Bounds `(a, b)` such that `v[a..b]` is the trimmed form of `v[lo..hi]`.
pub fn trim_bounds(v: &[char], lo: usize, hi: usize) -> (r: (usize, usize))
    requires
        lo <= hi <= v@.len(),
    ensures
        lo <= r.0 <= r.1 <= hi,
        v@.subrange(r.0 as int, r.1 as int) == trim(v@.subrange(lo as int, hi as int)),
        v@.subrange(r.0 as int, hi as int) == trim_start(v@.subrange(lo as int, hi as int)),
{
    let a = lo + lead_ws_in(v, lo, hi);
    let n = trail_ws_in(v, a, hi);
    let ghost s = v@.subrange(lo as int, hi as int);
    assert(trim_start(s) =~= v@.subrange(a as int, hi as int));
    assert(trim_end(v@.subrange(a as int, hi as int)) =~= v@.subrange(a as int, (hi - n) as int));
    (a, hi - n)
}

/// The trimmed form of a string slice.
pub fn trim_str(t: &str) -> (s: String)
    ensures
        s@ == trim(t@),
{
    let v = chars_of(t);
    let (a, b) = trim_bounds(&v, 0, v.len());
    assert(v@.subrange(0, v@.len() as int) =~= v@);
    string_of(&v, a, b)
}

/// Whether a string slice is empty after trimming.
pub fn str_is_blank(t: &str) -> (b: bool)
    ensures
        b == is_blank(t@),
{
    let v = chars_of(t);
    let (a, e) = trim_bounds(&v, 0, v.len());
    assert(v@.subrange(0, v@.len() as int) =~= v@);
    a == e
}

/// Whether `v[lo..hi]` begins with `p`.
pub fn range_starts_with(v: &[char], lo: usize, hi: usize, p: &[char]) -> (b: bool)
    requires
        lo <= hi <= v@.len(),
    ensures
        b == starts_with(v@.subrange(lo as int, hi as int), p@),
{
    if p.len() > hi - lo {
        return false;
    }
    let mut k: usize = 0;
    while k < p.len()
        invariant
            lo <= hi <= v@.len(),
            p@.len() <= hi - lo,
            0 <= k <= p@.len(),
            forall|j: int| 0 <= j < k ==> v@[lo + j] == #[trigger] p@[j],
        decreases p@.len() - k,
    {
        if v[lo + k] != p[k] {
            assert(v@.subrange(lo as int, hi as int).take(p@.len() as int)[k as int] != p@[k as int]);
            return false;
        }
        k += 1;
    }
    assert(v@.subrange(lo as int, hi as int).take(p@.len() as int) =~= p@);
    true
}

/// Whether `v[lo..hi]` equals `p`.
pub fn range_equals(v: &[char], lo: usize, hi: usize, p: &[char]) -> (b: bool)
    requires
        lo <= hi <= v@.len(),
    ensures
        b == (v@.subrange(lo as int, hi as int) == p@),
{
    if p.len() != hi - lo {
        return false;
    }
    let b = range_starts_with(v, lo, hi, p);
    proof {
        let s = v@.subrange(lo as int, hi as int);
        assert(s.take(p@.len() as int) =~= s);
    }
    b
}

/// Whether `t` contains `p`.
pub fn str_contains(t: &str, p: &str) -> (b: bool)
    ensures
        b == contains_seq(t@, p@),
{
    let v = chars_of(t);
    let w = chars_of(p);
    if w.len() > v.len() {
        return false;
    }
    let n = v.len() - w.len();
    let mut i: usize = 0;
    loop
        invariant
            w@.len() <= v@.len(),
            n == v@.len() - w@.len(),
            v@.len() <= usize::MAX,
            v@ == t@,
            w@ == p@,
            0 <= i <= n,
            forall|j: int|
                0 <= j < i ==> #[trigger] v@.subrange(j, j + w@.len()) != w@,
        decreases n - i,
    {
        if range_equals(&v, i, i + w.len(), &w) {
            return true;
        }
        if i == n {
            return false;
        }
        i += 1;
    }
}

/// ASCII case-insensitive comparison of two string slices.
pub fn str_eq_ignore_ascii_case(a: &str, b: &str) -> (r: bool)
    ensures
        r == eq_ignore_ascii_case(a@, b@),
{
    let va = chars_of(a);
    let vb = chars_of(b);
    if va.len() != vb.len() {
        return false;
    }
    let mut i: usize = 0;
    while i < va.len()
        invariant
            va@ == a@,
            vb@ == b@,
            va@.len() == vb@.len(),
            0 <= i <= va@.len(),
            forall|k: int| 0 <= k < i ==> #[trigger] ascii_lower_code(va@[k]) == ascii_lower_code(vb@[k]),
        decreases va@.len() - i,
    {
        let x = va[i];
        let y = vb[i];
        let lx: u32 = if 'A' <= x && x <= 'Z' { x as u32 + 32 } else { x as u32 };
        let ly: u32 = if 'A' <= y && y <= 'Z' { y as u32 + 32 } else { y as u32 };
        if lx != ly {
            assert(ascii_lower_code(va@[i as int]) != ascii_lower_code(vb@[i as int]));
            return false;
        }
        i += 1;
    }
    true
}

/// Executable `digit_char`.
pub fn digit(d: u64) -> (c: char)
    requires
        d < 10,
    ensures
        c == digit_char(d as nat),
{
    if d == 0 {
        '0'
    } else if d == 1 {
        '1'
    } else if d == 2 {
        '2'
    } else if d == 3 {
        '3'
    } else if d == 4 {
        '4'
    } else if d == 5 {
        '5'
    } else if d == 6 {
        '6'
    } else if d == 7 {
        '7'
    } else if d == 8 {
        '8'
    } else {
        '9'
    }
}

/// Appends the decimal notation of `n` to `s`.
pub fn push_decimal(s: &mut String, n: u64)
    ensures
        final(s)@ == old(s)@ + decimal(n as nat),
    decreases n,
{
    if n >= 10 {
        push_decimal(s, n / 10);
    }
    push_char(s, digit(n % 10));
    assert(final(s)@ =~= old(s)@ + decimal(n as nat));
}

/// Appends the decimal notation of a signed `n` to `s`.
pub fn push_signed_decimal(s: &mut String, n: i32)
    ensures
        final(s)@ == old(s)@ + signed_decimal(n as int),
{
    if n < 0 {
        push_char(s, '-');
        let m: i64 = n as i64;
        push_decimal(s, (-m) as u64);
        assert(final(s)@ =~= old(s)@ + signed_decimal(n as int));
    } else {
        push_decimal(s, n as u64);
    }
}

/// Whether every character is an ASCII hexadecimal digit.
pub fn all_ascii_hex(v: &[char]) -> (b: bool)
    ensures
        b == (forall|k: int| 0 <= k < v@.len() ==> is_ascii_hex(#[trigger] v@[k])),
{
    let mut i: usize = 0;
    while i < v.len()
        invariant
            0 <= i <= v@.len(),
            forall|k: int| 0 <= k < i ==> is_ascii_hex(#[trigger] v@[k]),
        decreases v@.len() - i,
    {
        let c = v[i];
        if !(('0' <= c && c <= '9') || ('a' <= c && c <= 'f') || ('A' <= c && c <= 'F')) {
            return false;
        }
        i += 1;
    }
    true
}

} // verus!

verus! {

/// The view of an optional string.
pub open spec fn opt_text(o: Option<String>) -> Option<Seq<char>> {
    match o {
        Some(s) => Some(s@),
        None => None,
    }
}

/// `t` with every trailing `c` removed (`str::trim_end_matches(c)`).
pub fn strip_end_char(t: &str, c: char) -> (s: String)
    ensures
        s@ == strip_all_end(t@, c),
{
    let v = chars_of(t);
    let mut e = v.len();
    while e > 0 && v[e - 1] == c
        invariant
            e <= v@.len(),
            v@ == t@,
            forall|k: int| e <= k < v@.len() ==> #[trigger] v@[k] == c,
        decreases e,
    {
        e -= 1;
    }
    proof {
        lemma_strip_all_end(v@, c, e as int);
        assert(v@.take(e as int) =~= v@.subrange(0, e as int));
    }
    string_of(&v, 0, e)
}

/// The view of an optional string slice.
pub open spec fn opt_str(o: Option<&str>) -> Option<Seq<char>> {
    match o {
        Some(s) => Some(s@),
        None => None,
    }
}

/// A copy of an optional string.
pub fn copy_opt(o: &Option<String>) -> (r: Option<String>)
    ensures
        opt_text(r) == opt_text(*o),
{
    match o {
        Some(s) => Some(s.clone()),
        None => None,
    }
}

/// The views of a sequence of strings.
pub open spec fn texts(v: Seq<String>) -> Seq<Seq<char>> {
    v.map_values(|s: String| s@)
}

/// Appends the decimal notation of a wide counter to `s`.
pub fn push_decimal_wide(s: &mut String, n: u128)
    ensures
        final(s)@ == old(s)@ + decimal(n as nat),
    decreases n,
{
    if n >= 10 {
        push_decimal_wide(s, n / 10);
    }
    push_char(s, digit((n % 10) as u64));
    assert(final(s)@ =~= old(s)@ + decimal(n as nat));
}

} // verus!

verus! {

/// Whether two string slices hold the same characters.
pub fn str_equals(a: &str, b: &str) -> (r: bool)
    ensures
        r == (a@ == b@),
{
    let va = chars_of(a);
    let vb = chars_of(b);
    let r = range_equals(&va, 0, va.len(), &vb);
    assert(va@.subrange(0, va@.len() as int) =~= va@);
    r
}

/// Whether an optional string is present and equal to `b`.
pub fn opt_equals(a: &Option<String>, b: &str) -> (r: bool)
    ensures
        r == (opt_text(*a) == Some(b@)),
{
    match a {
        Some(s) => str_equals(s.as_str(), b),
        None => false,
    }
}

} // verus!

verus! {

/// The trimmed, non-blank items of `v`, each kept at its first occurrence.
pub open spec fn dedup_trimmed(v: Seq<Seq<char>>) -> Seq<Seq<char>>
    decreases v.len(),
{
    if v.len() == 0 {
        Seq::empty()
    } else {
        let r = dedup_trimmed(v.drop_last());
        let t = trim(v.last());
        if t.len() > 0 && !r.contains(t) {
            r.push(t)
        } else {
            r
        }
    }
}

/// Whether `v` holds `t`.
pub fn strings_contain(v: &Vec<String>, t: &str) -> (b: bool)
    ensures
        b == texts(v@).contains(t@),
{
    let n = v.len();
    let mut i: usize = 0;
    while i < n
        invariant
            n == v@.len(),
            i <= n,
            forall|j: int| 0 <= j < i ==> #[trigger] v@[j]@ != t@,
        decreases n - i,
    {
        if str_equals(v[i].as_str(), t) {
            assert(texts(v@)[i as int] == t@);
            return true;
        }
        i += 1;
    }
    assert forall|j: int| 0 <= j < texts(v@).len() implies texts(v@)[j] != t@ by {
        assert(texts(v@)[j] == v@[j]@);
    }
    false
}

/// The trimmed, non-blank items of `raw`, each at its first occurrence.
pub fn dedup_trimmed_strings(raw: &Vec<String>) -> (out: Vec<String>)
    ensures
        texts(out@) == dedup_trimmed(texts(raw@)),
{
    let ghost all = texts(raw@);
    let n = raw.len();
    let mut out: Vec<String> = Vec::new();
    let mut i: usize = 0;
    while i < n
        invariant
            n == raw@.len(),
            all == texts(raw@),
            i <= n,
            texts(out@) == dedup_trimmed(all.take(i as int)),
        decreases n - i,
    {
        let t = trim_str(raw[i].as_str());
        proof {
            assert(all.take(i + 1).drop_last() =~= all.take(i as int));
            assert(all.take(i + 1).last() == raw@[i as int]@);
        }
        let blank = str_is_blank(raw[i].as_str());
        if !blank && !strings_contain(&out, t.as_str()) {
            let ghost before = texts(out@);
            out.push(t);
            assert(texts(out@) =~= before.push(t@));
        }
        i += 1;
    }
    assert(all.take(n as int) =~= all);
    out
}

/// Items of `dedup_trimmed` are distinct, trimmed and non-empty.
pub proof fn lemma_dedup_trimmed_clean(v: Seq<Seq<char>>)
    ensures
        forall|i: int, j: int|
            0 <= i < j < dedup_trimmed(v).len() ==> dedup_trimmed(v)[i] != dedup_trimmed(v)[j],
        forall|i: int|
            0 <= i < dedup_trimmed(v).len() ==> #[trigger] dedup_trimmed(v)[i].len() > 0 && trim(
                dedup_trimmed(v)[i],
            ) == dedup_trimmed(v)[i],
    decreases v.len(),
{
    if v.len() > 0 {
        lemma_dedup_trimmed_clean(v.drop_last());
        lemma_trim_ends(v.last());
        let r = dedup_trimmed(v.drop_last());
        let t = trim(v.last());
        if t.len() > 0 && !r.contains(t) {
            assert forall|i: int, j: int|
                0 <= i < j < r.push(t).len() implies r.push(t)[i] != r.push(t)[j] by {
                if j == r.len() {
                    assert(r.push(t)[j] == t);
                    assert(r.push(t)[i] == r[i]);
                }
            }
        }
    }
}

/// `dedup_trimmed` leaves a list of distinct, trimmed, non-empty items as
/// it is.
pub proof fn lemma_dedup_trimmed_fixed(s: Seq<Seq<char>>)
    requires
        forall|i: int, j: int| 0 <= i < j < s.len() ==> s[i] != s[j],
        forall|i: int| 0 <= i < s.len() ==> #[trigger] s[i].len() > 0 && trim(s[i]) == s[i],
    ensures
        dedup_trimmed(s) == s,
    decreases s.len(),
{
    if s.len() > 0 {
        let p = s.drop_last();
        assert forall|i: int| 0 <= i < p.len() implies #[trigger] p[i].len() > 0 && trim(p[i]) == p[i] by {
            assert(p[i] == s[i]);
        }
        lemma_dedup_trimmed_fixed(p);
        assert(!p.contains(s.last())) by {
            if p.contains(s.last()) {
                let k = choose|k: int| 0 <= k < p.len() && p[k] == s.last();
                assert(s[k] == s[s.len() - 1]);
            }
        }
        assert(p.push(s.last()) =~= s);
    }
}

/// Normalising an already normalised list changes nothing.
pub proof fn lemma_dedup_trimmed_idempotent(v: Seq<Seq<char>>)
    ensures
        dedup_trimmed(dedup_trimmed(v)) == dedup_trimmed(v),
{
    lemma_dedup_trimmed_clean(v);
    lemma_dedup_trimmed_fixed(dedup_trimmed(v));
}

/// Every non-blank item of `v` appears, trimmed, in `dedup_trimmed(v)`,
/// and nothing else does.
pub proof fn lemma_dedup_trimmed_members(v: Seq<Seq<char>>, x: Seq<char>)
    ensures
        dedup_trimmed(v).contains(x) <==> (x.len() > 0 && exists|i: int|
            0 <= i < v.len() && #[trigger] trim(v[i]) == x),
    decreases v.len(),
{
    if v.len() > 0 {
        let p = v.drop_last();
        lemma_dedup_trimmed_members(p, x);
        let r = dedup_trimmed(p);
        let t = trim(v.last());
        if dedup_trimmed(v).contains(x) {
            if r.contains(x) {
                let i = choose|i: int| 0 <= i < p.len() && #[trigger] trim(p[i]) == x;
                assert(v[i] == p[i]);
            } else {
                let k = choose|k: int| 0 <= k < dedup_trimmed(v).len() && dedup_trimmed(v)[k] == x;
                assert(trim(v[v.len() - 1]) == x);
            }
        }
        if x.len() > 0 && exists|i: int| 0 <= i < v.len() && #[trigger] trim(v[i]) == x {
            let i = choose|i: int| 0 <= i < v.len() && #[trigger] trim(v[i]) == x;
            if i < v.len() - 1 {
                assert(p[i] == v[i]);
                assert(r.contains(x));
                if t.len() > 0 && !r.contains(t) {
                    let k = choose|k: int| 0 <= k < r.len() && r[k] == x;
                    assert(r.push(t)[k] == x);
                }
            } else {
                if !r.contains(t) {
                    assert(r.push(t)[r.len() as int] == x);
                }
            }
        }
    }
}

} // verus!
