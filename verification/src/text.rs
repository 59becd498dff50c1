//! Whitespace, trimming, line splitting and fields, on sequences of
//! characters, with the meaning that `str::trim`, `str::lines` and
//! `str::split_whitespace` give them.

use vstd::prelude::*;

verus! {

/// Unicode `White_Space`, the property that `char::is_whitespace`,
/// `str::trim` and `str::split_whitespace` go by.
pub open spec fn is_ws(c: char) -> bool {
    let n = c as u32;
    ||| 0x09 <= n <= 0x0d
    ||| n == 0x20
    ||| n == 0x85
    ||| n == 0xa0
    ||| n == 0x1680
    ||| 0x2000 <= n <= 0x200a
    ||| n == 0x2028
    ||| n == 0x2029
    ||| n == 0x202f
    ||| n == 0x205f
    ||| n == 0x3000
}

/// Whether `c` is whitespace, as `char::is_whitespace` says.
pub fn is_whitespace(c: char) -> (b: bool)
    ensures
        b == is_ws(c),
{
    let n = c as u32;
    (0x09 <= n && n <= 0x0d) || n == 0x20 || n == 0x85 || n == 0xa0 || n == 0x1680 || (0x2000 <= n
        && n <= 0x200a) || n == 0x2028 || n == 0x2029 || n == 0x202f || n == 0x205f || n == 0x3000
}

/// The characters of `s`, in order.
pub fn to_chars(s: &str) -> (v: Vec<char>)
    ensures
        v@ == s@,
{
    let mut v: Vec<char> = Vec::new();
    for c in it: s.chars()
        invariant
            v@ == it.seq().take(it.index()),
    {
        v.push(c);
    }
    v
}


/// `s` without its leading whitespace.
pub open spec fn trim_start(s: Seq<char>) -> Seq<char>
    decreases s.len(),
{
    if s.len() > 0 && is_ws(s[0]) {
        trim_start(s.drop_first())
    } else {
        s
    }
}

/// `s` without its trailing whitespace.
pub open spec fn trim_end(s: Seq<char>) -> Seq<char>
    decreases s.len(),
{
    if s.len() > 0 && is_ws(s.last()) {
        trim_end(s.drop_last())
    } else {
        s
    }
}

/// `s` without leading and trailing whitespace (`str::trim`).
pub open spec fn trim(s: Seq<char>) -> Seq<char> {
    trim_end(trim_start(s))
}

/// The number of characters before the first whitespace in `s`.
pub open spec fn token_len(s: Seq<char>) -> nat
    decreases s.len(),
{
    if s.len() > 0 && !is_ws(s[0]) {
        1 + token_len(s.drop_first())
    } else {
        0
    }
}

/// The first whitespace-separated field of `s`, or `None` when `s` holds
/// nothing but whitespace (`s.split_whitespace().next()`).
pub open spec fn leading_field(s: Seq<char>) -> Option<Seq<char>> {
    let t = trim_start(s);
    if t.len() == 0 {
        None
    } else {
        Some(t.take(token_len(t) as int))
    }
}

/// Whether `s` begins with `p` (`str::starts_with`).
pub open spec fn starts_with(s: Seq<char>, p: Seq<char>) -> bool {
    p.len() <= s.len() && s.take(p.len() as int) == p
}

/// The index of the first `'\n'` in `s`, or its length when there is none.
pub open spec fn newline_index(s: Seq<char>) -> nat
    decreases s.len(),
{
    if s.len() == 0 {
        0
    } else if s[0] == '\n' {
        0
    } else {
        1 + newline_index(s.drop_first())
    }
}

/// The lines of `s`: the pieces between `'\n'` characters, where a final
/// `'\n'` ends the last line and opens none. This is what `str::lines`
/// yields, except that `str::lines` also drops a `'\r'` before a `'\n'`,
/// which trimming a line removes anyway.
pub open spec fn lines(s: Seq<char>) -> Seq<Seq<char>>
    decreases s.len(),
{
    if s.len() == 0 {
        seq![]
    } else {
        let k = newline_index(s);
        if k < s.len() {
            seq![s.take(k as int)] + lines(s.skip(k + 1int))
        } else {
            seq![s]
        }
    }
}

/// The position of the first character of `chars[a..b]` that is not
/// whitespace, or `b`.
pub fn skip_ws_forward(chars: &Vec<char>, a: usize, b: usize) -> (lo: usize)
    requires
        a <= b <= chars@.len(),
    ensures
        a <= lo <= b,
        trim_start(chars@.subrange(a as int, b as int)) == chars@.subrange(lo as int, b as int),
{
    let mut lo = a;
    while lo < b && is_whitespace(chars[lo])
        invariant
            a <= lo <= b <= chars@.len(),
            trim_start(chars@.subrange(a as int, b as int)) == trim_start(
                chars@.subrange(lo as int, b as int),
            ),
        decreases b - lo,
    {
        assert(chars@.subrange(lo as int, b as int).drop_first() =~= chars@.subrange(
            lo + 1,
            b as int,
        ));
        lo += 1;
    }
    lo
}

/// The position just after the last character of `chars[a..b]` that is
/// not whitespace, or `a`.
pub fn skip_ws_backward(chars: &Vec<char>, a: usize, b: usize) -> (hi: usize)
    requires
        a <= b <= chars@.len(),
    ensures
        a <= hi <= b,
        trim_end(chars@.subrange(a as int, b as int)) == chars@.subrange(a as int, hi as int),
{
    let mut hi = b;
    while hi > a && is_whitespace(chars[hi - 1])
        invariant
            a <= hi <= b <= chars@.len(),
            trim_end(chars@.subrange(a as int, b as int)) == trim_end(
                chars@.subrange(a as int, hi as int),
            ),
        decreases hi - a,
    {
        assert(chars@.subrange(a as int, hi as int).drop_last() =~= chars@.subrange(
            a as int,
            hi - 1,
        ));
        hi -= 1;
    }
    hi
}

/// The position of the first whitespace in `chars[a..b]`, or `b`.
pub fn token_end(chars: &Vec<char>, a: usize, b: usize) -> (e: usize)
    requires
        a <= b <= chars@.len(),
    ensures
        a <= e <= b,
        token_len(chars@.subrange(a as int, b as int)) == e - a,
{
    let mut k = a;
    while k < b && !is_whitespace(chars[k])
        invariant
            a <= k <= b <= chars@.len(),
            token_len(chars@.subrange(a as int, b as int)) == (k - a) + token_len(
                chars@.subrange(k as int, b as int),
            ),
        decreases b - k,
    {
        assert(chars@.subrange(k as int, b as int).drop_first() =~= chars@.subrange(
            k + 1,
            b as int,
        ));
        k += 1;
    }
    k
}


/// Where the first whitespace-separated field of `chars[a..b]` lies, or
/// `None` when that range holds nothing but whitespace.
pub fn field_bounds(chars: &Vec<char>, a: usize, b: usize) -> (r: Option<(usize, usize)>)
    requires
        a <= b <= chars@.len(),
    ensures
        r is None <==> leading_field(chars@.subrange(a as int, b as int)) is None,
        r matches Some((x, y)) ==> a <= x <= y <= b && leading_field(
            chars@.subrange(a as int, b as int),
        ) == Some(chars@.subrange(x as int, y as int)),
{
    let x = skip_ws_forward(chars, a, b);
    if x == b {
        return None;
    }
    let y = token_end(chars, x, b);
    assert(chars@.subrange(x as int, b as int).take(y - x) =~= chars@.subrange(x as int, y as int));
    Some((x, y))
}

/// Whether `chars[a..b]` is the sequence `w`.
pub fn range_eq(chars: &Vec<char>, a: usize, b: usize, w: &Vec<char>) -> (r: bool)
    requires
        a <= b <= chars@.len(),
    ensures
        r == (chars@.subrange(a as int, b as int) == w@),
{
    if b - a != w.len() {
        return false;
    }
    let mut k: usize = 0;
    while k < w.len()
        invariant
            a <= b <= chars@.len(),
            b - a == w@.len(),
            k <= w@.len(),
            forall|m: int| 0 <= m < k ==> chars@[a + m] == w@[m],
        decreases w@.len() - k,
    {
        if chars[a + k] != w[k] {
            assert(chars@.subrange(a as int, b as int)[k as int] != w@[k as int]);
            return false;
        }
        k += 1;
    }
    assert(chars@.subrange(a as int, b as int) =~= w@);
    true
}

/// Whether `chars[a..b]` begins with the sequence `p`.
pub fn has_prefix(chars: &Vec<char>, a: usize, b: usize, p: &Vec<char>) -> (r: bool)
    requires
        a <= b <= chars@.len(),
    ensures
        r == starts_with(chars@.subrange(a as int, b as int), p@),
{
    if p.len() > b - a {
        return false;
    }
    let e = a + p.len();
    assert(chars@.subrange(a as int, b as int).take(p@.len() as int) =~= chars@.subrange(
        a as int,
        e as int,
    ));
    range_eq(chars, a, e, p)
}

/// The first whitespace-separated field of `s`, or `None` when `s` holds
/// nothing but whitespace.
pub fn first_field(s: &str) -> (r: Option<&str>)
    ensures
        r is None <==> leading_field(s@) is None,
        r matches Some(f) ==> leading_field(s@) == Some(f@),
{
    let chars = to_chars(s);
    assert(chars@.subrange(0, chars@.len() as int) =~= s@);
    match field_bounds(&chars, 0, chars.len()) {
        Some((x, y)) => Some(s.substring_char(x, y)),
        None => None,
    }
}


proof fn lemma_trim_start_index(s: Seq<char>) -> (k: int)
    ensures
        0 <= k <= s.len(),
        trim_start(s) == s.skip(k),
        forall|j: int| 0 <= j < k ==> is_ws(#[trigger] s[j]),
        k < s.len() ==> !is_ws(s[k]),
    decreases s.len(),
{
    if s.len() > 0 && is_ws(s[0]) {
        let t = s.drop_first();
        let k1 = lemma_trim_start_index(t);
        assert(t.skip(k1) =~= s.skip(k1 + 1));
        assert forall|j: int| 0 <= j < k1 + 1 implies is_ws(#[trigger] s[j]) by {
            if j > 0 {
                assert(s[j] == t[j - 1]);
            }
        }
        k1 + 1
    } else {
        assert(s.skip(0) =~= s);
        0
    }
}

proof fn lemma_token_len_bounds(t: Seq<char>)
    ensures
        token_len(t) <= t.len(),
        forall|j: int| 0 <= j < token_len(t) ==> !is_ws(#[trigger] t[j]),
        token_len(t) < t.len() ==> is_ws(t[token_len(t) as int]),
    decreases t.len(),
{
    if t.len() > 0 && !is_ws(t[0]) {
        let u = t.drop_first();
        lemma_token_len_bounds(u);
        assert forall|j: int| 0 <= j < token_len(t) implies !is_ws(#[trigger] t[j]) by {
            if j > 0 {
                assert(t[j] == u[j - 1]);
            }
        }
    }
}

/// `f` stands in `s` at `i` as a field: only whitespace before it, no
/// whitespace in it, and the end of `s` or whitespace right after it.
pub open spec fn field_at(s: Seq<char>, i: int, f: Seq<char>) -> bool {
    &&& 0 <= i
    &&& i + f.len() <= s.len()
    &&& forall|j: int| 0 <= j < i ==> is_ws(#[trigger] s[j])
    &&& s.subrange(i, i + f.len()) == f
    &&& f.len() > 0
    &&& forall|j: int| 0 <= j < f.len() ==> !is_ws(#[trigger] f[j])
    &&& (i + f.len() == s.len() || is_ws(s[i + f.len()]))
}

/// The first field of a text is the first run of non-whitespace
/// characters in it: only whitespace comes before it, it holds no
/// whitespace, and it ends at the end of the text or at whitespace. There
/// is none exactly when the text is all whitespace.
pub proof fn lemma_leading_field_shape(s: Seq<char>)
    ensures
        leading_field(s) is None <==> forall|i: int| 0 <= i < s.len() ==> is_ws(#[trigger] s[i]),
        leading_field(s) matches Some(f) ==> exists|i: int| field_at(s, i, f),
{
    let k = lemma_trim_start_index(s);
    let t = s.skip(k);
    lemma_token_len_bounds(t);
    if k < s.len() {
        assert(t[0] == s[k]);
        assert(!is_ws(t[0]));
        let n = token_len(t) as int;
        let f = t.take(n);
        assert(s.subrange(k, k + n) =~= f);
        assert forall|j: int| 0 <= j < f.len() implies !is_ws(#[trigger] f[j]) by {
            assert(f[j] == t[j]);
        }
        if k + n < s.len() {
            assert(s[k + n] == t[n]);
        }
        assert(field_at(s, k, f));
        let g = leading_field(s)->0;
        assert(g =~= f);
        assert(field_at(s, k, g));
    } else {
        assert(t.len() == 0);
    }
}

} // verus!
