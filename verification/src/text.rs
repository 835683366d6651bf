//! Character-level text primitives: substring search, slicing, and the
//! conversions between `str`/`String` and character vectors that the rest of
//! the library works on.
use vstd::prelude::*;
use vstd::string::*;

verus! {

/// `pat` occurs in `s` starting at position `i`.
pub open spec fn occurs_at(s: Seq<char>, pat: Seq<char>, i: int) -> bool {
    0 <= i && i + pat.len() <= s.len() && s.subrange(i, i + pat.len()) == pat
}

/// The first position at or after `from` where `pat` occurs in `s`.
pub open spec fn find_from(s: Seq<char>, pat: Seq<char>, from: int) -> Option<int>
    decreases s.len() + 1 - from,
{
    if from < 0 || from + pat.len() > s.len() {
        None
    } else if occurs_at(s, pat, from) {
        Some(from)
    } else {
        find_from(s, pat, from + 1)
    }
}

/// The first position where `pat` occurs in `s` (as `str::find` reports it).
pub open spec fn find(s: Seq<char>, pat: Seq<char>) -> Option<int> {
    find_from(s, pat, 0)
}

/// `s` contains `pat` somewhere.
pub open spec fn contains_seq(s: Seq<char>, pat: Seq<char>) -> bool {
    find(s, pat) is Some
}

pub open spec fn starts_with(s: Seq<char>, p: Seq<char>) -> bool {
    p.len() <= s.len() && s.take(p.len() as int) == p
}

pub open spec fn ends_with(s: Seq<char>, p: Seq<char>) -> bool {
    p.len() <= s.len() && s.skip(s.len() - p.len()) == p
}

/// What `find_from` returns, characterised without recursion.
pub proof fn lemma_find_from(s: Seq<char>, pat: Seq<char>, from: int)
    requires
        0 <= from,
    ensures
        find_from(s, pat, from) matches Some(i) ==> {
            &&& from <= i
            &&& occurs_at(s, pat, i)
            &&& forall|j: int| from <= j < i ==> !occurs_at(s, pat, j)
        },
        find_from(s, pat, from) is None ==> forall|j: int| from <= j ==> !occurs_at(s, pat, j),
    decreases s.len() + 1 - from,
{
    if from + pat.len() > s.len() {
    } else if occurs_at(s, pat, from) {
    } else {
        lemma_find_from(s, pat, from + 1);
        assert forall|j: int| from <= j && (find_from(s, pat, from) is None || j < find_from(s, pat, from)->0)
            implies !occurs_at(s, pat, j) by {
            if j > from {
            }
        }
    }
}

/// A first occurrence is determined by the occurrences around it.
pub proof fn lemma_find_from_unique(s: Seq<char>, pat: Seq<char>, from: int, i: int)
    requires
        0 <= from <= i,
        occurs_at(s, pat, i),
        forall|j: int| from <= j < i ==> !occurs_at(s, pat, j),
    ensures
        find_from(s, pat, from) == Some(i),
{
    lemma_find_from(s, pat, from);
}

/// No occurrence at all after `from`.
pub proof fn lemma_find_from_none(s: Seq<char>, pat: Seq<char>, from: int)
    requires
        0 <= from,
        forall|j: int| from <= j ==> !occurs_at(s, pat, j),
    ensures
        find_from(s, pat, from) is None,
{
    lemma_find_from(s, pat, from);
}

/// Appends one character to a string (std `String::push`).
#[verifier::external_body]
fn push_char(s: &mut String, c: char)
    ensures
        final(s)@ == old(s)@.push(c),
{
    s.push(c)
}

/// The characters of a string slice, in order.
pub fn to_chars(s: &str) -> (v: Vec<char>)
    ensures
        v@ == s@,
{
    let mut v: Vec<char> = Vec::new();
    for c in it: s.chars()
        invariant
            v@ == it.seq().take(it.index()),
            it.seq() == s@,
    {
        v.push(c);
    }
    v
}

/// A string holding exactly the given characters.
pub fn from_chars(v: &Vec<char>) -> (s: String)
    ensures
        s@ == v@,
{
    let mut s = String::new();
    let n = v.len();
    for i in 0..n
        invariant
            n == v@.len(),
            s@ == v@.take(i as int),
    {
        push_char(&mut s, v[i]);
        assert(v@.take(i + 1) == v@.take(i as int).push(v@[i as int]));
    }
    assert(v@.take(n as int) == v@);
    s
}

/// Appends all of `src` to `out`.
pub fn push_all(out: &mut Vec<char>, src: &Vec<char>)
    ensures
        final(out)@ == old(out)@ + src@,
{
    let n = src.len();
    for i in 0..n
        invariant
            n == src@.len(),
            out@ == old(out)@ + src@.take(i as int),
    {
        out.push(src[i]);
        assert(src@.take(i + 1) == src@.take(i as int).push(src@[i as int]));
    }
    assert(src@.take(n as int) == src@);
}

/// Appends the characters of a string slice to `out`.
pub fn push_str(out: &mut Vec<char>, src: &str)
    ensures
        final(out)@ == old(out)@ + src@,
{
    let v = to_chars(src);
    push_all(out, &v);
}

/// The characters `s[lo..hi]`.
pub fn slice_of(s: &Vec<char>, lo: usize, hi: usize) -> (r: Vec<char>)
    requires
        lo <= hi <= s@.len(),
    ensures
        r@ == s@.subrange(lo as int, hi as int),
{
    let mut r: Vec<char> = Vec::new();
    let mut i = lo;
    while i < hi
        invariant
            lo <= i <= hi <= s@.len(),
            r@ == s@.subrange(lo as int, i as int),
        decreases hi - i,
    {
        r.push(s[i]);
        assert(s@.subrange(lo as int, i + 1) == s@.subrange(lo as int, i as int).push(s@[i as int]));
        i += 1;
    }
    r
}

/// Whether `pat` occurs in `s` at position `i`.
pub fn matches_at(s: &Vec<char>, pat: &Vec<char>, i: usize) -> (b: bool)
    ensures
        b == occurs_at(s@, pat@, i as int),
{
    if i > s.len() || pat.len() > s.len() - i {
        return false;
    }
    let n = pat.len();
    let slen = s.len();
    let mut k: usize = 0;
    while k < n
        invariant
            n == pat@.len(),
            slen == s@.len(),
            i + n <= slen,
            0 <= k <= n,
            forall|m: int| 0 <= m < k ==> s@[i + m] == pat@[m],
        decreases n - k,
    {
        if s[i + k] != pat[k] {
            assert(s@.subrange(i as int, i + n)[k as int] != pat@[k as int]);
            return false;
        }
        k += 1;
    }
    assert(s@.subrange(i as int, i + n) =~= pat@);
    true
}

/// The first occurrence of `pat` in `s` at or after `from`.
pub fn find_chars_from(s: &Vec<char>, pat: &Vec<char>, from: usize) -> (r: Option<usize>)
    ensures
        r matches Some(i) ==> find_from(s@, pat@, from as int) == Some(i as int),
        r is None ==> find_from(s@, pat@, from as int) is None,
{
    let slen = s.len();
    let plen = pat.len();
    if plen > slen || from > slen - plen {
        return None;
    }
    let mut i = from;
    loop
        invariant
            slen == s@.len(),
            plen == pat@.len(),
            from <= i <= slen - plen,
            find_from(s@, pat@, from as int) == find_from(s@, pat@, i as int),
        decreases slen - i,
    {
        if matches_at(s, pat, i) {
            return Some(i);
        }
        if i == slen - plen {
            assert(find_from(s@, pat@, i + 1) is None);
            return None;
        }
        i += 1;
    }
}

/// The first occurrence of `pat` in `s`.
pub fn find_chars(s: &Vec<char>, pat: &Vec<char>) -> (r: Option<usize>)
    ensures
        r matches Some(i) ==> find(s@, pat@) == Some(i as int),
        r is None ==> find(s@, pat@) is None,
{
    find_chars_from(s, pat, 0)
}

/// Character-wise equality of two character vectors.
pub fn chars_eq(a: &Vec<char>, b: &Vec<char>) -> (r: bool)
    ensures
        r == (a@ == b@),
{
    if a.len() != b.len() {
        return false;
    }
    let r = matches_at(a, b, 0);
    assert(a@.subrange(0, b@.len() as int) =~= a@);
    r
}

/// Whether `s` starts with `p`.
pub fn starts_with_chars(s: &Vec<char>, p: &Vec<char>) -> (r: bool)
    ensures
        r == starts_with(s@, p@),
{
    let r = matches_at(s, p, 0);
    proof {
        if p@.len() <= s@.len() {
            assert(s@.take(p@.len() as int) =~= s@.subrange(0, p@.len() as int));
        }
    }
    r
}

/// Whether `s` ends with `p`.
pub fn ends_with_chars(s: &Vec<char>, p: &Vec<char>) -> (r: bool)
    ensures
        r == ends_with(s@, p@),
{
    if p.len() > s.len() {
        return false;
    }
    let r = matches_at(s, p, s.len() - p.len());
    proof {
        assert(s@.skip(s@.len() - p@.len()) =~= s@.subrange(s@.len() - p@.len(), s@.len() as int));
    }
    r
}

} // verus!

verus! {

/// The decimal digit for `d < 10`.
pub open spec fn digit_char(d: nat) -> char {
    seq!['0', '1', '2', '3', '4', '5', '6', '7', '8', '9'][d as int]
}

/// The decimal representation of `n`, without leading zeros.
pub open spec fn decimal(n: nat) -> Seq<char>
    decreases n,
{
    if n < 10 {
        seq![digit_char(n)]
    } else {
        decimal(n / 10).push(digit_char(n % 10))
    }
}

/// Appends the decimal representation of `n` to `out`.
pub fn push_decimal(out: &mut Vec<char>, n: u64)
    ensures
        final(out)@ == old(out)@ + decimal(n as nat),
    decreases n,
{
    let digits = ['0', '1', '2', '3', '4', '5', '6', '7', '8', '9'];
    if n >= 10 {
        push_decimal(out, n / 10);
    }
    let d = (n % 10) as usize;
    out.push(digits[d]);
    proof {
        assert(digits@ =~= seq!['0', '1', '2', '3', '4', '5', '6', '7', '8', '9']);
        if n >= 10 {
            assert(decimal(n as nat) == decimal((n / 10) as nat).push(digit_char((n % 10) as nat)));
        } else {
            assert(decimal(n as nat) == seq![digit_char(n as nat)]);
        }
    }
}

/// `s` repeated `n` times.
pub open spec fn repeat(s: Seq<char>, n: nat) -> Seq<char>
    decreases n,
{
    if n == 0 {
        Seq::empty()
    } else {
        repeat(s, (n - 1) as nat) + s
    }
}

/// `s` repeated `n` times (as `str::repeat`).
pub fn repeat_chars(s: &Vec<char>, n: usize) -> (r: Vec<char>)
    ensures
        r@ == repeat(s@, n as nat),
{
    let mut r: Vec<char> = Vec::new();
    for i in 0..n
        invariant
            r@ == repeat(s@, i as nat),
    {
        push_all(&mut r, s);
    }
    r
}

/// The pieces of `parts` joined with `sep` between them.
pub open spec fn join(parts: Seq<Seq<char>>, sep: Seq<char>) -> Seq<char>
    decreases parts.len(),
{
    if parts.len() == 0 {
        Seq::empty()
    } else if parts.len() == 1 {
        parts[0]
    } else {
        join(parts.drop_last(), sep) + sep + parts.last()
    }
}

/// Joins character vectors with a separator (as `slice::join`).
pub fn join_chars(parts: &Vec<Vec<char>>, sep: &Vec<char>) -> (r: Vec<char>)
    ensures
        r@ == join(parts@.map_values(|p: Vec<char>| p@), sep@),
{
    let ghost pv = parts@.map_values(|p: Vec<char>| p@);
    let mut r: Vec<char> = Vec::new();
    let n = parts.len();
    for i in 0..n
        invariant
            n == parts@.len(),
            pv == parts@.map_values(|p: Vec<char>| p@),
            r@ == join(pv.take(i as int), sep@),
    {
        if i > 0 {
            push_all(&mut r, sep);
        }
        push_all(&mut r, &parts[i]);
        proof {
            assert(pv.take(i + 1).drop_last() =~= pv.take(i as int));
            if i == 0 {
                assert(pv.take(1) =~= seq![pv[0]]);
            }
        }
    }
    assert(pv.take(n as int) =~= pv);
    r
}

/// Unicode `White_Space`, the property `char::is_whitespace` tests.
pub open spec fn is_ws(c: char) -> bool {
    ('\u{9}' <= c && c <= '\u{d}') || c == ' ' || c == '\u{85}' || c == '\u{a0}' || c == '\u{1680}'
        || ('\u{2000}' <= c && c <= '\u{200a}') || c == '\u{2028}' || c == '\u{2029}' || c
        == '\u{202f}' || c == '\u{205f}' || c == '\u{3000}'
}

pub fn char_is_ws(c: char) -> (b: bool)
    ensures
        b == is_ws(c),
{
    ('\u{9}' <= c && c <= '\u{d}') || c == ' ' || c == '\u{85}' || c == '\u{a0}' || c == '\u{1680}'
        || ('\u{2000}' <= c && c <= '\u{200a}') || c == '\u{2028}' || c == '\u{2029}' || c
        == '\u{202f}' || c == '\u{205f}' || c == '\u{3000}'
}

/// Number of whitespace characters at the start of `s`.
pub open spec fn leading_ws(s: Seq<char>) -> nat
    decreases s.len(),
{
    if s.len() > 0 && is_ws(s[0]) {
        1 + leading_ws(s.drop_first())
    } else {
        0
    }
}

/// Number of whitespace characters at the end of `s`.
pub open spec fn trailing_ws(s: Seq<char>) -> nat
    decreases s.len(),
{
    if s.len() > 0 && is_ws(s.last()) {
        1 + trailing_ws(s.drop_last())
    } else {
        0
    }
}

proof fn lemma_leading_ws_bound(s: Seq<char>)
    ensures
        leading_ws(s) <= s.len(),
        forall|i: int| 0 <= i < leading_ws(s) ==> is_ws(#[trigger] s[i]),
        leading_ws(s) < s.len() ==> !is_ws(s[leading_ws(s) as int]),
    decreases s.len(),
{
    if s.len() > 0 && is_ws(s[0]) {
        lemma_leading_ws_bound(s.drop_first());
        assert forall|i: int| 0 <= i < leading_ws(s) implies is_ws(#[trigger] s[i]) by {
            if i > 0 {
                assert(s[i] == s.drop_first()[i - 1]);
            }
        }
    }
}

proof fn lemma_trailing_ws_bound(s: Seq<char>)
    ensures
        trailing_ws(s) <= s.len(),
        forall|i: int| s.len() - trailing_ws(s) <= i < s.len() ==> is_ws(#[trigger] s[i]),
        trailing_ws(s) < s.len() ==> !is_ws(s[s.len() - trailing_ws(s) - 1]),
    decreases s.len(),
{
    if s.len() > 0 && is_ws(s.last()) {
        lemma_trailing_ws_bound(s.drop_last());
        assert forall|i: int| s.len() - trailing_ws(s) <= i < s.len() implies is_ws(#[trigger] s[i]) by {
            if i < s.len() - 1 {
                assert(s[i] == s.drop_last()[i]);
            }
        }
    }
}

/// Leading and trailing whitespace count, characterised.
proof fn lemma_leading_ws_is(s: Seq<char>, k: int)
    requires
        0 <= k <= s.len(),
        forall|i: int| 0 <= i < k ==> is_ws(#[trigger] s[i]),
        k < s.len() ==> !is_ws(s[k]),
    ensures
        leading_ws(s) == k,
    decreases s.len(),
{
    if k > 0 {
        assert forall|i: int| 0 <= i < k - 1 implies is_ws(#[trigger] s.drop_first()[i]) by {
            assert(s.drop_first()[i] == s[i + 1]);
        }
        if k - 1 < s.drop_first().len() {
            assert(s.drop_first()[k - 1] == s[k]);
        }
        lemma_leading_ws_is(s.drop_first(), k - 1);
    }
}

proof fn lemma_trailing_ws_is(s: Seq<char>, k: int)
    requires
        0 <= k <= s.len(),
        forall|i: int| s.len() - k <= i < s.len() ==> is_ws(#[trigger] s[i]),
        k < s.len() ==> !is_ws(s[s.len() - k - 1]),
    ensures
        trailing_ws(s) == k,
    decreases s.len(),
{
    if k > 0 {
        let t = s.drop_last();
        assert forall|i: int| t.len() - (k - 1) <= i < t.len() implies is_ws(#[trigger] t[i]) by {
            assert(t[i] == s[i]);
        }
        if k - 1 < t.len() {
            assert(t[t.len() - (k - 1) - 1] == s[s.len() - k - 1]);
        }
        lemma_trailing_ws_is(t, k - 1);
    }
}

/// `s` without leading and trailing whitespace (as `str::trim`).
pub open spec fn trim(s: Seq<char>) -> Seq<char> {
    let t = s.skip(leading_ws(s) as int);
    t.take(t.len() - trailing_ws(t))
}

/// `s` without leading and trailing whitespace.
pub fn trim_chars(s: &Vec<char>) -> (r: Vec<char>)
    ensures
        r@ == trim(s@),
{
    let n = s.len();
    let mut a: usize = 0;
    while a < n && char_is_ws(s[a])
        invariant
            n == s@.len(),
            a <= n,
            forall|i: int| 0 <= i < a ==> is_ws(#[trigger] s@[i]),
        decreases n - a,
    {
        a += 1;
    }
    proof { lemma_leading_ws_is(s@, a as int); }
    let mut b: usize = n;
    while b > a && char_is_ws(s[b - 1])
        invariant
            n == s@.len(),
            a <= b <= n,
            forall|i: int| b <= i < n ==> is_ws(#[trigger] s@[i]),
        decreases b - a,
    {
        b -= 1;
    }
    let ghost t = s@.skip(a as int);
    proof {
        assert forall|i: int| t.len() - (n - b) <= i < t.len() implies is_ws(#[trigger] t[i]) by {
            assert(t[i] == s@[i + a]);
        }
        if n - b < t.len() {
            assert(t[t.len() - (n - b) - 1] == s@[b - 1]);
        }
        lemma_trailing_ws_is(t, (n - b) as int);
        assert(t.take(t.len() - (n - b)) =~= s@.subrange(a as int, b as int));
    }
    slice_of(s, a, b)
}

/// `s` with every occurrence of `pat` from position `from` on replaced by
/// `rep`, scanning left to right without overlap.
pub open spec fn replace_from(s: Seq<char>, pat: Seq<char>, rep: Seq<char>, from: int) -> Seq<char>
    decreases s.len() + 1 - from,
{
    if pat.len() == 0 || from < 0 || from > s.len() {
        s.subrange(if 0 <= from <= s.len() { from } else { s.len() as int }, s.len() as int)
    } else {
        match find_from(s, pat, from) {
            Some(i) => if from <= i && i + pat.len() <= s.len() {
                s.subrange(from, i) + rep + replace_from(s, pat, rep, i + pat.len())
            } else {
                Seq::empty()
            },
            None => s.subrange(from, s.len() as int),
        }
    }
}

/// `s` with every occurrence of `pat` replaced by `rep` (as `str::replace`
/// with a non-empty pattern).
pub open spec fn replace_all(s: Seq<char>, pat: Seq<char>, rep: Seq<char>) -> Seq<char> {
    replace_from(s, pat, rep, 0)
}

/// Replaces every occurrence of a non-empty `pat` in `s` by `rep`.
pub fn replace_chars(s: &Vec<char>, pat: &Vec<char>, rep: &Vec<char>) -> (r: Vec<char>)
    requires
        pat@.len() > 0,
    ensures
        r@ == replace_all(s@, pat@, rep@),
{
    let n = s.len();
    let mut out: Vec<char> = Vec::new();
    let mut pos: usize = 0;
    loop
        invariant
            n == s@.len(),
            pat@.len() > 0,
            pos <= n,
            out@ + replace_from(s@, pat@, rep@, pos as int) == replace_all(s@, pat@, rep@),
        decreases n - pos,
    {
        match find_chars_from(s, pat, pos) {
            Some(i) => {
                proof { lemma_find_from(s@, pat@, pos as int); }
                let piece = slice_of(s, pos, i);
                push_all(&mut out, &piece);
                push_all(&mut out, rep);
                pos = i + pat.len();
            },
            None => {
                let piece = slice_of(s, pos, n);
                push_all(&mut out, &piece);
                return out;
            },
        }
    }
}

/// The pieces of `s` from `from` on, split at `c`.
pub open spec fn split_from(s: Seq<char>, c: char, from: int) -> Seq<Seq<char>>
    decreases s.len() + 1 - from,
{
    if from < 0 || from > s.len() {
        Seq::empty()
    } else {
        match find_from(s, seq![c], from) {
            Some(i) => if from <= i < s.len() {
                seq![s.subrange(from, i)] + split_from(s, c, i + 1)
            } else {
                Seq::empty()
            },
            None => seq![s.subrange(from, s.len() as int)],
        }
    }
}

/// The pieces of `s` split at `c` (as `str::split` with a character).
pub fn split_chars(s: &Vec<char>, c: char) -> (r: Vec<Vec<char>>)
    ensures
        r@.map_values(|p: Vec<char>| p@) == split_from(s@, c, 0),
{
    let semi = vec![c];
    assert(semi@ =~= seq![c]);
    let n = s.len();
    let mut r: Vec<Vec<char>> = Vec::new();
    let mut pos: usize = 0;
    loop
        invariant
            n == s@.len(),
            semi@ == seq![c],
            pos <= n,
            r@.map_values(|p: Vec<char>| p@) + split_from(s@, c, pos as int) == split_from(s@, c, 0),
        decreases n - pos,
    {
        let ghost rv = r@.map_values(|p: Vec<char>| p@);
        match find_chars_from(s, &semi, pos) {
            Some(i) => {
                proof { lemma_find_from(s@, semi@, pos as int); }
                let piece = slice_of(s, pos, i);
                r.push(piece);
                assert(r@.map_values(|p: Vec<char>| p@) =~= rv + seq![s@.subrange(pos as int, i as int)]);
                pos = i + 1;
            },
            None => {
                let piece = slice_of(s, pos, n);
                r.push(piece);
                assert(r@.map_values(|p: Vec<char>| p@) =~= rv + seq![s@.subrange(pos as int, n as int)]);
                return r;
            },
        }
    }
}

} // verus!

verus! {

/// Lexicographic order of character sequences by code point (the order of
/// `str`, since UTF-8 preserves it).
pub open spec fn lex_lt(a: Seq<char>, b: Seq<char>) -> bool
    decreases a.len(),
{
    if a.len() == 0 {
        b.len() > 0
    } else if b.len() == 0 {
        false
    } else if (a[0] as u32) < (b[0] as u32) {
        true
    } else if a[0] == b[0] {
        lex_lt(a.drop_first(), b.drop_first())
    } else {
        false
    }
}

pub proof fn lemma_lex_irreflexive(a: Seq<char>)
    ensures
        !lex_lt(a, a),
    decreases a.len(),
{
    if a.len() > 0 {
        lemma_lex_irreflexive(a.drop_first());
    }
}

pub proof fn lemma_lex_transitive(a: Seq<char>, b: Seq<char>, c: Seq<char>)
    requires
        lex_lt(a, b),
        lex_lt(b, c),
    ensures
        lex_lt(a, c),
    decreases a.len(),
{
    if a.len() > 0 && b.len() > 0 && c.len() > 0 && a[0] == b[0] && b[0] == c[0] {
        lemma_lex_transitive(a.drop_first(), b.drop_first(), c.drop_first());
    }
}

pub proof fn lemma_lex_total(a: Seq<char>, b: Seq<char>)
    requires
        a != b,
    ensures
        lex_lt(a, b) || lex_lt(b, a),
    decreases a.len(),
{
    if a.len() == 0 {
        assert(b.len() > 0) by {
            if b.len() == 0 {
                assert(a =~= b);
            }
        }
    } else if b.len() > 0 && a[0] == b[0] {
        if a.drop_first() == b.drop_first() {
            assert(a =~= seq![a[0]] + a.drop_first());
            assert(b =~= seq![b[0]] + b.drop_first());
        }
        lemma_lex_total(a.drop_first(), b.drop_first());
    } else if b.len() > 0 {
        if a[0] as u32 == b[0] as u32 {
            vstd::utf8::char_u32_cast(a[0], a[0] as u32);
            vstd::utf8::char_u32_cast(b[0], b[0] as u32);
        }
    }
}

/// Whether `a` comes strictly before `b`.
pub fn lex_less(a: &Vec<char>, b: &Vec<char>) -> (r: bool)
    ensures
        r == lex_lt(a@, b@),
{
    let na = a.len();
    let nb = b.len();
    let mut i: usize = 0;
    assert(a@.skip(0) =~= a@);
    assert(b@.skip(0) =~= b@);
    loop
        invariant
            na == a@.len(),
            nb == b@.len(),
            i <= na,
            i <= nb,
            lex_lt(a@, b@) == lex_lt(a@.skip(i as int), b@.skip(i as int)),
        decreases na - i,
    {
        if i == na {
            return i < nb;
        }
        if i == nb {
            return false;
        }
        assert(a@.skip(i as int)[0] == a@[i as int]);
        assert(b@.skip(i as int)[0] == b@[i as int]);
        if (a[i] as u32) < (b[i] as u32) {
            return true;
        }
        if a[i] != b[i] {
            return false;
        }
        assert(a@.skip(i as int).drop_first() =~= a@.skip(i + 1));
        assert(b@.skip(i as int).drop_first() =~= b@.skip(i + 1));
        i += 1;
    }
}

/// The character sequences of a list of character vectors.
pub open spec fn char_seqs(v: Seq<Vec<char>>) -> Seq<Seq<char>> {
    v.map_values(|p: Vec<char>| p@)
}

/// Whether each item comes strictly before the next.
pub open spec fn strictly_sorted(r: Seq<Seq<char>>) -> bool {
    forall|i: int, j: int| 0 <= i < j < r.len() ==> lex_lt(#[trigger] r[i], #[trigger] r[j])
}

/// `x` put into its place in an increasing list, unless it is there already.
pub open spec fn insert_sorted(r: Seq<Seq<char>>, x: Seq<char>) -> Seq<Seq<char>>
    decreases r.len(),
{
    if r.len() == 0 {
        seq![x]
    } else if r[0] == x {
        r
    } else if lex_lt(x, r[0]) {
        seq![x] + r
    } else {
        seq![r[0]] + insert_sorted(r.drop_first(), x)
    }
}

/// The distinct items of a list, in increasing order.
pub open spec fn sorted_distinct(s: Seq<Seq<char>>) -> Seq<Seq<char>>
    decreases s.len(),
{
    if s.len() == 0 {
        Seq::empty()
    } else {
        insert_sorted(sorted_distinct(s.drop_last()), s.last())
    }
}

proof fn lemma_insert_sorted(r: Seq<Seq<char>>, x: Seq<char>)
    requires
        strictly_sorted(r),
    ensures
        strictly_sorted(insert_sorted(r, x)),
        forall|y: Seq<char>| #[trigger] insert_sorted(r, x).contains(y) <==> (r.contains(y) || y == x),
    decreases r.len(),
{
    let ins = insert_sorted(r, x);
    if r.len() == 0 {
        assert(ins =~= seq![x]);
        assert forall|y: Seq<char>| ins.contains(y) <==> (r.contains(y) || y == x) by {
            if ins.contains(y) {
                let k = choose|k: int| 0 <= k < ins.len() && ins[k] == y;
                assert(k == 0);
            }
            if y == x {
                assert(ins[0] == y);
            }
        }
    } else if r[0] == x {
        assert forall|y: Seq<char>| ins.contains(y) <==> (r.contains(y) || y == x) by {
            if y == x {
                assert(r[0] == y);
            }
        }
    } else if lex_lt(x, r[0]) {
        let s = seq![x] + r;
        assert(ins == s);
        assert forall|i: int, j: int| 0 <= i < j < s.len() implies lex_lt(#[trigger] s[i], #[trigger] s[j]) by {
            if i == 0 {
                if j > 1 {
                    assert(lex_lt(r[0], r[j - 1]));
                    lemma_lex_transitive(x, r[0], r[j - 1]);
                }
                assert(s[j] == r[j - 1]);
            } else {
                assert(s[i] == r[i - 1] && s[j] == r[j - 1]);
            }
        }
        assert forall|y: Seq<char>| ins.contains(y) <==> (r.contains(y) || y == x) by {
            if ins.contains(y) {
                let k = choose|k: int| 0 <= k < s.len() && s[k] == y;
                if k > 0 {
                    assert(r[k - 1] == y);
                }
            }
            if r.contains(y) {
                let k = choose|k: int| 0 <= k < r.len() && r[k] == y;
                assert(s[k + 1] == y);
            }
            if y == x {
                assert(s[0] == y);
            }
        }
    } else {
        let t = r.drop_first();
        assert(strictly_sorted(t)) by {
            assert forall|i: int, j: int| 0 <= i < j < t.len() implies lex_lt(#[trigger] t[i], #[trigger] t[j]) by {
                assert(t[i] == r[i + 1] && t[j] == r[j + 1]);
            }
        }
        lemma_insert_sorted(t, x);
        lemma_lex_total(x, r[0]);
        let it = insert_sorted(t, x);
        let s = seq![r[0]] + it;
        assert(ins == s);
        assert forall|j: int| 0 <= j < it.len() implies lex_lt(r[0], #[trigger] it[j]) by {
            assert(it.contains(it[j]));
            if it[j] != x {
                assert(t.contains(it[j]));
                let k = choose|k: int| 0 <= k < t.len() && t[k] == it[j];
                assert(r[k + 1] == it[j]);
                assert(lex_lt(r[0], r[k + 1]));
            }
        }
        assert forall|i: int, j: int| 0 <= i < j < s.len() implies lex_lt(#[trigger] s[i], #[trigger] s[j]) by {
            assert(s[j] == it[j - 1]);
            if i > 0 {
                assert(s[i] == it[i - 1]);
            }
        }
        assert forall|y: Seq<char>| ins.contains(y) <==> (r.contains(y) || y == x) by {
            if ins.contains(y) {
                let k = choose|k: int| 0 <= k < s.len() && s[k] == y;
                if k > 0 {
                    assert(it[k - 1] == y);
                    assert(it.contains(y));
                    if t.contains(y) {
                        let m = choose|m: int| 0 <= m < t.len() && t[m] == y;
                        assert(r[m + 1] == y);
                    }
                } else {
                    assert(r[0] == y);
                }
            }
            if r.contains(y) {
                let k = choose|k: int| 0 <= k < r.len() && r[k] == y;
                if k == 0 {
                    assert(s[0] == y);
                } else {
                    assert(t[k - 1] == y);
                    assert(t.contains(y));
                    assert(it.contains(y));
                    let m = choose|m: int| 0 <= m < it.len() && it[m] == y;
                    assert(s[m + 1] == y);
                }
            }
            if y == x {
                assert(it.contains(y));
                let m = choose|m: int| 0 <= m < it.len() && it[m] == y;
                assert(s[m + 1] == y);
            }
        }
    }
}

/// The distinct items of a list come out strictly increasing, and they are
/// exactly the items of the list.
pub proof fn lemma_sorted_distinct(s: Seq<Seq<char>>)
    ensures
        strictly_sorted(sorted_distinct(s)),
        forall|y: Seq<char>| sorted_distinct(s).contains(y) <==> s.contains(y),
    decreases s.len(),
{
    if s.len() > 0 {
        let p = s.drop_last();
        lemma_sorted_distinct(p);
        lemma_insert_sorted(sorted_distinct(p), s.last());
        assert forall|y: Seq<char>| sorted_distinct(s).contains(y) <==> s.contains(y) by {
            if p.contains(y) {
                let k = choose|k: int| 0 <= k < p.len() && p[k] == y;
                assert(s[k] == y);
            }
            if s.contains(y) {
                let k = choose|k: int| 0 <= k < s.len() && s[k] == y;
                if k < s.len() - 1 {
                    assert(p[k] == y);
                }
            }
        }
    }
}

/// `x` put into its place in a list, unless it is there already.
#[verifier::spinoff_prover]
#[verifier::rlimit(40)]
pub fn insert_sorted_chars(r: &mut Vec<Vec<char>>, x: Vec<char>)
    ensures
        char_seqs(final(r)@) == insert_sorted(char_seqs(old(r)@), x@),
{
    let ghost rv = char_seqs(r@);
    let ghost xv = x@;
    let n = r.len();
    let mut i: usize = 0;
    assert(rv.take(0) + rv.skip(0) =~= rv);
    assert(rv.skip(0) =~= rv);
    loop
        invariant
            n == r@.len(),
            rv == char_seqs(r@),
            xv == x@,
            i <= n,
            insert_sorted(rv, xv) == rv.take(i as int) + insert_sorted(rv.skip(i as int), xv),
        ensures
            i <= n,
            i < n ==> !lex_lt(rv[i as int], xv),
            insert_sorted(rv, xv) == rv.take(i as int) + insert_sorted(rv.skip(i as int), xv),
        decreases n - i,
    {
        if i == n {
            break;
        }
        if !lex_less(&r[i], &x) {
            break;
        }
        proof {
            let y = rv[i as int];
            let tail = rv.skip(i as int);
            assert(tail[0] == y);
            lemma_lex_irreflexive(xv);
            if lex_lt(xv, y) {
                lemma_lex_transitive(xv, y, xv);
            }
            assert(tail.drop_first() =~= rv.skip(i + 1));
            let rest = insert_sorted(rv.skip(i + 1), xv);
            assert(insert_sorted(tail, xv) == seq![y] + rest);
            assert(rv.take(i as int) + (seq![y] + rest) =~= rv.take(i + 1) + rest);
        }
        i += 1;
    }
    proof {
        assert(rv.take(n as int) =~= rv);
        assert(rv.skip(n as int) =~= Seq::<Seq<char>>::empty());
    }
    if i == n {
        let ghost before = r@;
        r.push(x);
        assert(char_seqs(r@) =~= rv + seq![xv]);
        return;
    }
    let ghost tail = rv.skip(i as int);
    assert(tail[0] == rv[i as int]);
    if chars_eq(&r[i], &x) {
        assert(rv.take(i as int) + tail =~= rv);
        return;
    }
    proof {
        lemma_lex_total(xv, rv[i as int]);
    }
    r.insert(i, x);
    assert(char_seqs(r@) =~= rv.take(i as int) + (seq![xv] + tail));
}

/// The distinct items of a list, in increasing order.
pub fn sort_distinct(v: &Vec<Vec<char>>) -> (r: Vec<Vec<char>>)
    ensures
        char_seqs(r@) == sorted_distinct(char_seqs(v@)),
{
    let ghost vv = char_seqs(v@);
    let mut r: Vec<Vec<char>> = Vec::new();
    let n = v.len();
    assert(char_seqs(r@) =~= Seq::<Seq<char>>::empty());
    for i in 0..n
        invariant
            n == v@.len(),
            vv == char_seqs(v@),
            char_seqs(r@) == sorted_distinct(vv.take(i as int)),
    {
        assert(vv.take(i + 1).drop_last() =~= vv.take(i as int));
        assert(vv.take(i + 1).last() == v@[i as int]@);
        insert_sorted_chars(&mut r, v[i].clone());
    }
    assert(vv.take(n as int) =~= vv);
    r
}

/// Whether a list of character vectors holds `x`.
pub fn contains_chars(list: &Vec<Vec<char>>, x: &Vec<char>) -> (r: bool)
    ensures
        r == char_seqs(list@).contains(x@),
{
    let n = list.len();
    for i in 0..n
        invariant
            n == list@.len(),
            forall|j: int| 0 <= j < i ==> char_seqs(list@)[j] != x@,
    {
        if chars_eq(&list[i], x) {
            assert(char_seqs(list@)[i as int] == x@);
            return true;
        }
    }
    false
}

/// The items of a list without repeats, each where it first occurs.
pub open spec fn distinct(s: Seq<Seq<char>>) -> Seq<Seq<char>>
    decreases s.len(),
{
    if s.len() == 0 {
        Seq::empty()
    } else if distinct(s.drop_last()).contains(s.last()) {
        distinct(s.drop_last())
    } else {
        distinct(s.drop_last()).push(s.last())
    }
}

/// The items of a list without repeats, each where it first occurs.
pub fn distinct_chars(v: &Vec<Vec<char>>) -> (r: Vec<Vec<char>>)
    ensures
        char_seqs(r@) == distinct(char_seqs(v@)),
{
    let ghost vv = char_seqs(v@);
    let mut r: Vec<Vec<char>> = Vec::new();
    assert(char_seqs(r@) =~= Seq::<Seq<char>>::empty());
    let n = v.len();
    for i in 0..n
        invariant
            n == v@.len(),
            vv == char_seqs(v@),
            char_seqs(r@) == distinct(vv.take(i as int)),
    {
        assert(vv.take(i + 1).drop_last() =~= vv.take(i as int));
        assert(vv.take(i + 1).last() == v@[i as int]@);
        if !contains_chars(&r, &v[i]) {
            let ghost prev = char_seqs(r@);
            r.push(v[i].clone());
            assert(char_seqs(r@) =~= prev.push(v@[i as int]@));
        }
    }
    assert(vv.take(n as int) =~= vv);
    r
}

} // verus!
