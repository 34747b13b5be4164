//! Text handling on sequences of characters: the few pieces of `str`
//! behaviour the library relies on (whitespace, trimming, prefixes, lines,
//! whitespace-separated words, decimal numbers), each stated as a spec
//! function and implemented on `Vec<char>` against that statement.
use vstd::prelude::*;

verus! {

// ---------------------------------------------------------------------------
// Specifications
// ---------------------------------------------------------------------------
/// `char::is_whitespace`: the Unicode `White_Space` property.
pub open spec fn is_ws(c: char) -> bool {
    let u = c as u32;
    ||| 0x9 <= u <= 0xD
    ||| u == 0x20
    ||| u == 0x85
    ||| u == 0xA0
    ||| u == 0x1680
    ||| 0x2000 <= u <= 0x200A
    ||| u == 0x2028
    ||| u == 0x2029
    ||| u == 0x202F
    ||| u == 0x205F
    ||| u == 0x3000
}

/// `s` with its leading whitespace removed.
pub open spec fn trim_start(s: Seq<char>) -> Seq<char>
    decreases s.len(),
{
    if s.len() > 0 && is_ws(s[0]) {
        trim_start(s.drop_first())
    } else {
        s
    }
}

/// `s` with its trailing whitespace removed.
pub open spec fn trim_end(s: Seq<char>) -> Seq<char>
    decreases s.len(),
{
    if s.len() > 0 && is_ws(s.last()) {
        trim_end(s.drop_last())
    } else {
        s
    }
}

/// `str::trim`: leading and trailing whitespace removed.
pub open spec fn trim(s: Seq<char>) -> Seq<char> {
    trim_end(trim_start(s))
}

/// `p` is a prefix of `s`.
pub open spec fn starts_with(s: Seq<char>, p: Seq<char>) -> bool {
    p.len() <= s.len() && s.subrange(0, p.len() as int) == p
}

/// `p` is a suffix of `s`.
pub open spec fn ends_with(s: Seq<char>, p: Seq<char>) -> bool {
    p.len() <= s.len() && s.subrange(s.len() - p.len(), s.len() as int) == p
}

/// `p` occurs in `s` starting at index `i`.
pub open spec fn occurs_at(s: Seq<char>, p: Seq<char>, i: int) -> bool {
    0 <= i && i + p.len() <= s.len() && s.subrange(i, i + p.len()) == p
}

/// `p` occurs somewhere in `s` (`str::contains` with a string pattern).
pub open spec fn contains(s: Seq<char>, p: Seq<char>) -> bool {
    exists|i: int| occurs_at(s, p, i)
}

/// `str::trim_start_matches` with a non-empty string pattern: every leading
/// copy of `p` removed.
pub open spec fn trim_start_matches(s: Seq<char>, p: Seq<char>) -> Seq<char>
    decreases s.len(),
{
    if p.len() > 0 && starts_with(s, p) {
        trim_start_matches(s.subrange(p.len() as int, s.len() as int), p)
    } else {
        s
    }
}

/// Leading copies of the character `c` removed.
pub open spec fn trim_start_char(s: Seq<char>, c: char) -> Seq<char>
    decreases s.len(),
{
    if s.len() > 0 && s[0] == c {
        trim_start_char(s.drop_first(), c)
    } else {
        s
    }
}

/// Trailing copies of the character `c` removed.
pub open spec fn trim_end_char(s: Seq<char>, c: char) -> Seq<char>
    decreases s.len(),
{
    if s.len() > 0 && s.last() == c {
        trim_end_char(s.drop_last(), c)
    } else {
        s
    }
}

/// `str::trim_matches` with a character pattern.
pub open spec fn trim_char(s: Seq<char>, c: char) -> Seq<char> {
    trim_end_char(trim_start_char(s, c), c)
}

/// Index of the first `c` in `s`, or `s.len()` when there is none.
pub open spec fn index_of(s: Seq<char>, c: char) -> nat
    decreases s.len(),
{
    if s.len() == 0 {
        0
    } else if s[0] == c {
        0
    } else {
        1 + index_of(s.drop_first(), c)
    }
}

/// Index of the first whitespace character in `s`, or `s.len()`.
pub open spec fn index_of_ws(s: Seq<char>) -> nat
    decreases s.len(),
{
    if s.len() == 0 {
        0
    } else if is_ws(s[0]) {
        0
    } else {
        1 + index_of_ws(s.drop_first())
    }
}

/// A line without its `\r` terminator.
pub open spec fn strip_cr(l: Seq<char>) -> Seq<char> {
    if l.len() > 0 && l.last() == '\r' {
        l.drop_last()
    } else {
        l
    }
}

/// `str::lines`: split at `\n` or `\r\n`; the final line ending is optional,
/// and an empty string has no lines.
pub open spec fn lines(s: Seq<char>) -> Seq<Seq<char>>
    decreases s.len(),
{
    if s.len() == 0 {
        Seq::empty()
    } else {
        let k = index_of(s, '\n');
        if k >= s.len() {
            seq![s]
        } else {
            seq![strip_cr(s.take(k as int))] + lines(s.skip(k + 1 as int))
        }
    }
}

/// `str::split_whitespace`: the maximal runs of non-whitespace characters.
pub open spec fn words(s: Seq<char>) -> Seq<Seq<char>>
    decreases s.len(),
{
    let t = trim_start(s);
    if t.len() == 0 {
        Seq::empty()
    } else {
        let k = index_of_ws(t);
        proof {
            lemma_trim_start_shape(s);
            lemma_index_of_ws(t);
        }
        seq![t.take(k as int)] + words(t.skip(k as int))
    }
}

/// The decimal digit `c` stands for.
pub open spec fn digit_value(c: char) -> int {
    (c as u32) - ('0' as u32)
}

/// `c` is one of `0` to `9`.
pub open spec fn is_digit(c: char) -> bool {
    '0' as u32 <= c as u32 <= '9' as u32
}

/// Every character of `s` is a decimal digit.
pub open spec fn all_digits(s: Seq<char>) -> bool {
    forall|i: int| 0 <= i < s.len() ==> is_digit(#[trigger] s[i])
}

/// The number the decimal digits `s` denote.
pub open spec fn decimal_value(s: Seq<char>) -> nat
    decreases s.len(),
{
    if s.len() == 0 {
        0
    } else {
        (decimal_value(s.drop_last()) * 10 + digit_value(s.last())) as nat
    }
}

/// The part of a number's text after an optional leading `+`.
pub open spec fn unsigned_digits(s: Seq<char>) -> Seq<char> {
    if s.len() > 0 && s[0] == '+' {
        s.drop_first()
    } else {
        s
    }
}

/// `<u64 as FromStr>::from_str`: an optional `+`, then one or more decimal
/// digits whose value fits in a `u64`.
pub open spec fn parse_u64(s: Seq<char>) -> Option<u64> {
    let d = unsigned_digits(s);
    if d.len() > 0 && all_digits(d) && decimal_value(d) <= u64::MAX {
        Some(decimal_value(d) as u64)
    } else {
        None
    }
}

/// The character of the digit `d` (`0 <= d < 10`).
pub open spec fn digit_char(d: nat) -> char {
    if d == 0 {
        '0'
    } else if d == 1 {
        '1'
    } else if d == 2 {
        '2'
    } else if d == 3 {
        '3'
    } else if d == 4 {
        '4'
    } else if d == 5 {
        '5'
    } else if d == 6 {
        '6'
    } else if d == 7 {
        '7'
    } else if d == 8 {
        '8'
    } else {
        '9'
    }
}

/// The decimal text of `n`, as `Display` writes an unsigned integer.
pub open spec fn decimal(n: nat) -> Seq<char>
    decreases n,
{
    if n < 10 {
        seq![digit_char(n)]
    } else {
        decimal(n / 10).push(digit_char(n % 10))
    }
}

/// Lexicographic order on character sequences, by code point: the order of
/// `String`'s `Ord`.
pub open spec fn lex_le(a: Seq<char>, b: Seq<char>) -> bool
    decreases a.len(),
{
    if a.len() == 0 {
        true
    } else if b.len() == 0 {
        false
    } else if (a[0] as u32) < (b[0] as u32) {
        true
    } else if (a[0] as u32) > (b[0] as u32) {
        false
    } else {
        lex_le(a.drop_first(), b.drop_first())
    }
}

/// Strict lexicographic order.
pub open spec fn lex_lt(a: Seq<char>, b: Seq<char>) -> bool {
    !lex_le(b, a)
}

// ---------------------------------------------------------------------------
// Basic facts
// ---------------------------------------------------------------------------
/// `trim_start(s)` is a suffix of `s` that is empty or starts with a
/// non-whitespace character, and everything before it is whitespace.
pub proof fn lemma_trim_start_shape(s: Seq<char>)
    ensures
        trim_start(s).len() <= s.len(),
        trim_start(s) == s.subrange(s.len() - trim_start(s).len(), s.len() as int),
        trim_start(s).len() > 0 ==> !is_ws(trim_start(s)[0]),
        forall|i: int| 0 <= i < s.len() - trim_start(s).len() ==> is_ws(#[trigger] s[i]),
    decreases s.len(),
{
    if s.len() > 0 && is_ws(s[0]) {
        lemma_trim_start_shape(s.drop_first());
        assert forall|i: int| 0 <= i < s.len() - trim_start(s).len() implies is_ws(#[trigger] s[i]) by {
            if i > 0 {
                assert(s[i] == s.drop_first()[i - 1]);
            }
        }
    } else {
        assert(s == s.subrange(0, s.len() as int));
    }
}

/// `index_of_ws(s)` is the length of the leading run of non-whitespace.
pub proof fn lemma_index_of_ws(s: Seq<char>)
    ensures
        index_of_ws(s) <= s.len(),
        index_of_ws(s) < s.len() ==> is_ws(s[index_of_ws(s) as int]),
        forall|i: int| 0 <= i < index_of_ws(s) ==> !is_ws(#[trigger] s[i]),
        s.len() > 0 && !is_ws(s[0]) ==> index_of_ws(s) > 0,
    decreases s.len(),
{
    if s.len() > 0 && !is_ws(s[0]) {
        lemma_index_of_ws(s.drop_first());
        assert forall|i: int| 0 <= i < index_of_ws(s) implies !is_ws(#[trigger] s[i]) by {
            if i > 0 {
                assert(s[i] == s.drop_first()[i - 1]);
            }
        }
    }
}


// ---------------------------------------------------------------------------
// Conversions between `str`/`String` and `Vec<char>`
// ---------------------------------------------------------------------------
/// `String::push` appends the character at the end of the string.
pub assume_specification[ String::push ](s: &mut String, ch: char)
    ensures
        final(s)@ == old(s)@.push(ch),
;

/// The views of a sequence of character vectors.
pub open spec fn views(s: Seq<Vec<char>>) -> Seq<Seq<char>> {
    s.map_values(|v: Vec<char>| v@)
}

/// The views of a sequence of strings.
pub open spec fn string_views(s: Seq<String>) -> Seq<Seq<char>> {
    s.map_values(|v: String| v@)
}

/// The characters of `s`, in order.
pub fn chars_of(s: &str) -> (r: Vec<char>)
    ensures
        r@ == s@,
{
    let mut r: Vec<char> = Vec::new();
    for c in it: s.chars()
        invariant
            r@ == it.seq().take(it.index() as int),
    {
        r.push(c);
    }
    r
}

/// The string made of the characters of `v`.
pub fn string_of(v: &Vec<char>) -> (r: String)
    ensures
        r@ == v@,
{
    let mut r = String::new();
    let n = v.len();
    let mut i: usize = 0;
    while i < n
        invariant
            n == v@.len(),
            i <= n,
            r@ == v@.take(i as int),
        decreases n - i,
    {
        r.push(v[i]);
        proof {
            assert(v@.take(i + 1) =~= v@.take(i as int).push(v@[i as int]));
        }
        i += 1;
    }
    proof {
        assert(v@.take(n as int) =~= v@);
    }
    r
}

/// The characters of `s` from index `a` up to (not including) `b`.
pub fn slice_chars(s: &Vec<char>, a: usize, b: usize) -> (r: Vec<char>)
    requires
        a <= b <= s@.len(),
    ensures
        r@ == s@.subrange(a as int, b as int),
{
    let mut r: Vec<char> = Vec::new();
    let mut k = a;
    while k < b
        invariant
            a <= k <= b,
            b <= s@.len(),
            r@ == s@.subrange(a as int, k as int),
        decreases b - k,
    {
        r.push(s[k]);
        proof {
            assert(s@.subrange(a as int, k + 1) =~= s@.subrange(a as int, k as int).push(s@[k as int]));
        }
        k += 1;
    }
    r
}

// ---------------------------------------------------------------------------
// Executable counterparts
// ---------------------------------------------------------------------------
/// `char::is_whitespace`.
pub fn is_ws_char(c: char) -> (r: bool)
    ensures
        r == is_ws(c),
{
    let u = c as u32;
    (0x9 <= u && u <= 0xD) || u == 0x20 || u == 0x85 || u == 0xA0 || u == 0x1680 || (0x2000 <= u
        && u <= 0x200A) || u == 0x2028 || u == 0x2029 || u == 0x202F || u == 0x205F || u == 0x3000
}

/// `str::trim` on characters.
pub fn trim_chars(s: &Vec<char>) -> (r: Vec<char>)
    ensures
        r@ == trim(s@),
{
    let n = s.len();
    let mut i: usize = 0;
    assert(s@.subrange(0, n as int) =~= s@);
    while i < n && is_ws_char(s[i])
        invariant
            i <= n,
            n == s@.len(),
            trim_start(s@) == trim_start(s@.subrange(i as int, n as int)),
        decreases n - i,
    {
        proof {
            assert(s@.subrange(i as int, n as int).drop_first() =~= s@.subrange(i + 1, n as int));
        }
        i += 1;
    }
    proof {
        let t = s@.subrange(i as int, n as int);
        if i < n {
            assert(t[0] == s@[i as int]);
        }
    }
    let mut j: usize = n;
    while j > i && is_ws_char(s[j - 1])
        invariant
            i <= j <= n,
            n == s@.len(),
            trim(s@) == trim_end(s@.subrange(i as int, j as int)),
        decreases j,
    {
        proof {
            assert(s@.subrange(i as int, j as int).drop_last() =~= s@.subrange(i as int, j - 1));
        }
        j -= 1;
    }
    proof {
        let t = s@.subrange(i as int, j as int);
        if i < j {
            assert(t.last() == s@[j - 1]);
        }
    }
    slice_chars(s, i, j)
}

/// `str::trim` on strings.
pub fn trim_str(s: &str) -> (r: String)
    ensures
        r@ == trim(s@),
{
    let c = chars_of(s);
    let t = trim_chars(&c);
    string_of(&t)
}

/// Whether `p` occurs in `s` at index `i`.
pub fn matches_at(s: &Vec<char>, p: &Vec<char>, i: usize) -> (r: bool)
    requires
        i + p@.len() <= s@.len(),
    ensures
        r == (s@.subrange(i as int, i + p@.len()) == p@),
{
    let m = p.len();
    let n = s.len();
    let mut k: usize = 0;
    while k < m
        invariant
            k <= m,
            m == p@.len(),
            n == s@.len(),
            i + m <= n,
            forall|j: int| 0 <= j < k ==> s@[i + j] == p@[j],
        decreases m - k,
    {
        if s[i + k] != p[k] {
            proof {
                assert(s@.subrange(i as int, i + m)[k as int] != p@[k as int]);
            }
            return false;
        }
        k += 1;
    }
    proof {
        assert(s@.subrange(i as int, i + m) =~= p@);
    }
    true
}

/// `starts_with` on characters.
pub fn has_prefix(s: &Vec<char>, p: &Vec<char>) -> (r: bool)
    ensures
        r == starts_with(s@, p@),
{
    if p.len() > s.len() {
        return false;
    }
    matches_at(s, p, 0)
}

/// `ends_with` on characters.
pub fn has_suffix(s: &Vec<char>, p: &Vec<char>) -> (r: bool)
    ensures
        r == ends_with(s@, p@),
{
    if p.len() > s.len() {
        return false;
    }
    matches_at(s, p, s.len() - p.len())
}

/// `contains` on characters.
pub fn has_substring(s: &Vec<char>, p: &Vec<char>) -> (r: bool)
    ensures
        r == contains(s@, p@),
{
    if p.len() > s.len() {
        return false;
    }
    let last = s.len() - p.len();
    let mut i: usize = 0;
    loop
        invariant
            i <= last,
            last + p@.len() == s@.len(),
            forall|j: int| 0 <= j < i ==> !occurs_at(s@, p@, j),
        ensures
            forall|j: int| 0 <= j <= last ==> !occurs_at(s@, p@, j),
        decreases last - i,
    {
        if matches_at(s, p, i) {
            assert(occurs_at(s@, p@, i as int));
            return true;
        }
        if i == last {
            break;
        }
        i += 1;
    }
    false
}

/// `str::starts_with` with a string pattern.
pub fn str_starts_with(s: &str, p: &str) -> (r: bool)
    ensures
        r == starts_with(s@, p@),
{
    has_prefix(&chars_of(s), &chars_of(p))
}

/// `str::ends_with` with a string pattern.
pub fn str_ends_with(s: &str, p: &str) -> (r: bool)
    ensures
        r == ends_with(s@, p@),
{
    has_suffix(&chars_of(s), &chars_of(p))
}

/// `str::contains` with a string pattern.
pub fn str_contains(s: &str, p: &str) -> (r: bool)
    ensures
        r == contains(s@, p@),
{
    has_substring(&chars_of(s), &chars_of(p))
}

/// `str::lines` on characters.
pub fn split_lines(s: &Vec<char>) -> (r: Vec<Vec<char>>)
    ensures
        views(r@) == lines(s@),
{
    let n = s.len();
    let mut r: Vec<Vec<char>> = Vec::new();
    let mut start: usize = 0;
    assert(s@.subrange(0, n as int) =~= s@);
    assert(views(r@) =~= Seq::<Seq<char>>::empty());
    while start < n
        invariant
            start <= n,
            n == s@.len(),
            views(r@) + lines(s@.subrange(start as int, n as int)) == lines(s@),
        decreases n - start,
    {
        let ghost t = s@.subrange(start as int, n as int);
        let mut k = start;
        while k < n && s[k] != '\n'
            invariant
                start <= k <= n,
                n == s@.len(),
                t == s@.subrange(start as int, n as int),
                index_of(t, '\n') == (k - start) + index_of(s@.subrange(k as int, n as int), '\n'),
                forall|j: int| start <= j < k ==> s@[j] != '\n',
            decreases n - k,
        {
            proof {
                assert(s@.subrange(k as int, n as int).drop_first() =~= s@.subrange(k + 1, n as int));
            }
            k += 1;
        }
        let ghost old_views = views(r@);
        if k == n {
            let line = slice_chars(s, start, n);
            proof {
                assert(index_of(t, '\n') == t.len());
                assert(lines(t) == seq![t]);
                assert(s@.subrange(n as int, n as int) =~= Seq::<char>::empty());
            }
            r.push(line);
            proof {
                assert(views(r@) =~= old_views.push(t));
                assert(old_views + seq![t] =~= old_views.push(t));
            }
            start = n;
        } else {
            let mut e = k;
            if e > start && s[e - 1] == '\r' {
                e = e - 1;
            }
            let line = slice_chars(s, start, e);
            proof {
                assert(s@.subrange(k as int, n as int)[0] == '\n');
                assert(index_of(t, '\n') == k - start);
                assert(t.take(k - start) =~= s@.subrange(start as int, k as int));
                assert(t.skip(k - start + 1) =~= s@.subrange(k + 1, n as int));
                let l = s@.subrange(start as int, k as int);
                if k > start && s@[k - 1] == '\r' {
                    assert(l.drop_last() =~= s@.subrange(start as int, e as int));
                }
                assert(strip_cr(l) == line@);
                assert(lines(t) == seq![line@] + lines(s@.subrange(k + 1, n as int)));
            }
            r.push(line);
            proof {
                assert(views(r@) =~= old_views.push(line@));
                assert(old_views + lines(t) =~= old_views.push(line@) + lines(
                    s@.subrange(k + 1, n as int),
                ));
            }
            start = k + 1;
        }
    }
    proof {
        assert(s@.subrange(n as int, n as int) =~= Seq::<char>::empty());
        assert(views(r@) + Seq::<Seq<char>>::empty() =~= views(r@));
    }
    r
}

/// `str::split_whitespace` on characters.
pub fn split_words(s: &Vec<char>) -> (r: Vec<Vec<char>>)
    ensures
        views(r@) == words(s@),
{
    let n = s.len();
    let mut r: Vec<Vec<char>> = Vec::new();
    let mut i: usize = 0;
    assert(s@.subrange(0, n as int) =~= s@);
    assert(views(r@) =~= Seq::<Seq<char>>::empty());
    while i < n
        invariant
            i <= n,
            n == s@.len(),
            views(r@) + words(s@.subrange(i as int, n as int)) == words(s@),
        decreases n - i,
    {
        let ghost t = s@.subrange(i as int, n as int);
        if is_ws_char(s[i]) {
            proof {
                assert(t.drop_first() =~= s@.subrange(i + 1, n as int));
                assert(trim_start(t) == trim_start(s@.subrange(i + 1, n as int)));
                assert(words(t) == words(s@.subrange(i + 1, n as int)));
            }
            i += 1;
        } else {
            let mut j = i;
            while j < n && !is_ws_char(s[j])
                invariant
                    i <= j <= n,
                    n == s@.len(),
                    t == s@.subrange(i as int, n as int),
                    index_of_ws(t) == (j - i) + index_of_ws(s@.subrange(j as int, n as int)),
                decreases n - j,
            {
                proof {
                    assert(s@.subrange(j as int, n as int).drop_first() =~= s@.subrange(
                        j + 1,
                        n as int,
                    ));
                }
                j += 1;
            }
            let w = slice_chars(s, i, j);
            let ghost old_views = views(r@);
            proof {
                assert(trim_start(t) == t);
                if j < n {
                    assert(s@.subrange(j as int, n as int)[0] == s@[j as int]);
                }
                assert(index_of_ws(t) == j - i);
                assert(t.take(j - i) =~= w@);
                assert(t.skip(j - i) =~= s@.subrange(j as int, n as int));
                assert(words(t) == seq![w@] + words(s@.subrange(j as int, n as int)));
            }
            r.push(w);
            proof {
                assert(views(r@) =~= old_views.push(w@));
                assert(old_views + words(t) =~= old_views.push(w@) + words(
                    s@.subrange(j as int, n as int),
                ));
            }
            i = j;
        }
    }
    proof {
        assert(s@.subrange(n as int, n as int) =~= Seq::<char>::empty());
        assert(words(Seq::<char>::empty()) =~= Seq::<Seq<char>>::empty());
        assert(views(r@) + Seq::<Seq<char>>::empty() =~= views(r@));
    }
    r
}

/// A prefix of an all-digit sequence denotes no more than the whole.
pub proof fn lemma_decimal_value_prefix(d: Seq<char>, m: int)
    requires
        all_digits(d),
        0 <= m <= d.len(),
    ensures
        decimal_value(d.take(m)) <= decimal_value(d),
    decreases d.len(),
{
    if m < d.len() {
        let e = d.drop_last();
        assert(all_digits(e)) by {
            assert forall|i: int| 0 <= i < e.len() implies is_digit(#[trigger] e[i]) by {
                assert(e[i] == d[i]);
            }
        }
        assert(is_digit(d[d.len() - 1]));
        lemma_decimal_value_prefix(e, m);
        assert(e.take(m) =~= d.take(m));
    } else {
        assert(d.take(m) =~= d);
    }
}

/// `<u64 as FromStr>::from_str` on characters.
pub fn parse_u64_chars(s: &Vec<char>) -> (r: Option<u64>)
    ensures
        r == parse_u64(s@),
{
    let n = s.len();
    let mut i: usize = 0;
    if n > 0 && s[0] == '+' {
        i = 1;
    }
    let ghost d = s@.subrange(i as int, n as int);
    proof {
        if n > 0 && s@[0] == '+' {
            assert(d =~= s@.drop_first());
        } else {
            assert(d =~= s@);
        }
    }
    if i == n {
        return None;
    }
    let mut acc: u64 = 0;
    let mut k = i;
    assert(d.take(0) =~= Seq::<char>::empty());
    while k < n
        invariant
            i <= k <= n,
            n == s@.len(),
            d == s@.subrange(i as int, n as int),
            d == unsigned_digits(s@),
            d.take(k - i) == s@.subrange(i as int, k as int),
            all_digits(d.take(k - i)),
            acc == decimal_value(d.take(k - i)),
        decreases n - k,
    {
        let c = s[k];
        let u = c as u32;
        if u < 48 || u > 57 {
            proof {
                assert(!is_digit(d[k - i]));
            }
            return None;
        }
        let dv = (u - 48) as u64;
        let ghost next = d.take(k - i + 1);
        proof {
            assert(next.drop_last() =~= d.take(k - i));
            assert(next.last() == c);
            assert(all_digits(next)) by {
                assert forall|j: int| 0 <= j < next.len() implies is_digit(#[trigger] next[j]) by {
                    if j < k - i {
                        assert(next[j] == d.take(k - i)[j]);
                    }
                }
            }
        }
        if acc > (u64::MAX - dv) / 10 {
            proof {
                assert(acc * 10 + dv > u64::MAX) by (nonlinear_arith)
                    requires
                        acc > (u64::MAX - dv) / 10,
                        dv <= 9,
                ;
                assert(decimal_value(next) == acc * 10 + dv);
                if all_digits(d) {
                    lemma_decimal_value_prefix(d, k - i + 1);
                }
            }
            return None;
        }
        proof {
            assert(acc * 10 + dv <= u64::MAX) by (nonlinear_arith)
                requires
                    acc <= (u64::MAX - dv) / 10,
                    dv <= 9,
            ;
        }
        acc = acc * 10 + dv;
        proof {
            assert(s@.subrange(i as int, k + 1) =~= next);
        }
        k += 1;
    }
    proof {
        assert(d.take(n - i) =~= d);
    }
    Some(acc)
}

/// `str::parse::<u64>`.
pub fn parse_u64_str(s: &str) -> (r: Option<u64>)
    ensures
        r == parse_u64(s@),
{
    parse_u64_chars(&chars_of(s))
}

/// The character of a decimal digit.
fn digit_to_char(d: u64) -> (c: char)
    requires
        d < 10,
    ensures
        c == digit_char(d as nat),
{
    match d {
        0 => '0',
        1 => '1',
        2 => '2',
        3 => '3',
        4 => '4',
        5 => '5',
        6 => '6',
        7 => '7',
        8 => '8',
        _ => '9',
    }
}

/// The decimal text of `n`.
pub fn decimal_chars(n: u64) -> (r: Vec<char>)
    ensures
        r@ == decimal(n as nat),
    decreases n,
{
    if n < 10 {
        let mut v: Vec<char> = Vec::new();
        v.push(digit_to_char(n));
        proof {
            assert(v@ =~= seq![digit_char(n as nat)]);
        }
        v
    } else {
        let mut v = decimal_chars(n / 10);
        v.push(digit_to_char(n % 10));
        v
    }
}

/// `n.to_string()` for an unsigned integer.
pub fn u64_to_string(n: u64) -> (r: String)
    ensures
        r@ == decimal(n as nat),
{
    string_of(&decimal_chars(n))
}

/// `a <= b` in `String`'s order.
pub fn lex_le_chars(a: &Vec<char>, b: &Vec<char>) -> (r: bool)
    ensures
        r == lex_le(a@, b@),
{
    let na = a.len();
    let nb = b.len();
    let mut i: usize = 0;
    assert(a@.skip(0) =~= a@);
    assert(b@.skip(0) =~= b@);
    while i < na && i < nb && (a[i] as u32) == (b[i] as u32)
        invariant
            i <= na,
            i <= nb,
            na == a@.len(),
            nb == b@.len(),
            lex_le(a@, b@) == lex_le(a@.skip(i as int), b@.skip(i as int)),
        decreases na - i,
    {
        proof {
            assert(a@.skip(i as int).drop_first() =~= a@.skip(i + 1));
            assert(b@.skip(i as int).drop_first() =~= b@.skip(i + 1));
        }
        i += 1;
    }
    proof {
        if i < na && i < nb {
            assert(a@.skip(i as int)[0] == a@[i as int]);
            assert(b@.skip(i as int)[0] == b@[i as int]);
        }
    }
    if i == na {
        true
    } else if i == nb {
        false
    } else {
        (a[i] as u32) < (b[i] as u32)
    }
}

/// `a <= b` in `String`'s order.
pub fn str_le(a: &str, b: &str) -> (r: bool)
    ensures
        r == lex_le(a@, b@),
{
    lex_le_chars(&chars_of(a), &chars_of(b))
}

/// `str::trim_start_matches` with a non-empty string pattern, on characters.
pub fn trim_start_matches_chars(s: &Vec<char>, p: &Vec<char>) -> (r: Vec<char>)
    requires
        p@.len() > 0,
    ensures
        r@ == trim_start_matches(s@, p@),
{
    let n = s.len();
    let m = p.len();
    let mut i: usize = 0;
    assert(s@.subrange(0, n as int) =~= s@);
    while m <= n - i && matches_at(s, p, i)
        invariant
            i <= n,
            n == s@.len(),
            m == p@.len(),
            m > 0,
            trim_start_matches(s@, p@) == trim_start_matches(s@.subrange(i as int, n as int), p@),
        decreases n - i,
    {
        proof {
            let t = s@.subrange(i as int, n as int);
            assert(t.subrange(0, m as int) =~= s@.subrange(i as int, i + m));
            assert(t.subrange(m as int, t.len() as int) =~= s@.subrange(i + m, n as int));
        }
        i += m;
    }
    proof {
        let t = s@.subrange(i as int, n as int);
        if m <= n - i {
            assert(t.subrange(0, m as int) =~= s@.subrange(i as int, i + m));
        }
    }
    slice_chars(s, i, n)
}

/// `str::trim_matches` with a character pattern, on characters.
pub fn trim_char_chars(s: &Vec<char>, c: char) -> (r: Vec<char>)
    ensures
        r@ == trim_char(s@, c),
{
    let n = s.len();
    let mut i: usize = 0;
    assert(s@.subrange(0, n as int) =~= s@);
    while i < n && s[i] == c
        invariant
            i <= n,
            n == s@.len(),
            trim_start_char(s@, c) == trim_start_char(s@.subrange(i as int, n as int), c),
        decreases n - i,
    {
        proof {
            assert(s@.subrange(i as int, n as int).drop_first() =~= s@.subrange(i + 1, n as int));
        }
        i += 1;
    }
    proof {
        let t = s@.subrange(i as int, n as int);
        if i < n {
            assert(t[0] == s@[i as int]);
        }
    }
    let mut j: usize = n;
    while j > i && s[j - 1] == c
        invariant
            i <= j <= n,
            n == s@.len(),
            trim_char(s@, c) == trim_end_char(s@.subrange(i as int, j as int), c),
        decreases j,
    {
        proof {
            assert(s@.subrange(i as int, j as int).drop_last() =~= s@.subrange(i as int, j - 1));
        }
        j -= 1;
    }
    proof {
        let t = s@.subrange(i as int, j as int);
        if i < j {
            assert(t.last() == s@[j - 1]);
        }
    }
    slice_chars(s, i, j)
}

/// `str::strip_prefix` with a string pattern, on characters.
pub fn strip_prefix_chars(s: &Vec<char>, p: &Vec<char>) -> (r: Option<Vec<char>>)
    ensures
        r is Some <==> starts_with(s@, p@),
        r matches Some(t) ==> t@ == s@.subrange(p@.len() as int, s@.len() as int),
{
    if has_prefix(s, p) {
        Some(slice_chars(s, p.len(), s.len()))
    } else {
        None
    }
}

// ---------------------------------------------------------------------------
// Laws
// ---------------------------------------------------------------------------
/// The order on character sequences is total.
pub proof fn lemma_lex_total(a: Seq<char>, b: Seq<char>)
    ensures
        lex_le(a, b) || lex_le(b, a),
    decreases a.len(),
{
    if a.len() > 0 && b.len() > 0 && a[0] as u32 == b[0] as u32 {
        lemma_lex_total(a.drop_first(), b.drop_first());
    }
}

/// The order on character sequences is transitive.
pub proof fn lemma_lex_transitive(a: Seq<char>, b: Seq<char>, c: Seq<char>)
    requires
        lex_le(a, b),
        lex_le(b, c),
    ensures
        lex_le(a, c),
    decreases a.len(),
{
    if a.len() > 0 && b.len() > 0 && c.len() > 0 && a[0] as u32 == b[0] as u32 && b[0] as u32
        == c[0] as u32 {
        lemma_lex_transitive(a.drop_first(), b.drop_first(), c.drop_first());
    }
}

/// Two sequences each at most the other are equal.
pub proof fn lemma_lex_antisymmetric(a: Seq<char>, b: Seq<char>)
    requires
        lex_le(a, b),
        lex_le(b, a),
    ensures
        a == b,
    decreases a.len(),
{
    broadcast use vstd::utf8::char_u32_cast;

    if a.len() > 0 && b.len() > 0 {
        lemma_lex_antisymmetric(a.drop_first(), b.drop_first());
        assert(a[0] == b[0]) by {
            let x = a[0] as u32;
            vstd::utf8::char_u32_cast(a[0], x);
            vstd::utf8::char_u32_cast(b[0], x);
        }
        assert(a =~= seq![a[0]] + a.drop_first());
        assert(b =~= seq![b[0]] + b.drop_first());
    } else {
        assert(a.len() == 0 && b.len() == 0);
        assert(a =~= b);
    }
}

/// Every sequence is at most itself.
pub proof fn lemma_lex_reflexive(a: Seq<char>)
    ensures
        lex_le(a, a),
    decreases a.len(),
{
    if a.len() > 0 {
        lemma_lex_reflexive(a.drop_first());
    }
}

/// A digit's character is a digit that stands for it.
pub proof fn lemma_digit_char(d: nat)
    requires
        d < 10,
    ensures
        is_digit(digit_char(d)),
        digit_value(digit_char(d)) == d,
{
}

/// The decimal text of a number consists of digits only, has no leading `+`,
/// and denotes that number.
pub proof fn lemma_decimal_digits(n: nat)
    ensures
        decimal(n).len() > 0,
        all_digits(decimal(n)),
        decimal_value(decimal(n)) == n,
        decimal(n)[0] != '+',
    decreases n,
{
    lemma_digit_char(n % 10);
    if n >= 10 {
        lemma_decimal_digits(n / 10);
        let d = decimal(n);
        assert(d.drop_last() =~= decimal(n / 10));
        assert(d.last() == digit_char(n % 10));
        assert(decimal_value(d) == decimal_value(decimal(n / 10)) * 10 + digit_value(digit_char(n % 10)));
        assert((n / 10) * 10 + n % 10 == n);
        assert forall|i: int| 0 <= i < d.len() implies is_digit(#[trigger] d[i]) by {
            if i < d.len() - 1 {
                assert(d[i] == decimal(n / 10)[i]);
            }
        }
    } else {
        let d = decimal(n);
        assert(d.drop_last() =~= Seq::<char>::empty());
        assert(n % 10 == n);
        assert(d.len() == 1 && d.last() == digit_char(n));
        assert(decimal_value(d.drop_last()) == 0);
        assert(decimal_value(d) == digit_value(digit_char(n)));
    }
}

/// Parsing the decimal text of a `u64` gives the number back.
pub proof fn lemma_parse_decimal_roundtrip(n: u64)
    ensures
        parse_u64(decimal(n as nat)) == Some(n),
{
    lemma_decimal_digits(n as nat);
}

/// Trimming twice is trimming once.
pub proof fn lemma_trim_idempotent(s: Seq<char>)
    ensures
        trim(trim(s)) == trim(s),
{
    lemma_trim_start_shape(s);
    let t = trim_start(s);
    lemma_trim_end_shape(t);
    let u = trim_end(t);
    // u is a prefix of t, so it starts with t's first character when non-empty
    if u.len() > 0 {
        assert(u[0] == t[0]);
    }
    assert(trim_start(u) == u);
    lemma_trim_end_shape(u);
}

/// `trim_end(s)` is a prefix of `s` that is empty or ends with a
/// non-whitespace character.
pub proof fn lemma_trim_end_shape(s: Seq<char>)
    ensures
        trim_end(s).len() <= s.len(),
        trim_end(s) == s.subrange(0, trim_end(s).len() as int),
        trim_end(s).len() > 0 ==> !is_ws(trim_end(s).last()),
        trim_end(trim_end(s)) == trim_end(s),
    decreases s.len(),
{
    if s.len() > 0 && is_ws(s.last()) {
        lemma_trim_end_shape(s.drop_last());
        assert(s.drop_last().subrange(0, trim_end(s).len() as int) =~= s.subrange(
            0,
            trim_end(s).len() as int,
        ));
    } else {
        assert(s == s.subrange(0, s.len() as int));
    }
}

/// Whether two character vectors are equal.
pub fn chars_eq(a: &Vec<char>, b: &Vec<char>) -> (r: bool)
    ensures
        r == (a@ == b@),
{
    if a.len() != b.len() {
        return false;
    }
    let r = matches_at(a, b, 0);
    proof {
        assert(a@.subrange(0, b@.len() as int) =~= a@);
    }
    r
}

/// `==` on string slices.
pub fn str_eq(a: &str, b: &str) -> (r: bool)
    ensures
        r == (a@ == b@),
{
    chars_eq(&chars_of(a), &chars_of(b))
}

/// The concatenation of two strings.
pub fn concat2(a: &str, b: &str) -> (r: String)
    ensures
        r@ == a@ + b@,
{
    let mut r = String::from_str(a);
    r.append(b);
    r
}

/// The concatenation of three strings.
pub fn concat3(a: &str, b: &str, c: &str) -> (r: String)
    ensures
        r@ == a@ + b@ + c@,
{
    let mut r = String::from_str(a);
    r.append(b);
    r.append(c);
    r
}

} // verus!
