//! Character-level text utilities shared by the parsers. Text is handled
//! as sequences of `char`; every operation is specified over `Seq<char>`.

use vstd::prelude::*;

verus! {

/// `String::push`: the character is appended at the end of the string.
pub assume_specification[ String::push ](s: &mut String, ch: char)
    ensures
        final(s)@ == old(s)@.push(ch),
;

// ---------------------------------------------------------------------
// Character classes
// ---------------------------------------------------------------------

/// Unicode `White_Space`, the set that `char::is_whitespace` tests.
pub open spec fn is_ws(c: char) -> bool {
    ('\u{9}' <= c && c <= '\u{d}') || c == ' ' || c == '\u{85}' || c == '\u{a0}'
        || c == '\u{1680}' || ('\u{2000}' <= c && c <= '\u{200a}') || c == '\u{2028}'
        || c == '\u{2029}' || c == '\u{202f}' || c == '\u{205f}' || c == '\u{3000}'
}

pub open spec fn is_digit(c: char) -> bool {
    '0' <= c && c <= '9'
}

pub open spec fn lower_char(c: char) -> char {
    if 'A' <= c && c <= 'Z' {
        ((c as u32) + 32) as char
    } else {
        c
    }
}

pub open spec fn upper_char(c: char) -> char {
    if 'a' <= c && c <= 'z' {
        ((c as u32) - 32) as char
    } else {
        c
    }
}

/// `str::to_ascii_lowercase` on a character sequence.
pub open spec fn to_lower(s: Seq<char>) -> Seq<char> {
    Seq::new(s.len(), |i: int| lower_char(s[i]))
}

/// `str::to_ascii_uppercase` on a character sequence.
pub open spec fn to_upper(s: Seq<char>) -> Seq<char> {
    Seq::new(s.len(), |i: int| upper_char(s[i]))
}

// ---------------------------------------------------------------------
// Trimming
// ---------------------------------------------------------------------

/// The first index at or after `i` that holds no whitespace (or the length).
pub open spec fn first_non_ws(s: Seq<char>, i: int) -> int
    decreases s.len() - i,
{
    if i >= s.len() || !is_ws(s[i]) {
        i
    } else {
        first_non_ws(s, i + 1)
    }
}

/// Going down from `j`, the first end position above `lo` not preceded by
/// whitespace (or `lo`).
pub open spec fn end_non_ws(s: Seq<char>, lo: int, j: int) -> int
    decreases j - lo,
{
    if j <= lo || !is_ws(s[j - 1]) {
        j
    } else {
        end_non_ws(s, lo, j - 1)
    }
}

pub open spec fn trim_lo(s: Seq<char>) -> int {
    first_non_ws(s, 0)
}

pub open spec fn trim_hi(s: Seq<char>) -> int {
    end_non_ws(s, trim_lo(s), s.len() as int)
}

/// `str::trim`: leading and trailing whitespace removed.
pub open spec fn trim(s: Seq<char>) -> Seq<char> {
    s.subrange(trim_lo(s), trim_hi(s))
}

pub proof fn lemma_first_non_ws_bounds(s: Seq<char>, i: int)
    requires
        0 <= i <= s.len(),
    ensures
        i <= first_non_ws(s, i) <= s.len(),
        forall|k: int| i <= k < first_non_ws(s, i) ==> is_ws(#[trigger] s[k]),
        first_non_ws(s, i) < s.len() ==> !is_ws(s[first_non_ws(s, i)]),
    decreases s.len() - i,
{
    if i < s.len() && is_ws(s[i]) {
        lemma_first_non_ws_bounds(s, i + 1);
    }
}

pub proof fn lemma_end_non_ws_bounds(s: Seq<char>, lo: int, j: int)
    requires
        0 <= lo <= j <= s.len(),
    ensures
        lo <= end_non_ws(s, lo, j) <= j,
        forall|k: int| end_non_ws(s, lo, j) <= k < j ==> is_ws(#[trigger] s[k]),
        end_non_ws(s, lo, j) > lo ==> !is_ws(s[end_non_ws(s, lo, j) - 1]),
    decreases j - lo,
{
    if j > lo && is_ws(s[j - 1]) {
        lemma_end_non_ws_bounds(s, lo, j - 1);
    }
}

pub proof fn lemma_trim_bounds(s: Seq<char>)
    ensures
        0 <= trim_lo(s) <= trim_hi(s) <= s.len(),
        trim(s).len() == trim_hi(s) - trim_lo(s),
        trim(s).len() > 0 ==> !is_ws(trim(s)[0]) && !is_ws(trim(s)[trim(s).len() - 1]),
{
    lemma_first_non_ws_bounds(s, 0);
    lemma_end_non_ws_bounds(s, trim_lo(s), s.len() as int);
}

/// A sequence with no whitespace at either end is its own trim.
pub proof fn lemma_trim_unchanged(s: Seq<char>)
    requires
        s.len() > 0 ==> !is_ws(s[0]) && !is_ws(s[s.len() - 1]),
    ensures
        trim(s) == s,
{
    assert(trim_lo(s) == 0);
    assert(trim_hi(s) == s.len());
    assert(trim(s) =~= s);
}

/// Trimming twice is trimming once.
pub proof fn lemma_trim_idempotent(s: Seq<char>)
    ensures
        trim(trim(s)) == trim(s),
{
    lemma_trim_bounds(s);
    lemma_trim_unchanged(trim(s));
}

// ---------------------------------------------------------------------
// Searching
// ---------------------------------------------------------------------

/// `t` occurs in `s` starting at index `i`.
pub open spec fn occurs_at(s: Seq<char>, t: Seq<char>, i: int) -> bool {
    0 <= i && i + t.len() <= s.len() && s.subrange(i, i + t.len()) == t
}

/// `t` occurs somewhere in `s`.
pub open spec fn contains(s: Seq<char>, t: Seq<char>) -> bool {
    exists|i: int| occurs_at(s, t, i)
}

/// The first index at or after `i` where `t` occurs in `s`.
pub open spec fn find_from(s: Seq<char>, t: Seq<char>, i: int) -> Option<int>
    decreases s.len() + 1 - i,
{
    if i < 0 || i + t.len() > s.len() {
        None
    } else if occurs_at(s, t, i) {
        Some(i)
    } else {
        find_from(s, t, i + 1)
    }
}

/// `str::find`: the first index where `t` occurs in `s`.
pub open spec fn find(s: Seq<char>, t: Seq<char>) -> Option<int> {
    find_from(s, t, 0)
}

pub proof fn lemma_find_from(s: Seq<char>, t: Seq<char>, i: int)
    requires
        0 <= i,
    ensures
        find_from(s, t, i) matches Some(k) ==> i <= k && occurs_at(s, t, k) && forall|m: int|
            i <= m < k ==> !occurs_at(s, t, m),
        find_from(s, t, i) is None ==> forall|m: int| i <= m ==> !occurs_at(s, t, m),
    decreases s.len() + 1 - i,
{
    if i + t.len() <= s.len() && !occurs_at(s, t, i) {
        lemma_find_from(s, t, i + 1);
    }
}

pub proof fn lemma_find(s: Seq<char>, t: Seq<char>)
    ensures
        find(s, t) matches Some(k) ==> 0 <= k && occurs_at(s, t, k) && forall|m: int|
            0 <= m < k ==> !occurs_at(s, t, m),
        find(s, t) is None <==> !contains(s, t),
{
    lemma_find_from(s, t, 0);
}

// ---------------------------------------------------------------------
// Whitespace-separated words
// ---------------------------------------------------------------------

/// The end of the run of non-whitespace characters that starts at `i`.
pub open spec fn word_end(s: Seq<char>, i: int) -> int
    decreases s.len() - i,
{
    if i >= s.len() || is_ws(s[i]) {
        i
    } else {
        word_end(s, i + 1)
    }
}

pub proof fn lemma_word_end_bounds(s: Seq<char>, i: int)
    requires
        0 <= i <= s.len(),
    ensures
        i <= word_end(s, i) <= s.len(),
        forall|k: int| i <= k < word_end(s, i) ==> !is_ws(#[trigger] s[k]),
        word_end(s, i) < s.len() ==> is_ws(s[word_end(s, i)]),
    decreases s.len() - i,
{
    if i < s.len() && !is_ws(s[i]) {
        lemma_word_end_bounds(s, i + 1);
    }
}

/// The whitespace-separated words of `s` from index `i` on.
pub open spec fn words_from(s: Seq<char>, i: int) -> Seq<Seq<char>>
    decreases s.len() - i,
{
    if i < 0 || i >= s.len() {
        Seq::empty()
    } else if is_ws(s[i]) {
        words_from(s, i + 1)
    } else {
        let e = word_end(s, i);
        proof {
            lemma_word_end_bounds(s, i + 1);
        }
        seq![s.subrange(i, e)] + words_from(s, e)
    }
}

/// `str::split_whitespace`: the maximal runs of non-whitespace characters.
pub open spec fn words(s: Seq<char>) -> Seq<Seq<char>> {
    words_from(s, 0)
}

/// The words joined by single spaces.
pub open spec fn join_spaces(ws: Seq<Seq<char>>) -> Seq<char>
    decreases ws.len(),
{
    if ws.len() == 0 {
        Seq::empty()
    } else if ws.len() == 1 {
        ws[0]
    } else {
        join_spaces(ws.drop_last()) + seq![' '] + ws.last()
    }
}

// ---------------------------------------------------------------------
// Executable operations
// ---------------------------------------------------------------------

/// The characters of `s`, in order.
pub fn chars_of(s: &str) -> (res: Vec<char>)
    ensures
        res@ == s@,
{
    let mut res: Vec<char> = Vec::new();
    for c in it: s.chars()
        invariant
            res@ == it.seq().take(it.index() as int),
            it.seq() == s@,
    {
        res.push(c);
    }
    res
}

/// A `String` holding exactly the given characters.
pub fn string_of(cs: &[char]) -> (res: String)
    ensures
        res@ == cs@,
{
    let mut res = String::new();
    let mut i: usize = 0;
    while i < cs.len()
        invariant
            i <= cs@.len(),
            res@ == cs@.take(i as int),
        decreases cs@.len() - i,
    {
        res.push(cs[i]);
        i = i + 1;
        assert(cs@.take(i as int) =~= cs@.take((i - 1) as int).push(cs@[i - 1]));
    }
    assert(cs@.take(i as int) =~= cs@);
    res
}

/// `char::is_whitespace`.
pub fn is_whitespace(c: char) -> (b: bool)
    ensures
        b == is_ws(c),
{
    ('\u{9}' <= c && c <= '\u{d}') || c == ' ' || c == '\u{85}' || c == '\u{a0}' || c
        == '\u{1680}' || ('\u{2000}' <= c && c <= '\u{200a}') || c == '\u{2028}' || c
        == '\u{2029}' || c == '\u{202f}' || c == '\u{205f}' || c == '\u{3000}'
}

/// `char::is_ascii_digit`.
pub fn is_ascii_digit(c: char) -> (b: bool)
    ensures
        b == is_digit(c),
{
    '0' <= c && c <= '9'
}

/// `char::to_ascii_lowercase`.
pub fn lower(c: char) -> (r: char)
    ensures
        r == lower_char(c),
{
    if 'A' <= c && c <= 'Z' {
        ((c as u8) + 32) as char
    } else {
        c
    }
}

/// `char::to_ascii_uppercase`.
pub fn upper(c: char) -> (r: char)
    ensures
        r == upper_char(c),
{
    if 'a' <= c && c <= 'z' {
        ((c as u8) - 32) as char
    } else {
        c
    }
}

/// The characters `cs[from..to]`.
pub fn slice_chars(cs: &[char], from: usize, to: usize) -> (res: Vec<char>)
    requires
        from <= to <= cs@.len(),
    ensures
        res@ == cs@.subrange(from as int, to as int),
{
    let mut res: Vec<char> = Vec::new();
    let mut i = from;
    while i < to
        invariant
            from <= i <= to <= cs@.len(),
            res@ == cs@.subrange(from as int, i as int),
        decreases to - i,
    {
        res.push(cs[i]);
        i = i + 1;
        assert(res@ =~= cs@.subrange(from as int, i as int));
    }
    res
}

/// `str::to_ascii_lowercase`.
pub fn ascii_lowercase(cs: &[char]) -> (res: Vec<char>)
    ensures
        res@ == to_lower(cs@),
{
    let mut res: Vec<char> = Vec::new();
    let mut i: usize = 0;
    while i < cs.len()
        invariant
            i <= cs@.len(),
            res@ =~= to_lower(cs@.take(i as int)),
        decreases cs@.len() - i,
    {
        res.push(lower(cs[i]));
        i = i + 1;
        assert(res@ =~= to_lower(cs@.take(i as int)));
    }
    assert(cs@.take(i as int) =~= cs@);
    res
}

/// `str::to_ascii_uppercase`.
pub fn ascii_uppercase(cs: &[char]) -> (res: Vec<char>)
    ensures
        res@ == to_upper(cs@),
{
    let mut res: Vec<char> = Vec::new();
    let mut i: usize = 0;
    while i < cs.len()
        invariant
            i <= cs@.len(),
            res@ =~= to_upper(cs@.take(i as int)),
        decreases cs@.len() - i,
    {
        res.push(upper(cs[i]));
        i = i + 1;
        assert(res@ =~= to_upper(cs@.take(i as int)));
    }
    assert(cs@.take(i as int) =~= cs@);
    res
}

/// `str::trim`.
pub fn trimmed(cs: &[char]) -> (res: Vec<char>)
    ensures
        res@ == trim(cs@),
{
    let ghost s = cs@;
    let n = cs.len();
    let mut a: usize = 0;
    while a < n && is_whitespace(cs[a])
        invariant
            a <= n == s.len(),
            s == cs@,
            first_non_ws(s, 0) == first_non_ws(s, a as int),
        decreases n - a,
    {
        a = a + 1;
    }
    let mut b: usize = n;
    while b > a && is_whitespace(cs[b - 1])
        invariant
            a <= b <= n == s.len(),
            s == cs@,
            first_non_ws(s, 0) == a,
            end_non_ws(s, a as int, n as int) == end_non_ws(s, a as int, b as int),
        decreases b - a,
    {
        b = b - 1;
    }
    slice_chars(cs, a, b)
}

/// Whether `pat` occurs in `cs` at index `i`.
pub fn occurs_at_exec(cs: &[char], pat: &[char], i: usize) -> (b: bool)
    ensures
        b == occurs_at(cs@, pat@, i as int),
{
    if i > cs.len() || pat.len() > cs.len() - i {
        return false;
    }
    let mut k: usize = 0;
    while k < pat.len()
        invariant
            k <= pat@.len(),
            i + pat.len() <= cs.len(),
            forall|m: int| 0 <= m < k ==> cs@[i + m] == pat@[m],
        decreases pat@.len() - k,
    {
        if cs[i + k] != pat[k] {
            assert(cs@.subrange(i as int, i + pat@.len())[k as int] != pat@[k as int]);
            return false;
        }
        k = k + 1;
    }
    assert(cs@.subrange(i as int, i + pat@.len()) =~= pat@);
    true
}

/// `str::find` with a string pattern.
pub fn find_exec(cs: &[char], pat: &[char]) -> (res: Option<usize>)
    ensures
        res matches Some(k) ==> find(cs@, pat@) == Some(k as int),
        res is None ==> find(cs@, pat@) is None,
{
    let mut i: usize = 0;
    while i <= cs.len()
        invariant
            i <= cs@.len() + 1,
            find(cs@, pat@) == find_from(cs@, pat@, i as int),
        decreases cs@.len() + 1 - i,
    {
        if occurs_at_exec(cs, pat, i) {
            return Some(i);
        }
        if pat.len() > cs.len() - i {
            return None;
        }
        if i == cs.len() {
            proof {
                if pat@.len() == 0 {
                    assert(cs@.subrange(i as int, i as int) =~= pat@);
                }
            }
            return None;
        }
        i = i + 1;
    }
    None
}

/// `str::contains` with a string pattern.
pub fn contains_exec(cs: &[char], pat: &[char]) -> (b: bool)
    ensures
        b == contains(cs@, pat@),
{
    proof {
        lemma_find(cs@, pat@);
    }
    find_exec(cs, pat).is_some()
}

/// Equality of two character sequences.
pub fn chars_eq(a: &[char], b: &[char]) -> (r: bool)
    ensures
        r == (a@ == b@),
{
    if a.len() != b.len() {
        return false;
    }
    let mut i: usize = 0;
    while i < a.len()
        invariant
            i <= a@.len() == b@.len(),
            forall|m: int| 0 <= m < i ==> a@[m] == b@[m],
        decreases a@.len() - i,
    {
        if a[i] != b[i] {
            return false;
        }
        i = i + 1;
    }
    assert(a@ =~= b@);
    true
}

/// Whether the characters of `a` spell the literal `lit`.
pub fn chars_eq_str(a: &[char], lit: &str) -> (r: bool)
    ensures
        r == (a@ == lit@),
{
    let l = chars_of(lit);
    chars_eq(a, l.as_slice())
}

/// `str::split_whitespace`, collected.
pub fn split_words(cs: &[char]) -> (res: Vec<Vec<char>>)
    ensures
        res@.len() == words(cs@).len(),
        forall|k: int| 0 <= k < res@.len() ==> #[trigger] res@[k]@ == words(cs@)[k],
{
    let ghost s = cs@;
    let n = cs.len();
    let mut res: Vec<Vec<char>> = Vec::new();
    let ghost mut done: Seq<Seq<char>> = Seq::empty();
    let mut i: usize = 0;
    while i < n
        invariant
            i <= n == s.len(),
            s == cs@,
            words(s) == done + words_from(s, i as int),
            res@.len() == done.len(),
            forall|k: int| 0 <= k < res@.len() ==> #[trigger] res@[k]@ == done[k],
        decreases n - i,
    {
        if is_whitespace(cs[i]) {
            i = i + 1;
        } else {
            let mut j = i + 1;
            while j < n && !is_whitespace(cs[j])
                invariant
                    i < j <= n == s.len(),
                    s == cs@,
                    word_end(s, i as int) == word_end(s, j as int),
                decreases n - j,
            {
                j = j + 1;
            }
            let w = slice_chars(cs, i, j);
            proof {
                assert(words_from(s, i as int) == seq![s.subrange(i as int, j as int)]
                    + words_from(s, j as int));
                done = done.push(w@);
                assert(words(s) =~= done + words_from(s, j as int));
            }
            res.push(w);
            i = j;
        }
    }
    assert(done + words_from(s, i as int) =~= done);
    res
}

/// The words joined by single spaces (`[&str]::join(" ")`).
pub fn join_words(ws: &[Vec<char>], from: usize) -> (res: Vec<char>)
    requires
        from <= ws@.len(),
    ensures
        res@ == join_spaces(ws@.subrange(from as int, ws@.len() as int).map_values(
            |w: Vec<char>| w@,
        )),
{
    let ghost views = ws@.map_values(|w: Vec<char>| w@);
    let mut res: Vec<char> = Vec::new();
    let mut i = from;
    while i < ws.len()
        invariant
            from <= i <= ws@.len(),
            views == ws@.map_values(|w: Vec<char>| w@),
            res@ == join_spaces(views.subrange(from as int, i as int)),
        decreases ws@.len() - i,
    {
        let ghost prev = views.subrange(from as int, i as int);
        if i > from {
            res.push(' ');
        }
        let w = &ws[i];
        let mut k: usize = 0;
        let ghost base = res@;
        while k < w.len()
            invariant
                k <= w@.len(),
                res@ == base + w@.take(k as int),
            decreases w@.len() - k,
        {
            res.push(w[k]);
            k = k + 1;
            assert(base + w@.take(k as int) =~= (base + w@.take((k - 1) as int)).push(
                w@[k - 1],
            ));
        }
        i = i + 1;
        proof {
            let cur = views.subrange(from as int, i as int);
            assert(cur.drop_last() =~= prev);
            assert(w@.take(w@.len() as int) =~= w@);
            if prev.len() == 0 {
                assert(cur.len() == 1);
                assert(res@ =~= join_spaces(cur));
            } else {
                assert(res@ =~= join_spaces(cur));
            }
        }
    }
    assert(views.subrange(from as int, ws@.len() as int) =~= ws@.subrange(
        from as int,
        ws@.len() as int,
    ).map_values(|w: Vec<char>| w@));
    res
}


/// Appends the characters of `s` to `v`.
pub fn push_str(v: &mut Vec<char>, s: &str)
    ensures
        final(v)@ == old(v)@ + s@,
{
    let cs = chars_of(s);
    push_chars(v, cs.as_slice());
}

/// Appends the characters of `cs` to `v`.
pub fn push_chars(v: &mut Vec<char>, cs: &[char])
    ensures
        final(v)@ == old(v)@ + cs@,
{
    let ghost start = v@;
    let mut i: usize = 0;
    while i < cs.len()
        invariant
            i <= cs@.len(),
            v@ == start + cs@.take(i as int),
        decreases cs@.len() - i,
    {
        v.push(cs[i]);
        i = i + 1;
        assert(start + cs@.take(i as int) =~= (start + cs@.take((i - 1) as int)).push(cs@[i - 1]));
    }
    assert(cs@.take(i as int) =~= cs@);
}

} // verus!
