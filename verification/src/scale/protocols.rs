//! Weight-line parsers for the supported scale protocols.
//!
//! A parsed weight keeps its number as the decimal literal found in the
//! line (`+00001.250`, `0.525`, `-.5`, ...): a sign, digits and at most one
//! decimal point, with at least one digit. Turning it into a float is left
//! to the caller.

use vstd::prelude::*;
use crate::text::{
    ascii_lowercase, ascii_uppercase, chars_eq, chars_of, contains, contains_exec, find,
    find_exec, is_ascii_digit, is_digit, join_spaces, join_words,
    occurs_at, occurs_at_exec, slice_chars, split_words, string_of, to_lower, to_upper, trim,
    trimmed, words, lemma_find, chars_eq_str, lemma_trim_unchanged,
};

verus! {

// ---------------------------------------------------------------------
// Decimal extraction
// ---------------------------------------------------------------------

/// A character that can open a number: a digit or a sign.
pub open spec fn starts_number(c: char) -> bool {
    is_digit(c) || c == '+' || c == '-'
}

/// A character that can continue a number: a digit or a decimal separator.
pub open spec fn continues_number(c: char) -> bool {
    is_digit(c) || c == '.' || c == ','
}

/// The first index at or after `i` holding a digit or a sign (or the length).
pub open spec fn number_start_from(s: Seq<char>, i: int) -> int
    decreases s.len() - i,
{
    if i >= s.len() || starts_number(s[i]) {
        i
    } else {
        number_start_from(s, i + 1)
    }
}

/// The first index at or after `i` holding no digit and no separator.
pub open spec fn number_end_from(s: Seq<char>, i: int) -> int
    decreases s.len() - i,
{
    if i >= s.len() || !continues_number(s[i]) {
        i
    } else {
        number_end_from(s, i + 1)
    }
}

/// A comma is read as a decimal point.
pub open spec fn dot_for_comma(c: char) -> char {
    if c == ',' {
        '.'
    } else {
        c
    }
}

pub open spec fn dots_for_commas(s: Seq<char>) -> Seq<char> {
    Seq::new(s.len(), |i: int| dot_for_comma(s[i]))
}

/// The first number-like token of `s`: the first digit or sign, followed by
/// the digits and separators right after it, commas read as points.
pub open spec fn number_token(s: Seq<char>) -> Seq<char> {
    let k = number_start_from(s, 0);
    if k >= s.len() {
        Seq::empty()
    } else {
        dots_for_commas(s.subrange(k, number_end_from(s, k + 1)))
    }
}

/// `t` without its leading sign, if it has one.
pub open spec fn unsigned_part(t: Seq<char>) -> Seq<char> {
    if t.len() > 0 && (t[0] == '+' || t[0] == '-') {
        t.drop_first()
    } else {
        t
    }
}

/// A decimal literal that `f64::from_str` accepts and that has no exponent:
/// an optional sign, then digits with at most one decimal point, and at
/// least one digit.
pub open spec fn is_decimal_literal(t: Seq<char>) -> bool {
    let b = unsigned_part(t);
    &&& forall|i: int| 0 <= i < b.len() ==> is_digit(#[trigger] b[i]) || b[i] == '.'
    &&& forall|i: int, j: int| #![trigger b[i], b[j]] 0 <= i < j < b.len() && b[i] == '.' ==> b[j] != '.'
    &&& exists|i: int| 0 <= i < b.len() && is_digit(#[trigger] b[i])
}

/// The decimal read from `s`: its first number-like token, provided that
/// token is a decimal literal.
pub open spec fn decimal_in(s: Seq<char>) -> Option<Seq<char>> {
    let t = number_token(s);
    if t.len() > 0 && is_decimal_literal(t) {
        Some(t)
    } else {
        None
    }
}

proof fn lemma_number_start_bounds(s: Seq<char>, i: int)
    requires
        0 <= i <= s.len(),
    ensures
        i <= number_start_from(s, i) <= s.len(),
        number_start_from(s, i) < s.len() ==> starts_number(s[number_start_from(s, i)]),
        forall|k: int| i <= k < number_start_from(s, i) ==> !starts_number(#[trigger] s[k]),
    decreases s.len() - i,
{
    if i < s.len() && !starts_number(s[i]) {
        lemma_number_start_bounds(s, i + 1);
    }
}

proof fn lemma_number_end_bounds(s: Seq<char>, i: int)
    requires
        0 <= i <= s.len(),
    ensures
        i <= number_end_from(s, i) <= s.len(),
        forall|k: int| i <= k < number_end_from(s, i) ==> continues_number(#[trigger] s[k]),
    decreases s.len() - i,
{
    if i < s.len() && continues_number(s[i]) {
        lemma_number_end_bounds(s, i + 1);
    }
}

/// Whether `t` is a decimal literal (see `is_decimal_literal`), for a token
/// made of one leading sign or digit and then digits and points.
fn decimal_literal_exec(t: &[char]) -> (b: bool)
    requires
        t@.len() > 0,
        forall|i: int| 1 <= i < t@.len() ==> is_digit(#[trigger] t@[i]) || t@[i] == '.',
        starts_number(t@[0]),
    ensures
        b == is_decimal_literal(t@),
{
    let ghost body = unsigned_part(t@);
    let start: usize = if t[0] == '+' || t[0] == '-' {
        1
    } else {
        0
    };
    assert(body =~= t@.subrange(start as int, t@.len() as int));
    let mut dots: usize = 0;
    let ghost mut dot_at: int = 0;
    let mut digits = false;
    let mut i = start;
    while i < t.len()
        invariant
            start <= i <= t@.len(),
            body == t@.subrange(start as int, t@.len() as int),
            body == unsigned_part(t@),
            forall|k: int| 0 <= k < body.len() ==> is_digit(#[trigger] body[k]) || body[k] == '.',
            dots <= 1,
            dots == 1 ==> 0 <= dot_at < i - start && body[dot_at] == '.',
            forall|k: int| 0 <= k < i - start && (dots == 0 || k != dot_at) ==> #[trigger] body[k] != '.',
            digits <==> exists|k: int| 0 <= k < i - start && is_digit(#[trigger] body[k]),
        decreases t@.len() - i,
    {
        if t[i] == '.' {
            if dots == 1 {
                proof {
                    let c = (i - start) as int;
                    assert(body[dot_at] == '.' && body[c] == '.' && dot_at < c);
                    assert(!is_decimal_literal(t@));
                }
                return false;
            }
            dots = 1;
            proof {
                dot_at = (i - start) as int;
            }
        } else {
            assert(is_digit(body[(i - start) as int]));
            digits = true;
        }
        i = i + 1;
    }
    digits
}

/// Reads the decimal of `line`: its first number-like token, if that token
/// is a decimal literal.
pub fn extract_decimal(line: &[char]) -> (res: Option<Vec<char>>)
    ensures
        res matches Some(t) ==> decimal_in(line@) == Some(t@),
        res is None ==> decimal_in(line@) is None,
{
    let ghost s = line@;
    let mut token: Vec<char> = Vec::new();
    let mut started = false;
    let ghost mut k: int = 0;
    let mut i: usize = 0;
    while i < line.len()
        invariant_except_break
            i <= s.len(),
            s == line@,
            !started ==> token@.len() == 0 && number_start_from(s, 0) == number_start_from(
                s,
                i as int,
            ),
            started ==> {
                &&& 0 <= k < i
                &&& k == number_start_from(s, 0)
                &&& token@ == dots_for_commas(s.subrange(k, i as int))
                &&& number_end_from(s, k + 1) == number_end_from(s, i as int)
            },
        ensures
            i <= s.len(),
            s == line@,
            !started ==> token@.len() == 0 && number_start_from(s, 0) >= s.len(),
            started ==> {
                &&& 0 <= k < i
                &&& k == number_start_from(s, 0)
                &&& token@ == dots_for_commas(s.subrange(k, i as int))
                &&& number_end_from(s, k + 1) == i
            },
        decreases s.len() - i,
    {
        let ch = line[i];
        if is_ascii_digit(ch) || ((ch == '.' || ch == ',') && started) {
            proof {
                if !started {
                    k = i as int;
                }
            }
            token.push(if ch == ',' {
                '.'
            } else {
                ch
            });
            started = true;
        } else if ch == '+' || ch == '-' {
            if token.len() > 0 {
                break;
            }
            proof {
                k = i as int;
            }
            token.push(ch);
            started = true;
        } else if started {
            break;
        }
        i = i + 1;
        assert(started ==> token@ =~= dots_for_commas(s.subrange(k, i as int)));
    }
    if !started {
        return None;
    }
    proof {
        lemma_number_start_bounds(s, 0);
        lemma_number_end_bounds(s, k + 1);
        assert(number_token(s) == token@);
        assert forall|m: int| 1 <= m < token@.len() implies is_digit(#[trigger] token@[m])
            || token@[m] == '.' by {
            assert(continues_number(s[k + m]));
        }
    }
    if decimal_literal_exec(token.as_slice()) {
        Some(token)
    } else {
        None
    }
}


// ---------------------------------------------------------------------
// Units and the generic parser
// ---------------------------------------------------------------------

/// The unit a weight is given in.
#[derive(Debug, Clone, Copy, PartialEq, Eq, Structural)]
pub enum WeightUnit {
    Kg,
    G,
    Lb,
    Unknown,
}

/// A weight read from a scale line: its decimal literal and its unit.
#[derive(Debug)]
pub struct ParsedWeight {
    pub value: String,
    pub unit: WeightUnit,
}

impl Clone for ParsedWeight {
    fn clone(&self) -> (res: Self)
        ensures
            res == *self,
    {
        ParsedWeight { value: self.value.clone(), unit: self.unit }
    }
}

/// The unit named in an ASCII-lowercased line: `kg` wins over `g`, which
/// wins over `lb`.
pub open spec fn unit_in(lower: Seq<char>) -> WeightUnit {
    if contains(lower, seq!['k', 'g']) {
        WeightUnit::Kg
    } else if contains(lower, seq!['g']) {
        WeightUnit::G
    } else if contains(lower, seq!['l', 'b']) {
        WeightUnit::Lb
    } else {
        WeightUnit::Unknown
    }
}

/// The result of a parser over plain values.
pub open spec fn weight_view(r: Option<(Vec<char>, WeightUnit)>) -> Option<(Seq<char>, WeightUnit)> {
    match r {
        Some((v, u)) => Some((v@, u)),
        None => None,
    }
}

/// The first result if there is one, else the second.
pub open spec fn or_else(
    a: Option<(Seq<char>, WeightUnit)>,
    b: Option<(Seq<char>, WeightUnit)>,
) -> Option<(Seq<char>, WeightUnit)> {
    if a is Some {
        a
    } else {
        b
    }
}

/// Generic parser: the first decimal of the line, with the unit the line names.
pub open spec fn generic_weight(l: Seq<char>) -> Option<(Seq<char>, WeightUnit)> {
    match decimal_in(l) {
        Some(t) => Some((t, unit_in(to_lower(l)))),
        None => None,
    }
}

fn detect_unit(lower: &[char]) -> (u: WeightUnit)
    ensures
        u == unit_in(lower@),
{
    let kg = vec!['k', 'g'];
    let g = vec!['g'];
    let lb = vec!['l', 'b'];
    assert(kg@ =~= seq!['k', 'g'] && g@ =~= seq!['g'] && lb@ =~= seq!['l', 'b']);
    if contains_exec(lower, kg.as_slice()) {
        WeightUnit::Kg
    } else if contains_exec(lower, g.as_slice()) && !contains_exec(lower, kg.as_slice()) {
        WeightUnit::G
    } else if contains_exec(lower, lb.as_slice()) {
        WeightUnit::Lb
    } else {
        WeightUnit::Unknown
    }
}

fn parse_generic(line: &[char]) -> (res: Option<(Vec<char>, WeightUnit)>)
    ensures
        weight_view(res) == generic_weight(line@),
{
    let lower = ascii_lowercase(line);
    let unit = detect_unit(lower.as_slice());
    match extract_decimal(line) {
        Some(number) => Some((number, unit)),
        None => None,
    }
}

// ---------------------------------------------------------------------
// Vendor parsers
// ---------------------------------------------------------------------

/// The number of bytes `c` takes in UTF-8 (`char::len_utf8`).
pub open spec fn char_utf8_len(c: char) -> nat {
    if (c as u32) < 0x80 {
        1
    } else if (c as u32) < 0x800 {
        2
    } else if (c as u32) < 0x10000 {
        3
    } else {
        4
    }
}

/// The length in bytes of the UTF-8 encoding of `s` (`str::len`).
pub open spec fn utf8_len(s: Seq<char>) -> nat
    decreases s.len(),
{
    if s.len() == 0 {
        0
    } else {
        utf8_len(s.drop_last()) + char_utf8_len(s.last())
    }
}

proof fn lemma_utf8_len_monotone(s: Seq<char>, i: int)
    requires
        0 <= i <= s.len(),
    ensures
        utf8_len(s.take(i)) <= utf8_len(s),
    decreases s.len() - i,
{
    if i < s.len() {
        lemma_utf8_len_monotone(s, i + 1);
        assert(s.take(i + 1).drop_last() =~= s.take(i));
    } else {
        assert(s.take(i) =~= s);
    }
}

/// Whether `cs` takes fewer than `limit` bytes in UTF-8.
fn utf8_len_below(cs: &[char], limit: usize) -> (b: bool)
    requires
        0 < limit < 1000,
    ensures
        b == (utf8_len(cs@) < limit),
{
    let mut acc: usize = 0;
    let mut i: usize = 0;
    while i < cs.len()
        invariant
            i <= cs@.len(),
            acc == utf8_len(cs@.take(i as int)),
            acc < limit < 1000,
        decreases cs@.len() - i,
    {
        let c = cs[i];
        let w: usize = if (c as u32) < 0x80 {
            1
        } else if (c as u32) < 0x800 {
            2
        } else if (c as u32) < 0x10000 {
            3
        } else {
            4
        };
        assert(cs@.take(i + 1).drop_last() =~= cs@.take(i as int));
        acc = acc + w;
        i = i + 1;
        if acc >= limit {
            proof {
                lemma_utf8_len_monotone(cs@, i as int);
            }
            return false;
        }
    }
    assert(cs@.take(i as int) =~= cs@);
    true
}

/// Fixed-width lines such as `+00000.525kg`: at least five bytes once
/// trimmed, then read as by the generic parser.
pub open spec fn rahul_weight(l: Seq<char>) -> Option<(Seq<char>, WeightUnit)> {
    let t = trim(l);
    if utf8_len(t) < 5 {
        None
    } else {
        generic_weight(t)
    }
}

fn parse_rahul(line: &[char]) -> (res: Option<(Vec<char>, WeightUnit)>)
    ensures
        weight_view(res) == rahul_weight(line@),
{
    let t = trimmed(line);
    if utf8_len_below(t.as_slice(), 5) {
        return None;
    }
    parse_generic(t.as_slice())
}

/// The first index at or after `i` holding `=` or `:` (or the length).
pub open spec fn separator_from(s: Seq<char>, i: int) -> int
    decreases s.len() - i,
{
    if i >= s.len() || s[i] == '=' || s[i] == ':' {
        i
    } else {
        separator_from(s, i + 1)
    }
}

/// What follows the first `=` or `:` of `l`, trimmed.
pub open spec fn after_separator(l: Seq<char>) -> Option<Seq<char>> {
    let i = separator_from(l, 0);
    if i >= l.len() {
        None
    } else {
        Some(trim(l.subrange(i + 1, l.len() as int)))
    }
}

proof fn lemma_separator_bounds(s: Seq<char>, i: int)
    requires
        0 <= i <= s.len(),
    ensures
        i <= separator_from(s, i) <= s.len(),
    decreases s.len() - i,
{
    if i < s.len() && s[i] != '=' && s[i] != ':' {
        lemma_separator_bounds(s, i + 1);
    }
}

fn after_separator_exec(line: &[char]) -> (res: Option<Vec<char>>)
    ensures
        res matches Some(r) ==> after_separator(line@) == Some(r@),
        res is None ==> after_separator(line@) is None,
{
    let mut i: usize = 0;
    while i < line.len() && line[i] != '=' && line[i] != ':'
        invariant
            i <= line@.len(),
            separator_from(line@, 0) == separator_from(line@, i as int),
        decreases line@.len() - i,
    {
        i = i + 1;
    }
    if i >= line.len() {
        return None;
    }
    let rest = slice_chars(line, i + 1, line.len());
    Some(trimmed(rest.as_slice()))
}

/// Excell continuous stream: fixed-width first, then the value after
/// `=`/`:` (`W=0.525`, `WT:0.525`), then the generic reading.
pub open spec fn excell_weight(l: Seq<char>) -> Option<(Seq<char>, WeightUnit)> {
    if rahul_weight(l) is Some {
        rahul_weight(l)
    } else if after_separator(l) is Some && generic_weight(after_separator(l)->0) is Some {
        generic_weight(after_separator(l)->0)
    } else {
        generic_weight(l)
    }
}

fn parse_excell(line: &[char]) -> (res: Option<(Vec<char>, WeightUnit)>)
    ensures
        weight_view(res) == excell_weight(line@),
{
    let fixed = parse_rahul(line);
    if fixed.is_some() {
        return fixed;
    }
    if let Some(rest) = after_separator_exec(line) {
        let parsed = parse_generic(rest.as_slice());
        if parsed.is_some() {
            return parsed;
        }
    }
    parse_generic(line)
}

/// `s` starts with `p`.
pub open spec fn has_prefix(s: Seq<char>, p: Seq<char>) -> bool {
    occurs_at(s, p, 0)
}

/// CAS: an uppercased `WGT:` or `WT` prefix is dropped before reading.
pub open spec fn cas_weight(l: Seq<char>) -> Option<(Seq<char>, WeightUnit)> {
    let u = to_upper(l);
    if has_prefix(u, seq!['W', 'G', 'T', ':']) {
        generic_weight(trim(u.subrange(4, u.len() as int)))
    } else if has_prefix(u, seq!['W', 'T']) {
        generic_weight(trim(u.subrange(2, u.len() as int)))
    } else {
        generic_weight(l)
    }
}

fn parse_cas(line: &[char]) -> (res: Option<(Vec<char>, WeightUnit)>)
    ensures
        weight_view(res) == cas_weight(line@),
{
    let upper = ascii_uppercase(line);
    let wgt = vec!['W', 'G', 'T', ':'];
    let wt = vec!['W', 'T'];
    assert(wgt@ =~= seq!['W', 'G', 'T', ':'] && wt@ =~= seq!['W', 'T']);
    if occurs_at_exec(upper.as_slice(), wgt.as_slice(), 0) {
        let rest = slice_chars(upper.as_slice(), 4, upper.len());
        let rest = trimmed(rest.as_slice());
        return parse_generic(rest.as_slice());
    }
    if occurs_at_exec(upper.as_slice(), wt.as_slice(), 0) {
        let rest = slice_chars(upper.as_slice(), 2, upper.len());
        let rest = trimmed(rest.as_slice());
        return parse_generic(rest.as_slice());
    }
    parse_generic(line)
}

/// The last index below `j` holding `c`, or -1.
pub open spec fn last_index_before(s: Seq<char>, c: char, j: int) -> int
    decreases j,
{
    if j <= 0 {
        -1
    } else if s[j - 1] == c {
        j - 1
    } else {
        last_index_before(s, c, j - 1)
    }
}

proof fn lemma_last_index_bounds(s: Seq<char>, c: char, j: int)
    requires
        0 <= j <= s.len(),
    ensures
        -1 <= last_index_before(s, c, j) < j,
    decreases j,
{
    if j > 0 && s[j - 1] != c {
        lemma_last_index_bounds(s, c, j - 1);
    }
}

/// `l` without what follows its last space, trimmed; `l` if it has no space.
pub open spec fn before_last_space(l: Seq<char>) -> Seq<char> {
    let i = last_index_before(l, ' ', l.len() as int);
    if i < 0 {
        l
    } else {
        trim(l.subrange(0, i))
    }
}

/// A unit word, compared ignoring ASCII case.
pub open spec fn is_unit_word(w: Seq<char>) -> bool {
    to_lower(w) == seq!['k', 'g'] || to_lower(w) == seq!['g'] || to_lower(w) == seq!['l', 'b']
}

/// The decimal of a reading (empty when there is none).
pub open spec fn decimal_of(w: Option<(Seq<char>, WeightUnit)>) -> Seq<char> {
    match w {
        Some((v, _)) => v,
        None => Seq::empty(),
    }
}

/// Toledo continuous (`S S     0.525 kg`): when the last word is a unit,
/// the number is read from the text before the last space and the unit from
/// that last word.
pub open spec fn toledo_weight(l: Seq<char>) -> Option<(Seq<char>, WeightUnit)> {
    let ws = words(l);
    if ws.len() > 0 && is_unit_word(ws.last()) && generic_weight(before_last_space(l)) is Some {
        Some((decimal_of(generic_weight(before_last_space(l))), unit_in(to_lower(ws.last()))))
    } else {
        generic_weight(l)
    }
}

fn is_unit_word_exec(w: &[char]) -> (b: bool)
    ensures
        b == is_unit_word(w@),
{
    let lower = ascii_lowercase(w);
    let kg = vec!['k', 'g'];
    let g = vec!['g'];
    let lb = vec!['l', 'b'];
    assert(kg@ =~= seq!['k', 'g'] && g@ =~= seq!['g'] && lb@ =~= seq!['l', 'b']);
    chars_eq(lower.as_slice(), kg.as_slice()) || chars_eq(lower.as_slice(), g.as_slice())
        || chars_eq(lower.as_slice(), lb.as_slice())
}

fn before_last_space_exec(line: &[char]) -> (res: Vec<char>)
    ensures
        res@ == before_last_space(line@),
{
    let mut j: usize = line.len();
    while j > 0 && line[j - 1] != ' '
        invariant
            j <= line@.len(),
            last_index_before(line@, ' ', line@.len() as int) == last_index_before(
                line@,
                ' ',
                j as int,
            ),
        decreases j,
    {
        j = j - 1;
    }
    if j == 0 {
        return slice_chars(line, 0, line.len());
    }
    let lhs = slice_chars(line, 0, j - 1);
    trimmed(lhs.as_slice())
}

fn parse_toledo(line: &[char]) -> (res: Option<(Vec<char>, WeightUnit)>)
    ensures
        weight_view(res) == toledo_weight(line@),
{
    let ws = split_words(line);
    if ws.len() > 0 {
        let last = &ws[ws.len() - 1];
        assert(last@ == words(line@).last());
        if is_unit_word_exec(last.as_slice()) {
            let without_unit = before_last_space_exec(line);
            if let Some((value, _)) = parse_generic(without_unit.as_slice()) {
                let lower = ascii_lowercase(last.as_slice());
                return Some((value, detect_unit(lower.as_slice())));
            }
        }
    }
    parse_generic(line)
}

/// The text between the first STX and the first ETX after it.
pub open spec fn stx_frame(raw: Seq<char>) -> Option<Seq<char>> {
    match find(raw, seq!['\u{2}']) {
        Some(st) => match find(raw.subrange(st, raw.len() as int), seq!['\u{3}']) {
            Some(e) => Some(raw.subrange(st + 1, st + e)),
            None => None,
        },
        None => None,
    }
}

/// Toledo STX/ETX frames: the frame is read as a Toledo line.
pub open spec fn toledo_stx_weight(raw: Seq<char>) -> Option<(Seq<char>, WeightUnit)> {
    match stx_frame(raw) {
        Some(f) => toledo_weight(f),
        None => None,
    }
}

fn stx_frame_exec(raw: &[char]) -> (res: Option<Vec<char>>)
    ensures
        res matches Some(f) ==> stx_frame(raw@) == Some(f@),
        res is None ==> stx_frame(raw@) is None,
{
    let stx = vec!['\u{2}'];
    let etx = vec!['\u{3}'];
    assert(stx@ =~= seq!['\u{2}'] && etx@ =~= seq!['\u{3}']);
    let start = match find_exec(raw, stx.as_slice()) {
        Some(k) => k,
        None => return None,
    };
    proof {
        lemma_find(raw@, stx@);
    }
    let tail = slice_chars(raw, start, raw.len());
    let end = match find_exec(tail.as_slice(), etx.as_slice()) {
        Some(e) => e,
        None => return None,
    };
    proof {
        lemma_find(tail@, etx@);
        assert(tail@[0] == '\u{2}') by {
            assert(raw@.subrange(start as int, start + 1)[0] == '\u{2}');
        }
        if end == 0 {
            assert(tail@.subrange(0, 1)[0] == '\u{3}');
        }
    }
    Some(slice_chars(raw, start + 1, start + end))
}

fn parse_toledo_stx(raw: &[char]) -> (res: Option<(Vec<char>, WeightUnit)>)
    ensures
        weight_view(res) == toledo_stx_weight(raw@),
{
    match stx_frame_exec(raw) {
        Some(frame) => parse_toledo(frame.as_slice()),
        None => None,
    }
}

/// Mettler MT-SICS: `S S <weight> <unit>` and `SI <weight> <unit>`
/// responses are read from their third word on.
pub open spec fn sics_weight(l: Seq<char>) -> Option<(Seq<char>, WeightUnit)> {
    let ps = words(l);
    if ps.len() >= 3 && (ps[0] == seq!['S'] || ps[0] == seq!['S', 'I']) {
        generic_weight(join_spaces(ps.subrange(2, ps.len() as int)))
    } else {
        generic_weight(l)
    }
}

fn parse_mettler_sics(line: &[char]) -> (res: Option<(Vec<char>, WeightUnit)>)
    ensures
        weight_view(res) == sics_weight(line@),
{
    let parts = split_words(line);
    let s = vec!['S'];
    let si = vec!['S', 'I'];
    assert(s@ =~= seq!['S'] && si@ =~= seq!['S', 'I']);
    if parts.len() >= 3 && (chars_eq(parts[0].as_slice(), s.as_slice()) || chars_eq(
        parts[0].as_slice(),
        si.as_slice(),
    )) {
        let joined = join_words(parts.as_slice(), 2);
        proof {
            let ps = words(line@);
            assert(parts@.subrange(2, parts@.len() as int).map_values(|w: Vec<char>| w@)
                =~= ps.subrange(2, ps.len() as int));
        }
        return parse_generic(joined.as_slice());
    }
    parse_generic(line)
}

/// Dibal: the decimal before the first `kg` (any case) is a weight in kg.
pub open spec fn dibal_weight(l: Seq<char>) -> Option<(Seq<char>, WeightUnit)> {
    match find(to_lower(l), seq!['k', 'g']) {
        Some(i) => match decimal_in(l.subrange(0, i)) {
            Some(t) => Some((t, WeightUnit::Kg)),
            None => generic_weight(l),
        },
        None => generic_weight(l),
    }
}

fn parse_dibal(line: &[char]) -> (res: Option<(Vec<char>, WeightUnit)>)
    ensures
        weight_view(res) == dibal_weight(line@),
{
    let lower = ascii_lowercase(line);
    let kg = vec!['k', 'g'];
    assert(kg@ =~= seq!['k', 'g']);
    if let Some(idx) = find_exec(lower.as_slice(), kg.as_slice()) {
        proof {
            lemma_find(lower@, kg@);
        }
        let prefix = slice_chars(line, 0, idx);
        if let Some(number) = extract_decimal(prefix.as_slice()) {
            return Some((number, WeightUnit::Kg));
        }
    }
    parse_generic(line)
}

/// Kretz: status characters before the first digit or sign are skipped.
pub open spec fn kretz_weight(l: Seq<char>) -> Option<(Seq<char>, WeightUnit)> {
    generic_weight(l.subrange(number_start_from(l, 0), l.len() as int))
}

fn parse_kretz(line: &[char]) -> (res: Option<(Vec<char>, WeightUnit)>)
    ensures
        weight_view(res) == kretz_weight(line@),
{
    let mut i: usize = 0;
    while i < line.len() && !is_ascii_digit(line[i]) && line[i] != '+' && line[i] != '-'
        invariant
            i <= line@.len(),
            number_start_from(line@, 0) == number_start_from(line@, i as int),
        decreases line@.len() - i,
    {
        i = i + 1;
    }
    let digits = slice_chars(line, i, line.len());
    parse_generic(digits.as_slice())
}

/// Magellan / Datalogic: the weight embedded in the line.
pub open spec fn magellan_weight(l: Seq<char>) -> Option<(Seq<char>, WeightUnit)> {
    generic_weight(l)
}

fn parse_magellan(line: &[char]) -> (res: Option<(Vec<char>, WeightUnit)>)
    ensures
        weight_view(res) == magellan_weight(line@),
{
    let parsed = parse_generic(line);
    if parsed.is_some() {
        return parsed;
    }
    None
}

/// Avery Berkel: decimal commas are read as points.
pub open spec fn avery_weight(l: Seq<char>) -> Option<(Seq<char>, WeightUnit)> {
    generic_weight(dots_for_commas(l))
}

fn parse_avery(line: &[char]) -> (res: Option<(Vec<char>, WeightUnit)>)
    ensures
        weight_view(res) == avery_weight(line@),
{
    let mut normalized: Vec<char> = Vec::new();
    let mut i: usize = 0;
    while i < line.len()
        invariant
            i <= line@.len(),
            normalized@ =~= dots_for_commas(line@.take(i as int)),
        decreases line@.len() - i,
    {
        let c = line[i];
        normalized.push(
            if c == ',' {
                '.'
            } else {
                c
            },
        );
        i = i + 1;
        assert(normalized@ =~= dots_for_commas(line@.take(i as int)));
    }
    assert(line@.take(i as int) =~= line@);
    parse_generic(normalized.as_slice())
}


// ---------------------------------------------------------------------
// Line sanitizing
// ---------------------------------------------------------------------

/// STX, ETX and ESC, which frame or prefix scale lines.
pub open spec fn is_frame_control(c: char) -> bool {
    c == '\u{2}' || c == '\u{3}' || c == '\u{1b}'
}

/// `s` without its STX, ETX and ESC characters.
pub open spec fn strip_controls(s: Seq<char>) -> Seq<char>
    decreases s.len(),
{
    if s.len() == 0 {
        Seq::empty()
    } else if is_frame_control(s.last()) {
        strip_controls(s.drop_last())
    } else {
        strip_controls(s.drop_last()).push(s.last())
    }
}

/// A raw line without framing characters, trimmed.
pub open spec fn sanitized(raw: Seq<char>) -> Seq<char> {
    trim(strip_controls(raw))
}

fn sanitize_line(raw: &[char]) -> (res: Vec<char>)
    ensures
        res@ == sanitized(raw@),
{
    let mut kept: Vec<char> = Vec::new();
    let mut i: usize = 0;
    while i < raw.len()
        invariant
            i <= raw@.len(),
            kept@ == strip_controls(raw@.take(i as int)),
        decreases raw@.len() - i,
    {
        let c = raw[i];
        assert(raw@.take(i + 1).drop_last() =~= raw@.take(i as int));
        if c != '\u{2}' && c != '\u{3}' && c != '\u{1b}' {
            kept.push(c);
        }
        i = i + 1;
    }
    assert(raw@.take(i as int) =~= raw@);
    trimmed(kept.as_slice())
}

// ---------------------------------------------------------------------
// Protocols
// ---------------------------------------------------------------------

/// The scale protocols the agent can read.
#[derive(Debug, Clone, Copy, PartialEq, Eq, Structural)]
pub enum ScaleProtocol {
    Excell,
    Generic,
    Cas,
    Toledo,
    ToledoStx,
    MettlerSics,
    Dibal,
    Kretz,
    Magellan,
    Avery,
    Rahul,
}

/// Metadata of a protocol, as listed to clients.
#[derive(Debug, Clone, Copy, PartialEq, Eq)]
pub struct ProtocolInfo {
    pub id: &'static str,
    pub name: &'static str,
    pub description: &'static str,
    pub default_baud_rate: u32,
}

/// The protocol a normalized (trimmed, lowercased) name designates.
pub open spec fn protocol_named(n: Seq<char>) -> Option<ScaleProtocol> {
    if n == "excell"@ {
        Some(ScaleProtocol::Excell)
    } else if n == "generic"@ || n == "generico"@ || n == "genérico"@ {
        Some(ScaleProtocol::Generic)
    } else if n == "cas"@ {
        Some(ScaleProtocol::Cas)
    } else if n == "toledo"@ || n == "mettler"@ || n == "toledo_continuous"@ {
        Some(ScaleProtocol::Toledo)
    } else if n == "toledo_stx"@ || n == "toledo-stx"@ || n == "stx"@ {
        Some(ScaleProtocol::ToledoStx)
    } else if n == "mettler_sics"@ || n == "mt-sics"@ || n == "sics"@ {
        Some(ScaleProtocol::MettlerSics)
    } else if n == "dibal"@ {
        Some(ScaleProtocol::Dibal)
    } else if n == "kretz"@ {
        Some(ScaleProtocol::Kretz)
    } else if n == "magellan"@ || n == "datalogic"@ {
        Some(ScaleProtocol::Magellan)
    } else if n == "avery"@ || n == "avery_berkel"@ || n == "berkel"@ {
        Some(ScaleProtocol::Avery)
    } else if n == "rahul"@ || n == "china"@ || n == "fixed"@ {
        Some(ScaleProtocol::Rahul)
    } else {
        None
    }
}

/// The protocol a configured id designates: the id is trimmed and
/// ASCII-lowercased first.
pub open spec fn protocol_for_id(id: Seq<char>) -> Option<ScaleProtocol> {
    protocol_named(to_lower(trim(id)))
}

/// The metadata of each protocol.
pub open spec fn protocol_info(p: ScaleProtocol) -> ProtocolInfo {
    match p {
        ScaleProtocol::Excell => ProtocolInfo {
            id: "excell",
            name: "Excell",
            description: "Balanzas Excell (stream continuo ASCII, común en retail peruano)",
            default_baud_rate: 9600,
        },
        ScaleProtocol::Generic => ProtocolInfo {
            id: "generic",
            name: "Genérico continuo",
            description: "Extrae el primer número decimal de cada línea con unidad opcional",
            default_baud_rate: 9600,
        },
        ScaleProtocol::Cas => ProtocolInfo {
            id: "cas",
            name: "CAS",
            description: "CAS CI/LP/ER (WGT:, WT, stream con kg/g)",
            default_baud_rate: 9600,
        },
        ScaleProtocol::Toledo => ProtocolInfo {
            id: "toledo",
            name: "Toledo / Mettler (continuo)",
            description: "Mettler Toledo Prix, PS, Tiger (línea con peso y unidad)",
            default_baud_rate: 9600,
        },
        ScaleProtocol::ToledoStx => ProtocolInfo {
            id: "toledo_stx",
            name: "Toledo STX/ETX",
            description: "Tramas enmarcadas STX…ETX con peso en ASCII",
            default_baud_rate: 9600,
        },
        ScaleProtocol::MettlerSics => ProtocolInfo {
            id: "mettler_sics",
            name: "Mettler MT-SICS",
            description: "Respuestas SICS (S S, SI) con peso y unidad SI",
            default_baud_rate: 9600,
        },
        ScaleProtocol::Dibal => ProtocolInfo {
            id: "dibal",
            name: "Dibal",
            description: "Dibal G/M/L series (retail, formato peso fijo)",
            default_baud_rate: 9600,
        },
        ScaleProtocol::Kretz => ProtocolInfo {
            id: "kretz",
            name: "Kretz",
            description: "Kretz ARS/eKO (muy usada en LATAM, stream numérico)",
            default_baud_rate: 9600,
        },
        ScaleProtocol::Magellan => ProtocolInfo {
            id: "magellan",
            name: "Magellan / Datalogic",
            description: "Scanner-balanza retail, líneas con peso embebido",
            default_baud_rate: 9600,
        },
        ScaleProtocol::Avery => ProtocolInfo {
            id: "avery",
            name: "Avery Berkel",
            description: "Avery Berkel FX/XI (stream continuo con separadores)",
            default_baud_rate: 9600,
        },
        ScaleProtocol::Rahul => ProtocolInfo {
            id: "rahul",
            name: "Rahul / genérica china",
            description: "Formato +00000.000kg o similar (variante budget)",
            default_baud_rate: 9600,
        },
    }
}

/// Every protocol, in the order in which they are listed.
pub open spec fn all_protocols() -> Seq<ScaleProtocol> {
    seq![
        ScaleProtocol::Excell,
        ScaleProtocol::Generic,
        ScaleProtocol::Cas,
        ScaleProtocol::Toledo,
        ScaleProtocol::ToledoStx,
        ScaleProtocol::MettlerSics,
        ScaleProtocol::Dibal,
        ScaleProtocol::Kretz,
        ScaleProtocol::Magellan,
        ScaleProtocol::Avery,
        ScaleProtocol::Rahul,
    ]
}

/// The metadata of every protocol, in listing order.
pub fn supported_protocols() -> (res: Vec<ProtocolInfo>)
    ensures
        res@ == all_protocols().map_values(|p: ScaleProtocol| protocol_info(p)),
{
    let res = vec![
        ProtocolInfo {
            id: "excell",
            name: "Excell",
            description: "Balanzas Excell (stream continuo ASCII, común en retail peruano)",
            default_baud_rate: 9600,
        },
        ProtocolInfo {
            id: "generic",
            name: "Genérico continuo",
            description: "Extrae el primer número decimal de cada línea con unidad opcional",
            default_baud_rate: 9600,
        },
        ProtocolInfo {
            id: "cas",
            name: "CAS",
            description: "CAS CI/LP/ER (WGT:, WT, stream con kg/g)",
            default_baud_rate: 9600,
        },
        ProtocolInfo {
            id: "toledo",
            name: "Toledo / Mettler (continuo)",
            description: "Mettler Toledo Prix, PS, Tiger (línea con peso y unidad)",
            default_baud_rate: 9600,
        },
        ProtocolInfo {
            id: "toledo_stx",
            name: "Toledo STX/ETX",
            description: "Tramas enmarcadas STX…ETX con peso en ASCII",
            default_baud_rate: 9600,
        },
        ProtocolInfo {
            id: "mettler_sics",
            name: "Mettler MT-SICS",
            description: "Respuestas SICS (S S, SI) con peso y unidad SI",
            default_baud_rate: 9600,
        },
        ProtocolInfo {
            id: "dibal",
            name: "Dibal",
            description: "Dibal G/M/L series (retail, formato peso fijo)",
            default_baud_rate: 9600,
        },
        ProtocolInfo {
            id: "kretz",
            name: "Kretz",
            description: "Kretz ARS/eKO (muy usada en LATAM, stream numérico)",
            default_baud_rate: 9600,
        },
        ProtocolInfo {
            id: "magellan",
            name: "Magellan / Datalogic",
            description: "Scanner-balanza retail, líneas con peso embebido",
            default_baud_rate: 9600,
        },
        ProtocolInfo {
            id: "avery",
            name: "Avery Berkel",
            description: "Avery Berkel FX/XI (stream continuo con separadores)",
            default_baud_rate: 9600,
        },
        ProtocolInfo {
            id: "rahul",
            name: "Rahul / genérica china",
            description: "Formato +00000.000kg o similar (variante budget)",
            default_baud_rate: 9600,
        },
    ];
    assert(res@ =~= all_protocols().map_values(|p: ScaleProtocol| protocol_info(p)));
    res
}

/// The weight a protocol reads from a raw line.
pub open spec fn line_weight(p: ScaleProtocol, raw: Seq<char>) -> Option<(Seq<char>, WeightUnit)> {
    let l = sanitized(raw);
    match p {
        ScaleProtocol::Excell => or_else(excell_weight(l), generic_weight(l)),
        ScaleProtocol::Generic => generic_weight(l),
        ScaleProtocol::Cas => or_else(cas_weight(l), generic_weight(l)),
        ScaleProtocol::Toledo => or_else(toledo_weight(l), generic_weight(l)),
        ScaleProtocol::ToledoStx => or_else(toledo_stx_weight(raw), toledo_weight(l)),
        ScaleProtocol::MettlerSics => or_else(sics_weight(l), generic_weight(l)),
        ScaleProtocol::Dibal => or_else(dibal_weight(l), generic_weight(l)),
        ScaleProtocol::Kretz => or_else(kretz_weight(l), generic_weight(l)),
        ScaleProtocol::Magellan => or_else(magellan_weight(l), generic_weight(l)),
        ScaleProtocol::Avery => or_else(avery_weight(l), generic_weight(l)),
        ScaleProtocol::Rahul => or_else(rahul_weight(l), generic_weight(l)),
    }
}

fn first_or(
    a: Option<(Vec<char>, WeightUnit)>,
    b: Option<(Vec<char>, WeightUnit)>,
) -> (res: Option<(Vec<char>, WeightUnit)>)
    ensures
        weight_view(res) == or_else(weight_view(a), weight_view(b)),
{
    if a.is_some() {
        a
    } else {
        b
    }
}

/// The literal string a protocol's listing entry carries as its id.
pub open spec fn protocol_id(p: ScaleProtocol) -> Seq<char> {
    protocol_info(p).id@
}

impl ScaleProtocol {
    /// Reads a configured protocol id. Surrounding whitespace and ASCII
    /// case are ignored; several aliases name each protocol.
    pub fn parse_id(id: &str) -> (res: Option<Self>)
        ensures
            res == protocol_for_id(id@),
    {
        let chars = chars_of(id);
        let t = trimmed(chars.as_slice());
        let n = ascii_lowercase(t.as_slice());
        let n = n.as_slice();
        if chars_eq_str(n, "excell") {
            Some(Self::Excell)
        } else if chars_eq_str(n, "generic") || chars_eq_str(n, "generico") || chars_eq_str(
            n,
            "genérico",
        ) {
            Some(Self::Generic)
        } else if chars_eq_str(n, "cas") {
            Some(Self::Cas)
        } else if chars_eq_str(n, "toledo") || chars_eq_str(n, "mettler") || chars_eq_str(
            n,
            "toledo_continuous",
        ) {
            Some(Self::Toledo)
        } else if chars_eq_str(n, "toledo_stx") || chars_eq_str(n, "toledo-stx")
            || chars_eq_str(n, "stx") {
            Some(Self::ToledoStx)
        } else if chars_eq_str(n, "mettler_sics") || chars_eq_str(n, "mt-sics") || chars_eq_str(
            n,
            "sics",
        ) {
            Some(Self::MettlerSics)
        } else if chars_eq_str(n, "dibal") {
            Some(Self::Dibal)
        } else if chars_eq_str(n, "kretz") {
            Some(Self::Kretz)
        } else if chars_eq_str(n, "magellan") || chars_eq_str(n, "datalogic") {
            Some(Self::Magellan)
        } else if chars_eq_str(n, "avery") || chars_eq_str(n, "avery_berkel") || chars_eq_str(
            n,
            "berkel",
        ) {
            Some(Self::Avery)
        } else if chars_eq_str(n, "rahul") || chars_eq_str(n, "china") || chars_eq_str(
            n,
            "fixed",
        ) {
            Some(Self::Rahul)
        } else {
            None
        }
    }

    /// The listing entry of this protocol: the first supported protocol
    /// whose id reads back as this protocol.
    pub fn info(self) -> (res: ProtocolInfo)
        ensures
            res == protocol_info(self),
    {
        let all = supported_protocols();
        let ghost views = all_protocols().map_values(|p: ScaleProtocol| protocol_info(p));
        let ghost at: int = match self {
            ScaleProtocol::Excell => 0,
            ScaleProtocol::Generic => 1,
            ScaleProtocol::Cas => 2,
            ScaleProtocol::Toledo => 3,
            ScaleProtocol::ToledoStx => 4,
            ScaleProtocol::MettlerSics => 5,
            ScaleProtocol::Dibal => 6,
            ScaleProtocol::Kretz => 7,
            ScaleProtocol::Magellan => 8,
            ScaleProtocol::Avery => 9,
            ScaleProtocol::Rahul => 10,
        };
        assert(all_protocols()[at] == self);
        let mut i: usize = 0;
        loop
            invariant
                i <= at < all@.len(),
                all@ == views,
                views == all_protocols().map_values(|p: ScaleProtocol| protocol_info(p)),
                all_protocols()[at] == self,
            decreases at - i,
        {
            let entry = all[i];
            proof {
                lemma_protocol_id_round_trip(all_protocols()[i as int]);
            }
            let found = match Self::parse_id(entry.id) {
                Some(q) => q == self,
                None => false,
            };
            if found {
                return entry;
            }
            i = i + 1;
        }
    }

    /// Reads a weight from one raw line of the scale's stream.
    pub fn parse_line(self, raw: &str) -> (res: Option<ParsedWeight>)
        ensures
            res matches Some(p) ==> line_weight(self, raw@) == Some((p.value@, p.unit)),
            res is None ==> line_weight(self, raw@) is None,
    {
        let raw_chars = chars_of(raw);
        let raw_chars = raw_chars.as_slice();
        let line = sanitize_line(raw_chars);
        let line = line.as_slice();
        let parsed = match self {
            Self::Excell => first_or(parse_excell(line), parse_generic(line)),
            Self::Generic => parse_generic(line),
            Self::Cas => first_or(parse_cas(line), parse_generic(line)),
            Self::Toledo => first_or(parse_toledo(line), parse_generic(line)),
            Self::ToledoStx => first_or(parse_toledo_stx(raw_chars), parse_toledo(line)),
            Self::MettlerSics => first_or(parse_mettler_sics(line), parse_generic(line)),
            Self::Dibal => first_or(parse_dibal(line), parse_generic(line)),
            Self::Kretz => first_or(parse_kretz(line), parse_generic(line)),
            Self::Magellan => first_or(parse_magellan(line), parse_generic(line)),
            Self::Avery => first_or(parse_avery(line), parse_generic(line)),
            Self::Rahul => first_or(parse_rahul(line), parse_generic(line)),
        };
        match parsed {
            Some((value, unit)) => Some(ParsedWeight { value: string_of(value.as_slice()), unit }),
            None => None,
        }
    }
}

/// Each protocol's listed id reads back as that protocol.
pub proof fn lemma_protocol_id_round_trip(p: ScaleProtocol)
    ensures
        protocol_for_id(protocol_id(p)) == Some(p),
{
    reveal_strlit("excell");
    reveal_strlit("generic");
    reveal_strlit("generico");
    reveal_strlit("genérico");
    reveal_strlit("cas");
    reveal_strlit("toledo");
    reveal_strlit("mettler");
    reveal_strlit("toledo_continuous");
    reveal_strlit("toledo_stx");
    reveal_strlit("toledo-stx");
    reveal_strlit("stx");
    reveal_strlit("mettler_sics");
    reveal_strlit("mt-sics");
    reveal_strlit("sics");
    reveal_strlit("dibal");
    reveal_strlit("kretz");
    reveal_strlit("magellan");
    reveal_strlit("datalogic");
    reveal_strlit("avery");
    reveal_strlit("avery_berkel");
    reveal_strlit("berkel");
    reveal_strlit("rahul");
    reveal_strlit("china");
    reveal_strlit("fixed");
    let id = protocol_id(p);
    lemma_trim_unchanged(id);
    assert(to_lower(id) =~= id);
}


/// A reading found by the generic parser is a non-empty decimal literal.
proof fn lemma_generic_literal(l: Seq<char>)
    ensures
        generic_weight(l) matches Some((v, u)) ==> v.len() > 0 && is_decimal_literal(v),
{
}

/// Every weight any protocol reads is a non-empty decimal literal, so that
/// it always converts to a number.
pub proof fn lemma_weights_are_decimal_literals(p: ScaleProtocol, raw: Seq<char>)
    ensures
        line_weight(p, raw) matches Some((v, u)) ==> v.len() > 0 && is_decimal_literal(v),
{
    let l = sanitized(raw);
    lemma_generic_literal(l);
    lemma_generic_literal(trim(l));
    lemma_generic_literal(dots_for_commas(l));
    lemma_generic_literal(l.subrange(number_start_from(l, 0), l.len() as int));
    lemma_generic_literal(before_last_space(l));
    if after_separator(l) is Some {
        lemma_generic_literal(after_separator(l)->0);
    }
    let u = to_upper(l);
    lemma_generic_literal(trim(u.subrange(4, u.len() as int)));
    lemma_generic_literal(trim(u.subrange(2, u.len() as int)));
    let ws = words(l);
    lemma_generic_literal(join_spaces(ws.subrange(2, ws.len() as int)));
    if stx_frame(raw) is Some {
        let f = stx_frame(raw)->0;
        lemma_generic_literal(f);
        lemma_generic_literal(before_last_space(f));
    }
}


proof fn lemma_strip_controls_clean(s: Seq<char>)
    ensures
        forall|i: int| 0 <= i < strip_controls(s).len() ==> !is_frame_control(
            #[trigger] strip_controls(s)[i],
        ),
    decreases s.len(),
{
    if s.len() > 0 {
        lemma_strip_controls_clean(s.drop_last());
        let r = strip_controls(s.drop_last());
        if !is_frame_control(s.last()) {
            assert forall|i: int| 0 <= i < strip_controls(s).len() implies !is_frame_control(
                #[trigger] strip_controls(s)[i],
            ) by {
                if i < r.len() {
                    assert(strip_controls(s)[i] == r[i]);
                }
            }
        }
    }
}

proof fn lemma_strip_controls_keeps_clean(s: Seq<char>)
    requires
        forall|i: int| 0 <= i < s.len() ==> !is_frame_control(#[trigger] s[i]),
    ensures
        strip_controls(s) == s,
    decreases s.len(),
{
    if s.len() > 0 {
        lemma_strip_controls_keeps_clean(s.drop_last());
        assert(!is_frame_control(s[s.len() - 1]));
        assert(s.drop_last().push(s.last()) =~= s);
    }
}

/// Sanitizing a line twice is sanitizing it once.
pub proof fn lemma_sanitized_idempotent(raw: Seq<char>)
    ensures
        sanitized(sanitized(raw)) == sanitized(raw),
{
    let c = strip_controls(raw);
    lemma_strip_controls_clean(raw);
    crate::text::lemma_trim_bounds(c);
    let t = trim(c);
    assert forall|i: int| 0 <= i < t.len() implies !is_frame_control(#[trigger] t[i]) by {
        assert(t[i] == c[crate::text::trim_lo(c) + i]);
    }
    lemma_strip_controls_keeps_clean(t);
    crate::text::lemma_trim_idempotent(c);
}

/// Framing characters and surrounding whitespace do not change what a
/// protocol reads: a line reads the same once sanitized, for every protocol
/// but Toledo STX, which looks for the framing characters themselves.
pub proof fn lemma_sanitized_reads_same(p: ScaleProtocol, raw: Seq<char>)
    requires
        p != ScaleProtocol::ToledoStx,
    ensures
        line_weight(p, sanitized(raw)) == line_weight(p, raw),
{
    lemma_sanitized_idempotent(raw);
}


/// The number a line's first number-like token starts with is the line's
/// first digit or sign, kept as it is: a leading `-` stays.
pub proof fn lemma_number_token_keeps_sign(s: Seq<char>)
    ensures
        number_token(s).len() > 0 ==> {
            &&& number_start_from(s, 0) < s.len()
            &&& number_token(s)[0] == s[number_start_from(s, 0)]
            &&& starts_number(number_token(s)[0])
        },
{
    lemma_number_start_bounds(s, 0);
    let k = number_start_from(s, 0);
    if k < s.len() {
        lemma_number_end_bounds(s, k + 1);
    }
}

/// The fixed-width reader reads a line exactly as the generic reader does:
/// the first number-like token of the sanitized line, sign included, with
/// the unit the line names. A negative weight stays negative.
pub proof fn lemma_rahul_reads_first_number(raw: Seq<char>)
    ensures
        ({
            let l = sanitized(raw);
            &&& line_weight(ScaleProtocol::Rahul, raw) is Some <==> number_token(l).len() > 0
                && is_decimal_literal(number_token(l))
            &&& line_weight(ScaleProtocol::Rahul, raw) matches Some((v, u)) ==> {
                &&& v == number_token(l)
                &&& v[0] == l[number_start_from(l, 0)]
                &&& u == unit_in(to_lower(l))
            }
        }),
{
    let c = strip_controls(raw);
    let l = sanitized(raw);
    crate::text::lemma_trim_idempotent(c);
    assert(trim(l) == l);
    lemma_number_token_keeps_sign(l);
}

/// Excell reads the first number-like token, sign included, either of the
/// whole sanitized line or of what follows its first `=` or `:`.
pub proof fn lemma_excell_reads_first_number(raw: Seq<char>)
    ensures
        ({
            let l = sanitized(raw);
            line_weight(ScaleProtocol::Excell, raw) matches Some((v, u)) ==> {
                ||| v == number_token(l) && v[0] == l[number_start_from(l, 0)]
                ||| after_separator(l) is Some && v == number_token(after_separator(l)->0)
                    && v[0] == (after_separator(l)->0)[number_start_from(after_separator(l)->0, 0)]
            }
        }),
{
    let c = strip_controls(raw);
    let l = sanitized(raw);
    crate::text::lemma_trim_idempotent(c);
    assert(trim(l) == l);
    lemma_number_token_keeps_sign(l);
    if after_separator(l) is Some {
        lemma_number_token_keeps_sign(after_separator(l)->0);
    }
}

#[verifier::rlimit(50)]
/// Which configured ids name which protocol: after trimming and ASCII
/// lowercasing, exactly the listed aliases name each protocol, and any
/// other id names none.
pub proof fn lemma_protocol_aliases(id: Seq<char>)
    ensures
        ({
            let n = to_lower(trim(id));
            &&& protocol_for_id(id) == Some(ScaleProtocol::Excell) <==> n == "excell"@
            &&& protocol_for_id(id) == Some(ScaleProtocol::Generic) <==> (n == "generic"@ || n
                == "generico"@ || n == "genérico"@)
            &&& protocol_for_id(id) == Some(ScaleProtocol::Cas) <==> n == "cas"@
            &&& protocol_for_id(id) == Some(ScaleProtocol::Toledo) <==> (n == "toledo"@ || n
                == "mettler"@ || n == "toledo_continuous"@)
            &&& protocol_for_id(id) == Some(ScaleProtocol::ToledoStx) <==> (n == "toledo_stx"@
                || n == "toledo-stx"@ || n == "stx"@)
            &&& protocol_for_id(id) == Some(ScaleProtocol::MettlerSics) <==> (n == "mettler_sics"@
                || n == "mt-sics"@ || n == "sics"@)
            &&& protocol_for_id(id) == Some(ScaleProtocol::Dibal) <==> n == "dibal"@
            &&& protocol_for_id(id) == Some(ScaleProtocol::Kretz) <==> n == "kretz"@
            &&& protocol_for_id(id) == Some(ScaleProtocol::Magellan) <==> (n == "magellan"@ || n
                == "datalogic"@)
            &&& protocol_for_id(id) == Some(ScaleProtocol::Avery) <==> (n == "avery"@ || n
                == "avery_berkel"@ || n == "berkel"@)
            &&& protocol_for_id(id) == Some(ScaleProtocol::Rahul) <==> (n == "rahul"@ || n
                == "china"@ || n == "fixed"@)
        }),
{
    reveal_strlit("excell");
    reveal_strlit("generic");
    reveal_strlit("generico");
    reveal_strlit("genérico");
    reveal_strlit("cas");
    reveal_strlit("toledo");
    reveal_strlit("mettler");
    reveal_strlit("toledo_continuous");
    reveal_strlit("toledo_stx");
    reveal_strlit("toledo-stx");
    reveal_strlit("stx");
    reveal_strlit("mettler_sics");
    reveal_strlit("mt-sics");
    reveal_strlit("sics");
    reveal_strlit("dibal");
    reveal_strlit("kretz");
    reveal_strlit("magellan");
    reveal_strlit("datalogic");
    reveal_strlit("avery");
    reveal_strlit("avery_berkel");
    reveal_strlit("berkel");
    reveal_strlit("rahul");
    reveal_strlit("china");
    reveal_strlit("fixed");
    let n = to_lower(trim(id));
    if n == "excell"@ {
        assert(n.len() == 6 && n[0] == 'e' && n[4] == 'l');
        assert(protocol_named(n) == Some(ScaleProtocol::Excell));
    } else if n == "generic"@ {
        assert(n.len() == 7 && n[0] == 'g' && n[4] == 'r' && n[6] == 'c');
        assert(protocol_named(n) == Some(ScaleProtocol::Generic));
    } else if n == "generico"@ {
        assert(n.len() == 8 && n[0] == 'g' && n[4] == 'r' && n[6] == 'c');
        assert(protocol_named(n) == Some(ScaleProtocol::Generic));
    } else if n == "genérico"@ {
        assert(n.len() == 8 && n[0] == 'g' && n[4] == 'r' && n[6] == 'c');
        assert(protocol_named(n) == Some(ScaleProtocol::Generic));
    } else if n == "cas"@ {
        assert(n.len() == 3 && n[0] == 'c');
        assert(protocol_named(n) == Some(ScaleProtocol::Cas));
    } else if n == "toledo"@ {
        assert(n.len() == 6 && n[0] == 't' && n[4] == 'd');
        assert(protocol_named(n) == Some(ScaleProtocol::Toledo));
    } else if n == "mettler"@ {
        assert(n.len() == 7 && n[0] == 'm' && n[4] == 'l' && n[6] == 'r');
        assert(protocol_named(n) == Some(ScaleProtocol::Toledo));
    } else if n == "toledo_continuous"@ {
        assert(n.len() == 17 && n[0] == 't' && n[4] == 'd' && n[6] == '_');
        assert(protocol_named(n) == Some(ScaleProtocol::Toledo));
    } else if n == "toledo_stx"@ {
        assert(n.len() == 10 && n[0] == 't' && n[4] == 'd' && n[6] == '_');
        assert(protocol_named(n) == Some(ScaleProtocol::ToledoStx));
    } else if n == "toledo-stx"@ {
        assert(n.len() == 10 && n[0] == 't' && n[4] == 'd' && n[6] == '-');
        assert(protocol_named(n) == Some(ScaleProtocol::ToledoStx));
    } else if n == "stx"@ {
        assert(n.len() == 3 && n[0] == 's');
        assert(protocol_named(n) == Some(ScaleProtocol::ToledoStx));
    } else if n == "mettler_sics"@ {
        assert(n.len() == 12 && n[0] == 'm' && n[4] == 'l' && n[6] == 'r');
        assert(protocol_named(n) == Some(ScaleProtocol::MettlerSics));
    } else if n == "mt-sics"@ {
        assert(n.len() == 7 && n[0] == 'm' && n[4] == 'i' && n[6] == 's');
        assert(protocol_named(n) == Some(ScaleProtocol::MettlerSics));
    } else if n == "sics"@ {
        assert(n.len() == 4 && n[0] == 's');
        assert(protocol_named(n) == Some(ScaleProtocol::MettlerSics));
    } else if n == "dibal"@ {
        assert(n.len() == 5 && n[0] == 'd' && n[4] == 'l');
        assert(protocol_named(n) == Some(ScaleProtocol::Dibal));
    } else if n == "kretz"@ {
        assert(n.len() == 5 && n[0] == 'k' && n[4] == 'z');
        assert(protocol_named(n) == Some(ScaleProtocol::Kretz));
    } else if n == "magellan"@ {
        assert(n.len() == 8 && n[0] == 'm' && n[4] == 'l' && n[6] == 'a');
        assert(protocol_named(n) == Some(ScaleProtocol::Magellan));
    } else if n == "datalogic"@ {
        assert(n.len() == 9 && n[0] == 'd' && n[4] == 'l' && n[6] == 'g');
        assert(protocol_named(n) == Some(ScaleProtocol::Magellan));
    } else if n == "avery"@ {
        assert(n.len() == 5 && n[0] == 'a' && n[4] == 'y');
        assert(protocol_named(n) == Some(ScaleProtocol::Avery));
    } else if n == "avery_berkel"@ {
        assert(n.len() == 12 && n[0] == 'a' && n[4] == 'y' && n[6] == 'b');
        assert(protocol_named(n) == Some(ScaleProtocol::Avery));
    } else if n == "berkel"@ {
        assert(n.len() == 6 && n[0] == 'b' && n[4] == 'e');
        assert(protocol_named(n) == Some(ScaleProtocol::Avery));
    } else if n == "rahul"@ {
        assert(n.len() == 5 && n[0] == 'r' && n[4] == 'l');
        assert(protocol_named(n) == Some(ScaleProtocol::Rahul));
    } else if n == "china"@ {
        assert(n.len() == 5 && n[0] == 'c' && n[4] == 'a');
        assert(protocol_named(n) == Some(ScaleProtocol::Rahul));
    } else if n == "fixed"@ {
        assert(n.len() == 5 && n[0] == 'f' && n[4] == 'd');
        assert(protocol_named(n) == Some(ScaleProtocol::Rahul));
    } else {
        assert(protocol_for_id(id) is None);
    }
}

} // verus!
