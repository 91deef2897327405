//! Framing of the scale's byte stream into lines, and the weights read from
//! them. Reading the port is left to the caller, which hands over each
//! chunk of bytes it received.

use vstd::prelude::*;
use vstd::utf8::{decode_utf8, valid_utf8};
use crate::scale::protocols::{ParsedWeight, ScaleProtocol, WeightUnit, line_weight};
use crate::text::{chars_of, string_of, trim, trimmed};

verus! {

/// A line ends at a line feed or a carriage return.
pub open spec fn is_line_end(b: u8) -> bool {
    b == 10 || b == 13
}

/// The first index at or after `i` holding a line end (or the length).
pub open spec fn line_end_from(s: Seq<u8>, i: int) -> int
    decreases s.len() - i,
{
    if i >= s.len() || is_line_end(s[i]) {
        i
    } else {
        line_end_from(s, i + 1)
    }
}

pub proof fn lemma_line_end_bounds(s: Seq<u8>, i: int)
    requires
        0 <= i <= s.len(),
    ensures
        i <= line_end_from(s, i) <= s.len(),
        line_end_from(s, i) < s.len() ==> is_line_end(s[line_end_from(s, i)]),
        forall|k: int| i <= k < line_end_from(s, i) ==> !is_line_end(#[trigger] s[k]),
    decreases s.len() - i,
{
    if i < s.len() && !is_line_end(s[i]) {
        lemma_line_end_bounds(s, i + 1);
    }
}

/// The complete lines at the front of `s`, each with its line end.
pub open spec fn complete_lines(s: Seq<u8>) -> Seq<Seq<u8>>
    decreases s.len(),
{
    let p = line_end_from(s, 0);
    if p >= s.len() {
        Seq::empty()
    } else {
        proof {
            lemma_line_end_bounds(s, 0);
        }
        seq![s.subrange(0, p + 1)] + complete_lines(s.subrange(p + 1, s.len() as int))
    }
}

/// What follows the last line end of `s`.
pub open spec fn unterminated_rest(s: Seq<u8>) -> Seq<u8>
    decreases s.len(),
{
    let p = line_end_from(s, 0);
    if p >= s.len() {
        s
    } else {
        proof {
            lemma_line_end_bounds(s, 0);
        }
        unterminated_rest(s.subrange(p + 1, s.len() as int))
    }
}

/// The lines joined back together.
pub open spec fn concat(lines: Seq<Seq<u8>>) -> Seq<u8>
    decreases lines.len(),
{
    if lines.len() == 0 {
        Seq::empty()
    } else {
        lines[0] + concat(lines.subrange(1, lines.len() as int))
    }
}

/// Framing loses nothing: the complete lines followed by the rest give back
/// the bytes.
pub proof fn lemma_framing_lossless(s: Seq<u8>)
    ensures
        concat(complete_lines(s)) + unterminated_rest(s) == s,
    decreases s.len(),
{
    lemma_line_end_bounds(s, 0);
    let p = line_end_from(s, 0);
    if p >= s.len() {
        assert(concat(complete_lines(s)) =~= Seq::<u8>::empty());
        assert(Seq::<u8>::empty() + s =~= s);
    } else {
        let tail = s.subrange(p + 1, s.len() as int);
        lemma_framing_lossless(tail);
        let ls = complete_lines(s);
        assert(ls.subrange(1, ls.len() as int) =~= complete_lines(tail));
        assert(s.subrange(0, p + 1) + tail =~= s);
    }
}

/// Every complete line ends with its only line end.
pub proof fn lemma_lines_well_framed(s: Seq<u8>)
    ensures
        forall|k: int| 0 <= k < complete_lines(s).len() ==> {
            let l = #[trigger] complete_lines(s)[k];
            &&& l.len() > 0
            &&& is_line_end(l.last())
            &&& forall|m: int| 0 <= m < l.len() - 1 ==> !is_line_end(#[trigger] l[m])
        },
        forall|m: int| 0 <= m < unterminated_rest(s).len() ==> !is_line_end(
            #[trigger] unterminated_rest(s)[m],
        ),
    decreases s.len(),
{
    lemma_line_end_bounds(s, 0);
    let p = line_end_from(s, 0);
    if p < s.len() {
        let tail = s.subrange(p + 1, s.len() as int);
        lemma_lines_well_framed(tail);
        assert(unterminated_rest(s) == unterminated_rest(tail));
        let ls = complete_lines(s);
        assert forall|k: int| 0 <= k < ls.len() implies {
            let l = #[trigger] ls[k];
            &&& l.len() > 0
            &&& is_line_end(l.last())
            &&& forall|m: int| 0 <= m < l.len() - 1 ==> !is_line_end(#[trigger] l[m])
        } by {
            if k > 0 {
                assert(ls[k] == complete_lines(tail)[k - 1]);
            }
        }
    } else {
        assert forall|m: int| 0 <= m < unterminated_rest(s).len() implies !is_line_end(
            #[trigger] unterminated_rest(s)[m],
        ) by {
            assert(unterminated_rest(s)[m] == s[m]);
        }
    }
}

/// The text `String::from_utf8_lossy` makes of `bytes`.
pub uninterp spec fn lossy_text(bytes: Seq<u8>) -> Seq<char>;

/// `String::from_utf8_lossy`, owned: the text of valid UTF-8 is decoded as
/// is; what the replacement characters of invalid input look like is left
/// to the name.
#[verifier::external_body]
fn decode_lossy(bytes: &[u8]) -> (res: String)
    ensures
        res@ == lossy_text(bytes@),
        valid_utf8(bytes@) ==> res@ == decode_utf8(bytes@),
{
    String::from_utf8_lossy(bytes).into_owned()
}

/// A weight read from the stream, with the trimmed text it was read from.
#[derive(Debug)]
pub struct Sample {
    pub raw: String,
    pub weight: ParsedWeight,
}

/// A sample as plain values: text, then decimal and unit.
pub open spec fn sample_view(s: Sample) -> (Seq<char>, (Seq<char>, WeightUnit)) {
    (s.raw@, (s.weight.value@, s.weight.unit))
}

/// The sample a complete line gives: none for a blank line, else the
/// protocol's reading of its text, if any.
pub open spec fn line_sample(p: ScaleProtocol, line: Seq<u8>) -> Option<(Seq<char>, (Seq<char>, WeightUnit))> {
    let t = lossy_text(line);
    if trim(t).len() == 0 {
        None
    } else {
        match line_weight(p, t) {
            Some(w) => Some((trim(t), w)),
            None => None,
        }
    }
}

/// The sample an overlong unterminated rest gives: the protocol's reading
/// of its text, if any.
pub open spec fn overflow_sample(p: ScaleProtocol, rest: Seq<u8>) -> Option<(Seq<char>, (Seq<char>, WeightUnit))> {
    let t = lossy_text(rest);
    match line_weight(p, t) {
        Some(w) => Some((trim(t), w)),
        None => None,
    }
}

pub open spec fn opt_seq<T>(o: Option<T>) -> Seq<T> {
    match o {
        Some(x) => seq![x],
        None => Seq::empty(),
    }
}

/// The samples of consecutive complete lines.
pub open spec fn line_samples(p: ScaleProtocol, lines: Seq<Seq<u8>>) -> Seq<(Seq<char>, (Seq<char>, WeightUnit))>
    decreases lines.len(),
{
    if lines.len() == 0 {
        Seq::empty()
    } else {
        line_samples(p, lines.drop_last()) + opt_seq(line_sample(p, lines.last()))
    }
}

/// Unterminated input longer than this is read as a line of its own and dropped.
pub open spec fn max_pending() -> nat {
    80
}

/// The sample the protocol reads from a decoded text: its reading, with the
/// text trimmed.
pub fn sample_of(p: ScaleProtocol, text: String) -> (res: Option<Sample>)
    ensures
        res matches Some(s) ==> (line_weight(p, text@) matches Some(w) && sample_view(s) == (
            trim(text@),
            w,
        )),
        res is None ==> line_weight(p, text@) is None,
{
    match p.parse_line(text.as_str()) {
        Some(weight) => {
            let chars = chars_of(text.as_str());
            let t = trimmed(chars.as_slice());
            Some(Sample { raw: string_of(t.as_slice()), weight })
        },
        None => None,
    }
}

/// The sample of one complete line.
fn sample_from_line(p: ScaleProtocol, line: &[u8]) -> (res: Option<Sample>)
    ensures
        match res {
            Some(s) => line_sample(p, line@) == Some(sample_view(s)),
            None => line_sample(p, line@) is None,
        },
{
    let text = decode_lossy(line);
    let chars = chars_of(text.as_str());
    let t = trimmed(chars.as_slice());
    if t.len() == 0 {
        return None;
    }
    sample_of(p, text)
}

/// The bytes received and not yet framed into a line.
pub struct LineBuffer {
    bytes: Vec<u8>,
}

impl LineBuffer {
    pub closed spec fn pending(&self) -> Seq<u8> {
        self.bytes@
    }

    pub fn new() -> (res: Self)
        ensures
            res.pending() == Seq::<u8>::empty(),
    {
        LineBuffer { bytes: Vec::new() }
    }

    /// Appends received bytes.
    pub fn extend(&mut self, chunk: &[u8])
        ensures
            final(self).pending() == old(self).pending() + chunk@,
    {
        let ghost start = self.bytes@;
        let mut i: usize = 0;
        while i < chunk.len()
            invariant
                i <= chunk@.len(),
                self.bytes@ == start + chunk@.take(i as int),
            decreases chunk@.len() - i,
        {
            self.bytes.push(chunk[i]);
            i = i + 1;
            assert(start + chunk@.take(i as int) =~= (start + chunk@.take((i - 1) as int)).push(
                chunk@[i - 1],
            ));
        }
        assert(chunk@.take(i as int) =~= chunk@);
    }

    /// Takes the first complete line, line end included.
    pub fn next_line(&mut self) -> (res: Option<Vec<u8>>)
        ensures
            match res {
                Some(l) => {
                    &&& complete_lines(old(self).pending()) == seq![l@] + complete_lines(
                        final(self).pending(),
                    )
                    &&& unterminated_rest(old(self).pending()) == unterminated_rest(
                        final(self).pending(),
                    )
                    &&& old(self).pending() == l@ + final(self).pending()
                },
                None => {
                    &&& complete_lines(old(self).pending()) == Seq::<Seq<u8>>::empty()
                    &&& unterminated_rest(old(self).pending()) == old(self).pending()
                    &&& final(self).pending() == old(self).pending()
                },
            },
    {
        let ghost s = self.bytes@;
        let mut pos: usize = 0;
        while pos < self.bytes.len() && self.bytes[pos] != 10 && self.bytes[pos] != 13
            invariant
                pos <= s.len(),
                s == self.bytes@,
                line_end_from(s, 0) == line_end_from(s, pos as int),
            decreases s.len() - pos,
        {
            pos = pos + 1;
        }
        if pos >= self.bytes.len() {
            return None;
        }
        let mut line = self.bytes.split_off(pos + 1);
        std::mem::swap(&mut self.bytes, &mut line);
        proof {
            assert(line@ == s.subrange(0, pos + 1));
            assert(self.bytes@ == s.subrange(pos + 1, s.len() as int));
            assert(s =~= line@ + self.bytes@);
        }
        Some(line)
    }

    /// Takes all pending bytes when more than `max_pending()` have gathered
    /// without a line end.
    pub fn take_overflow(&mut self) -> (res: Option<Vec<u8>>)
        ensures
            old(self).pending().len() > max_pending() ==> (res matches Some(v) && v@ == old(
                self,
            ).pending() && final(self).pending() == Seq::<u8>::empty()),
            old(self).pending().len() <= max_pending() ==> res is None && final(self).pending()
                == old(self).pending(),
    {
        if self.bytes.len() > 80 {
            let mut taken: Vec<u8> = Vec::new();
            std::mem::swap(&mut self.bytes, &mut taken);
            Some(taken)
        } else {
            None
        }
    }

    /// Appends a received chunk and returns the samples it completes: one for
    /// each complete line a protocol reading comes from, then, when more
    /// than `max_pending()` bytes are left without a line end, the reading
    /// of those bytes, which are then dropped.
    pub fn feed(&mut self, p: ScaleProtocol, chunk: &[u8]) -> (res: Vec<Sample>)
        ensures
            ({
                let b = old(self).pending() + chunk@;
                let rest = unterminated_rest(b);
                &&& res@.map_values(|s: Sample| sample_view(s)) == line_samples(p, complete_lines(b))
                    + (if rest.len() > max_pending() {
                    opt_seq(overflow_sample(p, rest))
                } else {
                    Seq::empty()
                })
                &&& final(self).pending() == if rest.len() > max_pending() {
                    Seq::<u8>::empty()
                } else {
                    rest
                }
            }),
    {
        self.extend(chunk);
        let ghost b = self.pending();
        let ghost mut consumed: Seq<Seq<u8>> = Seq::empty();
        let mut samples: Vec<Sample> = Vec::new();
        loop
            invariant_except_break
                complete_lines(b) == consumed + complete_lines(self.pending()),
                unterminated_rest(b) == unterminated_rest(self.pending()),
                samples@.map_values(|s: Sample| sample_view(s)) == line_samples(p, consumed),
            ensures
                complete_lines(b) == consumed,
                unterminated_rest(b) == self.pending(),
                samples@.map_values(|s: Sample| sample_view(s)) == line_samples(p, consumed),
            decreases self.pending().len(),
        {
            let ghost before = self.pending();
            match self.next_line() {
                Some(line) => {
                    let got = sample_from_line(p, line.as_slice());
                    proof {
                        let c2 = consumed.push(line@);
                        assert(c2.drop_last() =~= consumed);
                        assert(consumed + complete_lines(before) =~= c2 + complete_lines(
                            self.pending(),
                        ));
                        consumed = c2;
                    }
                    match got {
                        Some(s) => {
                            samples.push(s);
                        },
                        None => {},
                    }
                    assert(samples@.map_values(|s: Sample| sample_view(s)) =~= line_samples(
                        p,
                        consumed,
                    ));
                    assert(line@.len() > 0) by {
                        lemma_lines_well_framed(before);
                        assert(complete_lines(before)[0] == line@);
                    }
                },
                None => {
                    assert(consumed + Seq::<Seq<u8>>::empty() =~= consumed);
                    break;
                },
            }
        }
        let ghost rest = self.pending();
        if let Some(raw) = self.take_overflow() {
            let text = decode_lossy(raw.as_slice());
            let got = sample_of(p, text);
            let ghost before = samples@.map_values(|s: Sample| sample_view(s));
            match got {
                Some(s) => {
                    samples.push(s);
                },
                None => {},
            }
            assert(samples@.map_values(|s: Sample| sample_view(s)) =~= before + opt_seq(
                overflow_sample(p, rest),
            ));
        } else {
            assert(samples@.map_values(|s: Sample| sample_view(s)) =~= line_samples(p, consumed)
                + Seq::empty());
        }
        samples
    }
}


/// What a feed leaves pending: the bytes after the last line end when there
/// are at most `max_pending()` of them, nothing otherwise.
pub open spec fn left_pending(b: Seq<u8>) -> Seq<u8> {
    if unterminated_rest(b).len() > max_pending() {
        Seq::empty()
    } else {
        unterminated_rest(b)
    }
}

/// After a feed the buffer never holds a line end nor more than
/// `max_pending()` bytes.
pub proof fn lemma_pending_stays_short(b: Seq<u8>)
    ensures
        left_pending(b).len() <= max_pending(),
        forall|m: int| 0 <= m < left_pending(b).len() ==> !is_line_end(#[trigger] left_pending(b)[m]),
{
    lemma_lines_well_framed(b);
    if unterminated_rest(b).len() <= max_pending() {
        assert forall|m: int| 0 <= m < left_pending(b).len() implies !is_line_end(
            #[trigger] left_pending(b)[m],
        ) by {
            assert(left_pending(b)[m] == unterminated_rest(b)[m]);
        }
    }
}

} // verus!
