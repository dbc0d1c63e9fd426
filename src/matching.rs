//! Searching text with the `regex` crate, and cutting text at the byte
//! offsets that a search reports.
use vstd::prelude::*;
use vstd::string::StringSliceAdditionalSpecFns;
use vstd::utf8::{
    decode_utf8, encode_utf8, encode_utf8_decode_utf8, encode_utf8_valid_utf8,
    is_char_boundary, is_char_boundary_iff_not_is_continuation_byte,
    is_char_boundary_start_end_of_seq, valid_utf8_split,
};

verus! {

#[verifier::external_type_specification]
#[verifier::external_body]
pub struct ExRegex(regex::Regex);

#[verifier::external_type_specification]
#[verifier::external_body]
pub struct ExRegexError(regex::Error);

/// Whether `regex::Regex::new` accepts a pattern.
pub uninterp spec fn regex_compiles(pattern: Seq<char>) -> bool;

/// Whether the regex compiled from `pattern` matches somewhere in `text`.
pub uninterp spec fn regex_finds(pattern: Seq<char>, text: Seq<char>) -> bool;

/// The byte spans of the successive matches of the regex compiled from
/// `pattern` in `text`.
pub uninterp spec fn regex_match_spans(pattern: Seq<char>, text: Seq<char>) -> Seq<(usize, usize)>;

/// Relies on `regex::Regex::new`: compiles a pattern; whether it fails
/// depends on the pattern alone.
#[verifier::external_body]
fn compile_regex(pattern: &str) -> (r: Result<regex::Regex, regex::Error>)
    ensures
        r is Ok <==> regex_compiles(pattern@),
{
    regex::Regex::new(pattern)
}

/// A compiled regular expression, together with the pattern it was
/// compiled from.
pub struct Matcher {
    re: regex::Regex,
    source: Ghost<Seq<char>>,
}

impl Matcher {
    /// The pattern this matcher was compiled from.
    pub closed spec fn pattern(&self) -> Seq<char> {
        self.source@
    }

    /// Compiles `pattern`.
    pub fn compile(pattern: &str) -> (r: Result<Matcher, regex::Error>)
        ensures
            r is Ok <==> regex_compiles(pattern@),
            r is Ok ==> r->Ok_0.pattern() == pattern@,
    {
        match compile_regex(pattern) {
            Ok(re) => Ok(Matcher { re, source: Ghost(pattern@) }),
            Err(e) => Err(e),
        }
    }
}

/// Relies on `regex::Regex::is_match`: whether the regex matches anywhere
/// in `text`, which depends on its pattern and `text` alone.
#[verifier::external_body]
pub(crate) fn regex_is_match(m: &Matcher, text: &str) -> (r: bool)
    ensures
        r == regex_finds(m.pattern(), text@),
{
    m.re.is_match(text)
}

/// The UTF-8 encoding of `text`.
pub open spec fn bytes_of(text: Seq<char>) -> Seq<u8> {
    encode_utf8(text)
}

/// The characters of `text` whose encoding lies between byte offsets `a` and `b`.
pub open spec fn chars_between(text: Seq<char>, a: int, b: int) -> Seq<char> {
    decode_utf8(bytes_of(text).subrange(a, b))
}

/// Whether `(a, b)` delimits whole characters of `text`.
pub open spec fn is_span(text: Seq<char>, a: int, b: int) -> bool {
    &&& 0 <= a <= b <= bytes_of(text).len()
    &&& is_char_boundary(bytes_of(text), a)
    &&& is_char_boundary(bytes_of(text), b)
}

/// Whether `spans` are spans of `text`, in order and without overlap.
pub open spec fn spans_wf(text: Seq<char>, spans: Seq<(usize, usize)>) -> bool {
    &&& forall|i: int| 0 <= i < spans.len() ==> is_span(text, #[trigger] spans[i].0 as int, spans[i].1 as int)
    &&& forall|i: int| 0 < i < spans.len() ==> spans[i - 1].1 <= #[trigger] spans[i].0
}

/// Relies on `regex::Regex::find_iter`, `Match::start` and `Match::end`:
/// successive non-overlapping matches, each with `start <= end`, on
/// character boundaries of the haystack; they depend on the pattern and
/// the haystack alone.
#[verifier::external_body]
pub(crate) fn find_spans(m: &Matcher, text: &str) -> (r: Vec<(usize, usize)>)
    ensures
        r@ == regex_match_spans(m.pattern(), text@),
        spans_wf(text@, r@),
{
    m.re.find_iter(text).map(|mt| (mt.start(), mt.end())).collect()
}

proof fn lemma_boundary_in_rest(bytes: Seq<u8>, a: int, b: int)
    requires
        vstd::utf8::valid_utf8(bytes),
        0 <= a <= b <= bytes.len(),
        is_char_boundary(bytes, a),
        is_char_boundary(bytes, b),
    ensures
        vstd::utf8::valid_utf8(bytes.subrange(a, bytes.len() as int)),
        is_char_boundary(bytes.subrange(a, bytes.len() as int), b - a),
{
    let rest = bytes.subrange(a, bytes.len() as int);
    valid_utf8_split(bytes, a);
    if b == bytes.len() {
        is_char_boundary_start_end_of_seq(rest);
        assert(rest.len() == b - a);
    } else if b == a {
        assert(is_char_boundary(rest, 0));
    } else {
        is_char_boundary_iff_not_is_continuation_byte(bytes, b);
        is_char_boundary_iff_not_is_continuation_byte(rest, b - a);
        assert(rest[b - a] == bytes[b]);
    }
}

/// The part of `text` between byte offsets `a` and `b`.
pub fn slice_between(text: &str, a: usize, b: usize) -> (r: &str)
    requires
        is_span(text@, a as int, b as int),
    ensures
        r@ == chars_between(text@, a as int, b as int),
{
    proof {
        encode_utf8_valid_utf8(text@);
        lemma_boundary_in_rest(bytes_of(text@), a as int, b as int);
    }
    let (_, rest) = text.split_at(a);
    let (mid, _) = rest.split_at(b - a);
    proof {
        assert(mid.spec_bytes() =~= bytes_of(text@).subrange(a as int, b as int));
        encode_utf8_decode_utf8(mid@);
    }
    mid
}

/// The part of `text` from byte offset `a` to its end.
pub fn slice_from(text: &str, a: usize) -> (r: &str)
    requires
        is_span(text@, a as int, bytes_of(text@).len() as int),
    ensures
        r@ == chars_between(text@, a as int, bytes_of(text@).len() as int),
{
    let (_, rest) = text.split_at(a);
    proof {
        assert(rest.spec_bytes() =~= bytes_of(text@).subrange(a as int, bytes_of(text@).len() as int));
        encode_utf8_decode_utf8(rest@);
    }
    rest
}

} // verus!
