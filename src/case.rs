//! The six case styles: recognition pattern, segmentation and assembly.
use vstd::prelude::*;
use vstd::string::*;
use crate::letters::{lower, upper, is_upper, to_lower, to_upper, char_is_upper};
use crate::text::{chars_of, push_char};

verus! {

/// A convention for writing several words as one identifier.
#[derive(Debug, Clone, Copy, PartialEq, Eq, Structural)]
pub enum CaseFormat {
    /// camelCase: firstName, lastName
    CamelCase,
    /// PascalCase: FirstName, LastName
    PascalCase,
    /// snake_case: first_name, last_name
    SnakeCase,
    /// SCREAMING_SNAKE_CASE: FIRST_NAME, LAST_NAME
    ScreamingSnakeCase,
    /// kebab-case: first-name, last-name
    KebabCase,
    /// SCREAMING-KEBAB-CASE: FIRST-NAME, LAST-NAME
    ScreamingKebabCase,
}

/// The views of a list of strings.
pub open spec fn views(ws: Seq<String>) -> Seq<Seq<char>> {
    ws.map_values(|w: String| w@)
}

// ---------------------------------------------------------------------------
// Segmentation

/// Scans `s` left to right: an uppercase letter closes the word being
/// gathered, if any, and opens the next one. Returns the closed words and
/// the word still being gathered.
pub open spec fn hump_scan(s: Seq<char>) -> (Seq<Seq<char>>, Seq<char>)
    decreases s.len(),
{
    if s.len() == 0 {
        (Seq::empty(), Seq::empty())
    } else {
        let (done, cur) = hump_scan(s.drop_last());
        let c = s.last();
        if is_upper(c) && cur.len() > 0 {
            (done.push(cur), seq![c])
        } else {
            (done, cur.push(c))
        }
    }
}

/// The words of a camel or Pascal identifier, as written.
pub open spec fn humps(s: Seq<char>) -> Seq<Seq<char>> {
    let (done, cur) = hump_scan(s);
    if cur.len() > 0 {
        done.push(cur)
    } else {
        done
    }
}

/// Scans `s` left to right, cutting at each `sep`. Returns the non-empty
/// pieces closed so far and the piece still being gathered.
pub open spec fn piece_scan(s: Seq<char>, sep: char) -> (Seq<Seq<char>>, Seq<char>)
    decreases s.len(),
{
    if s.len() == 0 {
        (Seq::empty(), Seq::empty())
    } else {
        let (done, cur) = piece_scan(s.drop_last(), sep);
        let c = s.last();
        if c == sep {
            if cur.len() > 0 {
                (done.push(cur), Seq::empty())
            } else {
                (done, Seq::empty())
            }
        } else {
            (done, cur.push(c))
        }
    }
}

/// The non-empty pieces of `s` between occurrences of `sep`.
pub open spec fn pieces(s: Seq<char>, sep: char) -> Seq<Seq<char>> {
    let (done, cur) = piece_scan(s, sep);
    if cur.len() > 0 {
        done.push(cur)
    } else {
        done
    }
}

/// Each word in lowercase.
pub open spec fn lower_all(ws: Seq<Seq<char>>) -> Seq<Seq<char>> {
    ws.map_values(|w: Seq<char>| lower(w))
}

/// Each word in uppercase.
pub open spec fn upper_all(ws: Seq<Seq<char>>) -> Seq<Seq<char>> {
    ws.map_values(|w: Seq<char>| upper(w))
}

/// The separator of the styles that have one.
pub open spec fn separator(f: CaseFormat) -> char {
    match f {
        CaseFormat::SnakeCase | CaseFormat::ScreamingSnakeCase => '_',
        _ => '-',
    }
}

/// Whether words follow each other without a separator.
pub open spec fn is_humped(f: CaseFormat) -> bool {
    f == CaseFormat::CamelCase || f == CaseFormat::PascalCase
}

/// The lowercase words of `s`, read in style `f`.
pub open spec fn split_spec(f: CaseFormat, s: Seq<char>) -> Seq<Seq<char>> {
    if is_humped(f) {
        lower_all(humps(s))
    } else {
        lower_all(pieces(s, separator(f)))
    }
}

// ---------------------------------------------------------------------------
// Assembly

/// The words one after the other.
pub open spec fn concat(ws: Seq<Seq<char>>) -> Seq<char>
    decreases ws.len(),
{
    if ws.len() == 0 {
        Seq::empty()
    } else {
        concat(ws.drop_last()) + ws.last()
    }
}

/// The words with `sep` between each two.
pub open spec fn join_with(ws: Seq<Seq<char>>, sep: char) -> Seq<char>
    decreases ws.len(),
{
    if ws.len() == 0 {
        Seq::empty()
    } else if ws.len() == 1 {
        ws[0]
    } else {
        join_with(ws.drop_last(), sep).push(sep) + ws.last()
    }
}

/// `w` with its first character in uppercase.
pub open spec fn capitalize(w: Seq<char>) -> Seq<char> {
    if w.len() == 0 {
        w
    } else {
        upper(seq![w[0]]) + w.drop_first()
    }
}

pub open spec fn capitalize_all(ws: Seq<Seq<char>>) -> Seq<Seq<char>> {
    ws.map_values(|w: Seq<char>| capitalize(w))
}

/// The identifier for a non-empty list of words in style `f`, without affixes.
pub open spec fn join_body(f: CaseFormat, ws: Seq<Seq<char>>) -> Seq<char> {
    match f {
        CaseFormat::CamelCase => lower(ws[0]) + concat(capitalize_all(ws.drop_first())),
        CaseFormat::PascalCase => concat(capitalize_all(ws)),
        CaseFormat::SnakeCase => join_with(lower_all(ws), '_'),
        CaseFormat::ScreamingSnakeCase => join_with(upper_all(ws), '_'),
        CaseFormat::KebabCase => join_with(lower_all(ws), '-'),
        CaseFormat::ScreamingKebabCase => join_with(upper_all(ws), '-'),
    }
}

/// `prefix`, the identifier for `ws` in style `f`, then `suffix`; nothing at
/// all for no words.
pub open spec fn join_spec(f: CaseFormat, ws: Seq<Seq<char>>, prefix: Seq<char>, suffix: Seq<char>) -> Seq<char> {
    if ws.len() == 0 {
        Seq::empty()
    } else {
        prefix + join_body(f, ws) + suffix
    }
}

impl CaseFormat {
    /// The pattern, in the syntax of the `regex` crate, that finds
    /// identifiers of this style in running text.
    pub fn pattern(&self) -> (r: &'static str)
        ensures
            r@ == recognition_pattern(*self),
    {
        match self {
            CaseFormat::CamelCase => r"\b[a-z]+(?:[A-Z][a-z0-9]*)+\b",
            CaseFormat::PascalCase => r"\b[A-Z][a-z0-9]+(?:[A-Z][a-z0-9]*)+\b",
            CaseFormat::SnakeCase => r"\b[a-z]+(?:_[a-z0-9]+)+\b",
            CaseFormat::ScreamingSnakeCase => r"\b[A-Z]+(?:_[A-Z0-9]+)+\b",
            CaseFormat::KebabCase => r"\b[a-z]+(?:-[a-z0-9]+)+\b",
            CaseFormat::ScreamingKebabCase => r"\b[A-Z]+(?:-[A-Z0-9]+)+\b",
        }
    }

    /// Splits `text` into its lowercase words according to this style.
    pub fn split_words(&self, text: &str) -> (r: Vec<String>)
        ensures
            views(r@) == split_spec(*self, text@),
    {
        match self {
            CaseFormat::CamelCase | CaseFormat::PascalCase => split_humps(text),
            CaseFormat::SnakeCase | CaseFormat::ScreamingSnakeCase => split_pieces(text, '_'),
            CaseFormat::KebabCase | CaseFormat::ScreamingKebabCase => split_pieces(text, '-'),
        }
    }

    /// Joins `words` into one identifier of this style, between `prefix` and
    /// `suffix`. No words give the empty string, without the affixes.
    pub fn join_words(&self, words: &[String], prefix: &str, suffix: &str) -> (r: String)
        ensures
            r@ == join_spec(*self, views(words@), prefix@, suffix@),
    {
        if words.len() == 0 {
            return String::new();
        }
        let body = match self {
            CaseFormat::CamelCase => join_camel(words),
            CaseFormat::PascalCase => join_pascal(words),
            CaseFormat::SnakeCase => join_separated(words, '_', false),
            CaseFormat::ScreamingSnakeCase => join_separated(words, '_', true),
            CaseFormat::KebabCase => join_separated(words, '-', false),
            CaseFormat::ScreamingKebabCase => join_separated(words, '-', true),
        };
        let mut result = String::from_str(prefix);
        result.append(body.as_str());
        result.append(suffix);
        result
    }
}

/// `w` with its first character in uppercase.
pub fn capitalize_word(w: &str) -> (r: String)
    ensures
        r@ == capitalize(w@),
{
    let cs = chars_of(w);
    if cs.len() == 0 {
        return String::new();
    }
    let mut head = String::new();
    push_char(&mut head, cs[0]);
    let mut r = to_upper(head.as_str());
    let mut i: usize = 1;
    while i < cs.len()
        invariant
            1 <= i <= cs.len(),
            cs@ == w@,
            head@ == seq![w@[0]],
            r@ == upper(head@) + w@.subrange(1, i as int),
        decreases cs.len() - i,
    {
        push_char(&mut r, cs[i]);
        proof {
            assert(w@.subrange(1, i + 1) =~= w@.subrange(1, i as int).push(w@[i as int]));
        }
        i = i + 1;
    }
    proof {
        assert(w@.subrange(1, i as int) =~= w@.drop_first());
    }
    r
}

fn join_camel(words: &[String]) -> (r: String)
    requires
        words.len() > 0,
    ensures
        r@ == join_body(CaseFormat::CamelCase, views(words@)),
{
    let ghost ws = views(words@);
    let mut r = to_lower(words[0].as_str());
    let mut i: usize = 1;
    while i < words.len()
        invariant
            1 <= i <= words.len(),
            ws == views(words@),
            r@ == lower(ws[0]) + concat(capitalize_all(ws.subrange(1, i as int))),
        decreases words.len() - i,
    {
        let w = capitalize_word(words[i].as_str());
        proof {
            let xs = capitalize_all(ws.subrange(1, i + 1));
            assert(xs.drop_last() =~= capitalize_all(ws.subrange(1, i as int)));
            assert(lower(ws[0]) + concat(capitalize_all(ws.subrange(1, i as int))) + w@
                =~= lower(ws[0]) + (concat(capitalize_all(ws.subrange(1, i as int))) + w@));
        }
        r.append(w.as_str());
        i = i + 1;
    }
    proof {
        assert(ws.subrange(1, i as int) =~= ws.drop_first());
    }
    r
}

fn join_pascal(words: &[String]) -> (r: String)
    ensures
        r@ == join_body(CaseFormat::PascalCase, views(words@)),
{
    let ghost ws = views(words@);
    let mut r = String::new();
    let mut i: usize = 0;
    while i < words.len()
        invariant
            i <= words.len(),
            ws == views(words@),
            r@ == concat(capitalize_all(ws.take(i as int))),
        decreases words.len() - i,
    {
        let w = capitalize_word(words[i].as_str());
        proof {
            let xs = capitalize_all(ws.take(i + 1));
            assert(xs.drop_last() =~= capitalize_all(ws.take(i as int)));
        }
        r.append(w.as_str());
        i = i + 1;
    }
    proof {
        assert(ws.take(i as int) =~= ws);
    }
    r
}

/// Each word in lower or upper case as `loud` says, with `sep` between.
fn join_separated(words: &[String], sep: char, loud: bool) -> (r: String)
    requires
        words.len() > 0,
    ensures
        r@ == join_with(
            if loud {
                upper_all(views(words@))
            } else {
                lower_all(views(words@))
            },
            sep,
        ),
{
    let ghost ws = views(words@);
    let ghost ts = if loud {
        upper_all(ws)
    } else {
        lower_all(ws)
    };
    let mut r = String::new();
    let mut i: usize = 0;
    while i < words.len()
        invariant
            i <= words.len(),
            ws == views(words@),
            ts == (if loud { upper_all(ws) } else { lower_all(ws) }),
            r@ == join_with(ts.take(i as int), sep),
        decreases words.len() - i,
    {
        let w = if loud {
            to_upper(words[i].as_str())
        } else {
            to_lower(words[i].as_str())
        };
        proof {
            assert(ts.take(i + 1).drop_last() =~= ts.take(i as int));
        }
        if i > 0 {
            push_char(&mut r, sep);
        }
        r.append(w.as_str());
        i = i + 1;
    }
    proof {
        assert(ts.take(i as int) =~= ts);
    }
    r
}

/// The style chosen by a set of flags, one per style: the first flag set,
/// in the order camel, Pascal, snake, screaming snake, kebab; screaming
/// kebab when none of those is set.
pub fn determine_case_format(
    camel: bool,
    pascal: bool,
    snake: bool,
    screaming_snake: bool,
    kebab: bool,
    screaming_kebab: bool,
) -> (r: CaseFormat)
    ensures
        r == if camel {
            CaseFormat::CamelCase
        } else if pascal {
            CaseFormat::PascalCase
        } else if snake {
            CaseFormat::SnakeCase
        } else if screaming_snake {
            CaseFormat::ScreamingSnakeCase
        } else if kebab {
            CaseFormat::KebabCase
        } else {
            CaseFormat::ScreamingKebabCase
        },
{
    if camel {
        CaseFormat::CamelCase
    } else if pascal {
        CaseFormat::PascalCase
    } else if snake {
        CaseFormat::SnakeCase
    } else if screaming_snake {
        CaseFormat::ScreamingSnakeCase
    } else if kebab {
        CaseFormat::KebabCase
    } else {
        CaseFormat::ScreamingKebabCase
    }
}

/// The pattern text of each style.
pub open spec fn recognition_pattern(f: CaseFormat) -> Seq<char> {
    match f {
        CaseFormat::CamelCase => r"\b[a-z]+(?:[A-Z][a-z0-9]*)+\b"@,
        CaseFormat::PascalCase => r"\b[A-Z][a-z0-9]+(?:[A-Z][a-z0-9]*)+\b"@,
        CaseFormat::SnakeCase => r"\b[a-z]+(?:_[a-z0-9]+)+\b"@,
        CaseFormat::ScreamingSnakeCase => r"\b[A-Z]+(?:_[A-Z0-9]+)+\b"@,
        CaseFormat::KebabCase => r"\b[a-z]+(?:-[a-z0-9]+)+\b"@,
        CaseFormat::ScreamingKebabCase => r"\b[A-Z]+(?:-[A-Z0-9]+)+\b"@,
    }
}

fn split_humps(text: &str) -> (r: Vec<String>)
    ensures
        views(r@) == lower_all(humps(text@)),
{
    let cs = chars_of(text);
    let mut words: Vec<String> = Vec::new();
    let mut current = String::new();
    let mut i: usize = 0;
    while i < cs.len()
        invariant
            i <= cs.len(),
            cs@ == text@,
            views(words@) == lower_all(hump_scan(text@.take(i as int)).0),
            current@ == hump_scan(text@.take(i as int)).1,
        decreases cs.len() - i,
    {
        let c = cs[i];
        proof {
            assert(text@.take(i + 1).drop_last() =~= text@.take(i as int));
        }
        if char_is_upper(c) && !current.as_str().is_empty() {
            let w = to_lower(current.as_str());
            proof {
                assert(views(words@.push(w)) =~= views(words@).push(w@));
                assert(lower_all(hump_scan(text@.take(i as int)).0.push(current@)) =~= lower_all(
                    hump_scan(text@.take(i as int)).0,
                ).push(lower(current@)));
            }
            words.push(w);
            current = String::new();
        }
        push_char(&mut current, c);
        i = i + 1;
    }
    proof {
        assert(text@.take(i as int) =~= text@);
    }
    if !current.as_str().is_empty() {
        let w = to_lower(current.as_str());
        proof {
            assert(views(words@.push(w)) =~= views(words@).push(w@));
            assert(lower_all(hump_scan(text@).0.push(current@)) =~= lower_all(
                hump_scan(text@).0,
            ).push(lower(current@)));
        }
        words.push(w);
    }
    words
}

fn split_pieces(text: &str, sep: char) -> (r: Vec<String>)
    ensures
        views(r@) == lower_all(pieces(text@, sep)),
{
    let cs = chars_of(text);
    let mut words: Vec<String> = Vec::new();
    let mut current = String::new();
    let mut i: usize = 0;
    while i < cs.len()
        invariant
            i <= cs.len(),
            cs@ == text@,
            views(words@) == lower_all(piece_scan(text@.take(i as int), sep).0),
            current@ == piece_scan(text@.take(i as int), sep).1,
        decreases cs.len() - i,
    {
        let c = cs[i];
        proof {
            assert(text@.take(i + 1).drop_last() =~= text@.take(i as int));
        }
        if c == sep {
            if !current.as_str().is_empty() {
                let w = to_lower(current.as_str());
                proof {
                    assert(views(words@.push(w)) =~= views(words@).push(w@));
                    assert(lower_all(piece_scan(text@.take(i as int), sep).0.push(current@))
                        =~= lower_all(piece_scan(text@.take(i as int), sep).0).push(lower(current@)));
                }
                words.push(w);
            }
            current = String::new();
        } else {
            push_char(&mut current, c);
        }
        i = i + 1;
    }
    proof {
        assert(text@.take(i as int) =~= text@);
    }
    if !current.as_str().is_empty() {
        let w = to_lower(current.as_str());
        proof {
            assert(views(words@.push(w)) =~= views(words@).push(w@));
            assert(lower_all(piece_scan(text@, sep).0.push(current@)) =~= lower_all(
                piece_scan(text@, sep).0,
            ).push(lower(current@)));
        }
        words.push(w);
    }
    words
}

} // verus!
