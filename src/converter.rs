//! Rewriting the identifiers of one case style, wherever they stand in a
//! text, into another case style.
use vstd::prelude::*;
use vstd::string::StringExecFns;
use vstd::utf8::{encode_utf8_valid_utf8, is_char_boundary, is_char_boundary_start_end_of_seq};
use crate::case::{CaseFormat, join_spec, recognition_pattern, split_spec, views};
use crate::matching::{
    Matcher, bytes_of, chars_between, find_spans, is_span, regex_compiles, regex_finds, regex_is_match,
    regex_match_spans,
    slice_between, slice_from, spans_wf,
};
use crate::files::{has_listed_extension, listed_extension};
use crate::text::{chars_range, char_count, ends_with, has_prefix, has_suffix, starts_with};

verus! {

#[verifier::external_type_specification]
#[verifier::external_body]
pub struct ExGlobPattern(glob::Pattern);

#[verifier::external_type_specification]
#[verifier::external_body]
pub struct ExGlobPatternError(glob::PatternError);

/// Whether `glob::Pattern::new` accepts a pattern.
pub uninterp spec fn glob_compiles(pattern: Seq<char>) -> bool;

/// Whether the whole of `s` matches the shell pattern `pattern`.
pub uninterp spec fn glob_accepts(pattern: Seq<char>, s: Seq<char>) -> bool;

/// Relies on `glob::Pattern::new`: parses a shell pattern; whether it fails
/// depends on the pattern alone.
#[verifier::external_body]
fn compile_glob(pattern: &str) -> (r: Result<glob::Pattern, glob::PatternError>)
    ensures
        r is Ok <==> glob_compiles(pattern@),
{
    glob::Pattern::new(pattern)
}

/// A parsed shell pattern, together with the text it was parsed from.
pub struct GlobMatcher {
    pat: glob::Pattern,
    source: Ghost<Seq<char>>,
}

impl GlobMatcher {
    /// The pattern text this matcher was parsed from.
    pub closed spec fn pattern(&self) -> Seq<char> {
        self.source@
    }

    /// Parses `pattern`.
    pub fn compile(pattern: &str) -> (r: Result<GlobMatcher, glob::PatternError>)
        ensures
            r is Ok <==> glob_compiles(pattern@),
            r is Ok ==> r->Ok_0.pattern() == pattern@,
    {
        match compile_glob(pattern) {
            Ok(pat) => Ok(GlobMatcher { pat, source: Ghost(pattern@) }),
            Err(e) => Err(e),
        }
    }
}

/// Relies on `glob::Pattern::matches`: whether the whole of `s` matches,
/// which depends on the pattern and `s` alone.
#[verifier::external_body]
fn glob_matches(g: &GlobMatcher, s: &str) -> (r: bool)
    ensures
        r == glob_accepts(g.pattern(), s@),
{
    g.pat.matches(s)
}

/// Why a converter could not be built.
#[derive(Debug, Clone, Copy, PartialEq, Eq, Structural)]
pub enum ConvertError {
    /// A replacement for a prefix was given without the prefix to replace.
    ReplacePrefixWithoutFrom,
    /// A replacement for a suffix was given without the suffix to replace.
    ReplaceSuffixWithoutFrom,
    /// The recognition pattern of the source style did not compile.
    InvalidSourcePattern,
    /// The file name pattern is not a valid glob.
    InvalidGlob,
    /// The word filter is not a valid regular expression.
    InvalidWordFilter,
}

/// The result of rewriting one text.
pub struct MatchOutcome {
    /// Whether the text differs from the input.
    pub changed: bool,
    /// The text after rewriting.
    pub text: String,
}

/// A configured conversion of identifiers from one case style to another.
pub struct CaseConverter {
    /// The style of the identifiers to rewrite.
    pub from_format: CaseFormat,
    /// The style they are rewritten into.
    pub to_format: CaseFormat,
    /// Extensions, with their dot, of the files looked at.
    pub file_extensions: Vec<String>,
    /// Whether directories are walked recursively.
    pub recursive: bool,
    /// Whether files are left untouched.
    pub dry_run: bool,
    /// Added before every converted identifier.
    pub prefix: String,
    /// Added after every converted identifier.
    pub suffix: String,
    /// Removed from the front of an identifier before conversion.
    pub strip_prefix: Option<String>,
    /// Removed from the end of an identifier before conversion.
    pub strip_suffix: Option<String>,
    /// A leading part to replace before conversion.
    pub replace_prefix_from: Option<String>,
    /// What replaces `replace_prefix_from`.
    pub replace_prefix_to: Option<String>,
    /// A trailing part to replace before conversion.
    pub replace_suffix_from: Option<String>,
    /// What replaces `replace_suffix_from`.
    pub replace_suffix_to: Option<String>,
    /// Files must match this by name or relative path.
    pub glob_pattern: Option<GlobMatcher>,
    /// Identifiers are converted only when their prepared form matches this.
    pub word_filter: Option<Matcher>,
    /// Finds identifiers of the source style.
    pub source_pattern: Matcher,
}

pub open spec fn opt_view(o: Option<String>) -> Option<Seq<char>> {
    match o {
        Some(s) => Some(s@),
        None => None,
    }
}

/// `s` without a leading `p`, if it has one.
pub open spec fn strip_front(s: Seq<char>, p: Option<Seq<char>>) -> Seq<char> {
    match p {
        Some(p) => if starts_with(s, p) {
            s.subrange(p.len() as int, s.len() as int)
        } else {
            s
        },
        None => s,
    }
}

/// `s` without a trailing `p`, if it has one.
pub open spec fn strip_back(s: Seq<char>, p: Option<Seq<char>>) -> Seq<char> {
    match p {
        Some(p) => if ends_with(s, p) {
            s.subrange(0, s.len() - p.len())
        } else {
            s
        },
        None => s,
    }
}

/// `s` with a leading `from` replaced by `to`, when both are given.
pub open spec fn replace_front(s: Seq<char>, from: Option<Seq<char>>, to: Option<Seq<char>>) -> Seq<char> {
    match (from, to) {
        (Some(f), Some(t)) => if starts_with(s, f) {
            t + s.subrange(f.len() as int, s.len() as int)
        } else {
            s
        },
        _ => s,
    }
}

/// `s` with a trailing `from` replaced by `to`, when both are given.
pub open spec fn replace_back(s: Seq<char>, from: Option<Seq<char>>, to: Option<Seq<char>>) -> Seq<char> {
    match (from, to) {
        (Some(f), Some(t)) => if ends_with(s, f) {
            s.subrange(0, s.len() - f.len()) + t
        } else {
            s
        },
        _ => s,
    }
}

/// The file extensions looked at when none are given.
pub open spec fn default_extensions() -> Seq<Seq<char>> {
    seq![".c"@, ".h"@, ".py"@, ".md"@, ".js"@, ".ts"@, ".java"@, ".cpp"@, ".hpp"@]
}

/// The byte offset where the gap before span `k` begins.
pub open spec fn gap_start(spans: Seq<(usize, usize)>, k: int) -> int {
    if k <= 0 {
        0
    } else {
        spans[k - 1].1 as int
    }
}

impl CaseConverter {
    /// An identifier after the prefix and suffix edits, before splitting.
    pub open spec fn prepared(&self, name: Seq<char>) -> Seq<char> {
        let s1 = strip_front(name, opt_view(self.strip_prefix));
        let s2 = strip_back(s1, opt_view(self.strip_suffix));
        let s3 = replace_front(s2, opt_view(self.replace_prefix_from), opt_view(self.replace_prefix_to));
        replace_back(s3, opt_view(self.replace_suffix_from), opt_view(self.replace_suffix_to))
    }

    /// What replaces the identifier `name`, given whether the word filter
    /// accepted its prepared form. Without a filter, every identifier counts
    /// as accepted.
    pub open spec fn converted(&self, name: Seq<char>, accepted: bool) -> Seq<char> {
        if self.word_filter is Some && !accepted {
            name
        } else {
            join_spec(
                self.to_format,
                split_spec(self.from_format, self.prepared(name)),
                self.prefix@,
                self.suffix@,
            )
        }
    }

    /// The rewritten text up to the end of span `k`.
    pub open spec fn rewritten_upto(
        &self,
        text: Seq<char>,
        spans: Seq<(usize, usize)>,
        verdicts: Seq<bool>,
        k: int,
    ) -> Seq<char>
        decreases k,
    {
        if k <= 0 {
            Seq::empty()
        } else {
            self.rewritten_upto(text, spans, verdicts, k - 1) + chars_between(
                text,
                gap_start(spans, k - 1),
                spans[k - 1].0 as int,
            ) + self.converted(
                chars_between(text, spans[k - 1].0 as int, spans[k - 1].1 as int),
                verdicts[k - 1],
            )
        }
    }

    /// `text` with the identifier in each span replaced, the text between
    /// spans kept as it is.
    pub open spec fn rewritten(&self, text: Seq<char>, spans: Seq<(usize, usize)>, verdicts: Seq<bool>) -> Seq<char> {
        self.rewritten_upto(text, spans, verdicts, spans.len() as int) + chars_between(
            text,
            gap_start(spans, spans.len() as int),
            bytes_of(text).len() as int,
        )
    }

    /// The word filter's verdict on the identifier `name`: whether the
    /// filter matches its prepared form; always an acceptance without a
    /// filter.
    pub open spec fn verdict(&self, name: Seq<char>) -> bool {
        match self.word_filter {
            Some(m) => regex_finds(m.pattern(), self.prepared(name)),
            None => true,
        }
    }

    /// The spans where the source style's pattern matches in `text`.
    pub open spec fn found_spans(&self, text: Seq<char>) -> Seq<(usize, usize)> {
        regex_match_spans(self.source_pattern.pattern(), text)
    }

    /// The filter's verdict on the identifier in each of `spans`.
    pub open spec fn verdicts_for(&self, text: Seq<char>, spans: Seq<(usize, usize)>) -> Seq<bool> {
        Seq::new(spans.len(), |i: int| self.verdict(chars_between(text, spans[i].0 as int, spans[i].1 as int)))
    }

    /// `text` with every identifier of the source style converted.
    pub open spec fn rewrite_spec(&self, text: Seq<char>) -> Seq<char> {
        self.rewritten(text, self.found_spans(text), self.verdicts_for(text, self.found_spans(text)))
    }

    /// Builds a converter. Fails when a replacement is given without what it
    /// replaces, or when a pattern does not compile; the checks run in that
    /// order.
    pub fn new(
        from_format: CaseFormat,
        to_format: CaseFormat,
        file_extensions: Option<Vec<String>>,
        recursive: bool,
        dry_run: bool,
        prefix: String,
        suffix: String,
        strip_prefix: Option<String>,
        strip_suffix: Option<String>,
        replace_prefix_from: Option<String>,
        replace_prefix_to: Option<String>,
        replace_suffix_from: Option<String>,
        replace_suffix_to: Option<String>,
        glob_pattern: Option<String>,
        word_filter: Option<String>,
    ) -> (r: Result<CaseConverter, ConvertError>)
        ensures
            (replace_prefix_to is Some && replace_prefix_from is None) ==> r == Err::<CaseConverter, ConvertError>(ConvertError::ReplacePrefixWithoutFrom),
            !(replace_prefix_to is Some && replace_prefix_from is None)
                && (replace_suffix_to is Some && replace_suffix_from is None)
                ==> r == Err::<CaseConverter, ConvertError>(ConvertError::ReplaceSuffixWithoutFrom),
            !(replace_prefix_to is Some && replace_prefix_from is None)
                && !(replace_suffix_to is Some && replace_suffix_from is None)
                ==> {
                    &&& !regex_compiles(recognition_pattern(from_format)) ==> r == Err::<CaseConverter, ConvertError>(ConvertError::InvalidSourcePattern)
                    &&& regex_compiles(recognition_pattern(from_format)) && (glob_pattern is Some && !glob_compiles(glob_pattern->0@))
                        ==> r == Err::<CaseConverter, ConvertError>(ConvertError::InvalidGlob)
                    &&& regex_compiles(recognition_pattern(from_format)) && !(glob_pattern is Some && !glob_compiles(glob_pattern->0@))
                        && (word_filter is Some && !regex_compiles(word_filter->0@))
                        ==> r == Err::<CaseConverter, ConvertError>(ConvertError::InvalidWordFilter)
                    &&& regex_compiles(recognition_pattern(from_format))
                        && !(glob_pattern is Some && !glob_compiles(glob_pattern->0@))
                        && !(word_filter is Some && !regex_compiles(word_filter->0@))
                        ==> r is Ok
                },
            r is Ok ==> {
                let c = r->Ok_0;
                &&& c.from_format == from_format
                &&& c.to_format == to_format
                &&& views(c.file_extensions@) == match file_extensions {
                    Some(v) => views(v@),
                    None => default_extensions(),
                }
                &&& c.recursive == recursive
                &&& c.dry_run == dry_run
                &&& c.prefix@ == prefix@
                &&& c.suffix@ == suffix@
                &&& opt_view(c.strip_prefix) == opt_view(strip_prefix)
                &&& opt_view(c.strip_suffix) == opt_view(strip_suffix)
                &&& opt_view(c.replace_prefix_from) == opt_view(replace_prefix_from)
                &&& opt_view(c.replace_prefix_to) == opt_view(replace_prefix_to)
                &&& opt_view(c.replace_suffix_from) == opt_view(replace_suffix_from)
                &&& opt_view(c.replace_suffix_to) == opt_view(replace_suffix_to)
                &&& c.glob_pattern is Some <==> glob_pattern is Some
                &&& c.glob_pattern is Some ==> c.glob_pattern->0.pattern() == glob_pattern->0@
                &&& c.word_filter is Some <==> word_filter is Some
                &&& c.word_filter is Some ==> c.word_filter->0.pattern() == word_filter->0@
                &&& c.source_pattern.pattern() == recognition_pattern(from_format)
            },
    {
        if replace_prefix_to.is_some() && replace_prefix_from.is_none() {
            return Err(ConvertError::ReplacePrefixWithoutFrom);
        }
        if replace_suffix_to.is_some() && replace_suffix_from.is_none() {
            return Err(ConvertError::ReplaceSuffixWithoutFrom);
        }
        let file_extensions = match file_extensions {
            Some(v) => v,
            None => default_extension_list(),
        };
        let source_pattern = match Matcher::compile(from_format.pattern()) {
            Ok(re) => re,
            Err(_) => return Err(ConvertError::InvalidSourcePattern),
        };
        let glob_pattern = match glob_pattern {
            Some(p) => match GlobMatcher::compile(p.as_str()) {
                Ok(g) => Some(g),
                Err(_) => return Err(ConvertError::InvalidGlob),
            },
            None => None,
        };
        let word_filter = match word_filter {
            Some(p) => match Matcher::compile(p.as_str()) {
                Ok(re) => Some(re),
                Err(_) => return Err(ConvertError::InvalidWordFilter),
            },
            None => None,
        };
        Ok(CaseConverter {
            from_format,
            to_format,
            file_extensions,
            recursive,
            dry_run,
            prefix,
            suffix,
            strip_prefix,
            strip_suffix,
            replace_prefix_from,
            replace_prefix_to,
            replace_suffix_from,
            replace_suffix_to,
            glob_pattern,
            word_filter,
            source_pattern,
        })
    }

    /// Applies the prefix and suffix edits to an identifier: strip prefix,
    /// strip suffix, replace prefix, replace suffix, each when configured and
    /// applicable.
    pub fn prepare(&self, name: &str) -> (r: String)
        ensures
            r@ == self.prepared(name@),
    {
        let mut s = String::from_str(name);
        if let Some(p) = &self.strip_prefix {
            if has_prefix(s.as_str(), p.as_str()) {
                s = chars_range(s.as_str(), char_count(p.as_str()), char_count(s.as_str()));
            }
        }
        if let Some(p) = &self.strip_suffix {
            if has_suffix(s.as_str(), p.as_str()) {
                s = chars_range(s.as_str(), 0, char_count(s.as_str()) - char_count(p.as_str()));
            }
        }
        if let (Some(f), Some(t)) = (&self.replace_prefix_from, &self.replace_prefix_to) {
            if has_prefix(s.as_str(), f.as_str()) {
                let rest = chars_range(s.as_str(), char_count(f.as_str()), char_count(s.as_str()));
                let mut out = String::from_str(t.as_str());
                out.append(rest.as_str());
                s = out;
            }
        }
        if let (Some(f), Some(t)) = (&self.replace_suffix_from, &self.replace_suffix_to) {
            if has_suffix(s.as_str(), f.as_str()) {
                let mut out = chars_range(s.as_str(), 0, char_count(s.as_str()) - char_count(f.as_str()));
                out.append(t.as_str());
                s = out;
            }
        }
        s
    }

    /// The replacement for the identifier `name` whose prepared form is
    /// `prepared`, given the word filter's verdict on it.
    pub fn finish(&self, name: &str, prepared: &str, accepted: bool) -> (r: String)
        requires
            prepared@ == self.prepared(name@),
        ensures
            r@ == self.converted(name@, accepted),
    {
        if self.word_filter.is_some() && !accepted {
            return String::from_str(name);
        }
        let words = self.from_format.split_words(prepared);
        self.to_format.join_words(words.as_slice(), self.prefix.as_str(), self.suffix.as_str())
    }

    /// Converts one identifier, asking the word filter, if any, about its
    /// prepared form.
    pub fn convert(&self, name: &str) -> (r: String)
        ensures
            r@ == self.converted(name@, self.verdict(name@)),
    {
        let p = self.prepare(name);
        let accepted = match &self.word_filter {
            Some(m) => regex_is_match(m, p.as_str()),
            None => true,
        };
        self.finish(name, p.as_str(), accepted)
    }

    /// `content` with the identifier in each span converted, given the word
    /// filter's verdict for each span.
    pub fn rewrite_at(&self, content: &str, spans: &Vec<(usize, usize)>, verdicts: &Vec<bool>) -> (r: String)
        requires
            spans_wf(content@, spans@),
            verdicts.len() == spans.len(),
        ensures
            r@ == self.rewritten(content@, spans@, verdicts@),
    {
        proof {
            encode_utf8_valid_utf8(content@);
            is_char_boundary_start_end_of_seq(bytes_of(content@));
        }
        let mut out = String::new();
        let mut pos: usize = 0;
        let mut k: usize = 0;
        while k < spans.len()
            invariant
                k <= spans.len(),
                verdicts.len() == spans.len(),
                spans_wf(content@, spans@),
                vstd::utf8::valid_utf8(bytes_of(content@)),
                is_char_boundary(bytes_of(content@), bytes_of(content@).len() as int),
                pos as int == gap_start(spans@, k as int),
                is_char_boundary(bytes_of(content@), pos as int),
                pos <= bytes_of(content@).len(),
                out@ == self.rewritten_upto(content@, spans@, verdicts@, k as int),
            decreases spans.len() - k,
        {
            let (a, b) = spans[k];
            proof {
                assert(is_span(content@, spans@[k as int].0 as int, spans@[k as int].1 as int));
                if k > 0 {
                    assert(spans@[k - 1].1 <= spans@[k as int].0);
                }
            }
            let gap = slice_between(content, pos, a);
            let tok = slice_between(content, a, b);
            let p = self.prepare(tok);
            let piece = self.finish(tok, p.as_str(), verdicts[k]);
            out.append(gap);
            out.append(piece.as_str());
            pos = b;
            k = k + 1;
        }
        let tail = slice_from(content, pos);
        out.append(tail);
        out
    }

    /// Rewrites every identifier of the source style in `content`, left to
    /// right, and says whether the text changed.
    pub fn rewrite(&self, content: &str) -> (r: MatchOutcome)
        ensures
            r.text@ == self.rewrite_spec(content@),
            r.changed == (r.text@ != content@),
    {
        let spans = find_spans(&self.source_pattern, content);
        let ghost want = self.verdicts_for(content@, spans@);
        let mut verdicts: Vec<bool> = Vec::new();
        let mut k: usize = 0;
        while k < spans.len()
            invariant
                k <= spans.len(),
                spans_wf(content@, spans@),
                want == self.verdicts_for(content@, spans@),
                verdicts@ == want.take(k as int),
            decreases spans.len() - k,
        {
            let (a, b) = spans[k];
            proof {
                assert(is_span(content@, spans@[k as int].0 as int, spans@[k as int].1 as int));
            }
            let tok = slice_between(content, a, b);
            let accepted = match &self.word_filter {
                Some(m) => {
                    let p = self.prepare(tok);
                    regex_is_match(m, p.as_str())
                },
                None => true,
            };
            proof {
                assert(accepted == want[k as int]);
                assert(want.take(k + 1) =~= want.take(k as int).push(accepted));
            }
            verdicts.push(accepted);
            k = k + 1;
        }
        proof {
            assert(want.take(k as int) =~= want);
        }
        let text = self.rewrite_at(content, &spans, &verdicts);
        let changed = !(text == String::from_str(content));
        MatchOutcome { changed, text }
    }

    /// Whether a file with extension `ext` (without the dot) is looked at.
    pub fn accepts_extension(&self, ext: Option<&str>) -> (r: bool)
        ensures
            r == listed_extension(views(self.file_extensions@), match ext {
                Some(e) => Some(e@),
                None => None,
            }),
    {
        has_listed_extension(&self.file_extensions, ext)
    }

    /// Whether a file passes the glob filter, tried on its name and then on
    /// its path relative to the root of the walk. Without a glob every file
    /// passes; with one, a file that has neither passes not.
    pub fn matches_glob(&self, file_name: Option<&str>, relative_path: Option<&str>) -> (r: bool)
        ensures
            self.glob_pattern is None ==> r,
            self.glob_pattern is Some ==> r == ((file_name is Some && glob_accepts(
                self.glob_pattern->0.pattern(),
                file_name->0@,
            )) || (relative_path is Some && glob_accepts(self.glob_pattern->0.pattern(), relative_path->0@))),
    {
        match &self.glob_pattern {
            None => true,
            Some(g) => {
                if let Some(name) = file_name {
                    if glob_matches(g, name) {
                        return true;
                    }
                }
                if let Some(rel) = relative_path {
                    if glob_matches(g, rel) {
                        return true;
                    }
                }
                false
            },
        }
    }
}

/// The default extension list.
fn default_extension_list() -> (r: Vec<String>)
    ensures
        views(r@) == default_extensions(),
{
    let mut v: Vec<String> = Vec::new();
    v.push(String::from_str(".c"));
    v.push(String::from_str(".h"));
    v.push(String::from_str(".py"));
    v.push(String::from_str(".md"));
    v.push(String::from_str(".js"));
    v.push(String::from_str(".ts"));
    v.push(String::from_str(".java"));
    v.push(String::from_str(".cpp"));
    v.push(String::from_str(".hpp"));
    proof {
        assert(views(v@) =~= default_extensions());
    }
    v
}

} // verus!
