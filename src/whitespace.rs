//! Removing trailing whitespace from the lines of a text.
use vstd::prelude::*;
use vstd::string::StringExecFns;
use crate::case::{join_with, views};
use crate::files::{is_selected, selected_spec};
use crate::text::{chars_of, chars_range, push_char};

verus! {

/// Whether a character has Unicode's `White_Space` property.
pub uninterp spec fn has_white_space_property(c: char) -> bool;

/// Relies on `char::is_whitespace`: the `White_Space` property of a character.
#[verifier::external_body]
fn char_is_whitespace(c: char) -> (r: bool)
    ensures
        r == has_white_space_property(c),
{
    c.is_whitespace()
}

/// `l` without its trailing whitespace.
pub open spec fn trim_end_spec(l: Seq<char>) -> Seq<char>
    decreases l.len(),
{
    if l.len() > 0 && has_white_space_property(l.last()) {
        trim_end_spec(l.drop_last())
    } else {
        l
    }
}

/// `l` without a final carriage return.
pub open spec fn without_cr(l: Seq<char>) -> Seq<char> {
    if l.len() > 0 && l.last() == '\r' {
        l.drop_last()
    } else {
        l
    }
}

/// Scans `s` for lines: the lines ended so far, without their line endings,
/// and the line still open.
pub open spec fn line_scan(s: Seq<char>) -> (Seq<Seq<char>>, Seq<char>)
    decreases s.len(),
{
    if s.len() == 0 {
        (Seq::empty(), Seq::empty())
    } else {
        let (done, cur) = line_scan(s.drop_last());
        if s.last() == '\n' {
            (done.push(without_cr(cur)), Seq::empty())
        } else {
            (done, cur.push(s.last()))
        }
    }
}

/// The lines of `s` as `str::lines` gives them: split at `\n` or `\r\n`,
/// with no empty line after a final line ending.
pub open spec fn lines_spec(s: Seq<char>) -> Seq<Seq<char>> {
    let (done, cur) = line_scan(s);
    if cur.len() > 0 {
        done.push(cur)
    } else {
        done
    }
}

/// How many of `ls` have trailing whitespace.
pub open spec fn count_trimmed(ls: Seq<Seq<char>>) -> nat
    decreases ls.len(),
{
    if ls.len() == 0 {
        0
    } else {
        count_trimmed(ls.drop_last()) + if trim_end_spec(ls.last()) != ls.last() {
            1nat
        } else {
            0nat
        }
    }
}

pub open spec fn trim_all(ls: Seq<Seq<char>>) -> Seq<Seq<char>> {
    ls.map_values(|l: Seq<char>| trim_end_spec(l))
}

/// The lines of `s` joined again with `\n`, ending with `\n` when `s` does.
pub open spec fn rejoined(s: Seq<char>, ls: Seq<Seq<char>>) -> Seq<char> {
    if s.len() > 0 && s.last() == '\n' {
        join_with(ls, '\n').push('\n')
    } else {
        join_with(ls, '\n')
    }
}

/// Options for whitespace cleaning.
#[derive(Debug, Clone)]
pub struct WhitespaceOptions {
    /// Remove trailing whitespace from lines
    pub remove_trailing: bool,
    /// File extensions to process
    pub file_extensions: Vec<String>,
    /// Process directories recursively
    pub recursive: bool,
    /// Dry run mode (don't modify files)
    pub dry_run: bool,
}

/// The file extensions cleaned by default.
pub open spec fn whitespace_extensions() -> Seq<Seq<char>> {
    seq![
        ".py"@, ".pyx"@, ".pxd"@, ".pxi"@, ".c"@, ".h"@, ".cpp"@, ".hpp"@, ".rs"@, ".go"@,
        ".java"@, ".js"@, ".ts"@, ".jsx"@, ".tsx"@, ".md"@, ".qmd"@, ".txt"@,
    ]
}

impl Default for WhitespaceOptions {
    fn default() -> (r: Self)
        ensures
            r.remove_trailing,
            views(r.file_extensions@) == whitespace_extensions(),
            r.recursive,
            !r.dry_run,
    {
        let mut v: Vec<String> = Vec::new();
        v.push(String::from_str(".py"));
        v.push(String::from_str(".pyx"));
        v.push(String::from_str(".pxd"));
        v.push(String::from_str(".pxi"));
        v.push(String::from_str(".c"));
        v.push(String::from_str(".h"));
        v.push(String::from_str(".cpp"));
        v.push(String::from_str(".hpp"));
        v.push(String::from_str(".rs"));
        v.push(String::from_str(".go"));
        v.push(String::from_str(".java"));
        v.push(String::from_str(".js"));
        v.push(String::from_str(".ts"));
        v.push(String::from_str(".jsx"));
        v.push(String::from_str(".tsx"));
        v.push(String::from_str(".md"));
        v.push(String::from_str(".qmd"));
        v.push(String::from_str(".txt"));
        proof {
            assert(views(v@) =~= whitespace_extensions());
        }
        WhitespaceOptions { remove_trailing: true, file_extensions: v, recursive: true, dry_run: false }
    }
}

/// Removes trailing whitespace from the lines of files.
pub struct WhitespaceCleaner {
    pub options: WhitespaceOptions,
}

/// `l` without its trailing whitespace.
pub fn trim_end(l: &str) -> (r: String)
    ensures
        r@ == trim_end_spec(l@),
{
    let cs = chars_of(l);
    let mut k: usize = cs.len();
    proof {
        assert(l@.take(k as int) =~= l@);
    }
    while k > 0 && char_is_whitespace(cs[k - 1])
        invariant
            k <= cs.len(),
            cs@ == l@,
            trim_end_spec(l@) == trim_end_spec(l@.take(k as int)),
        decreases k,
    {
        proof {
            assert(l@.take(k as int).drop_last() =~= l@.take(k - 1));
        }
        k = k - 1;
    }
    proof {
        if k > 0 {
            assert(l@.take(k as int).last() == cs@[k - 1]);
        }
        assert(l@.take(k as int) =~= l@.subrange(0, k as int));
    }
    chars_range(l, 0, k)
}

/// The lines of `s`, as `str::lines` gives them.
pub fn split_lines(s: &str) -> (r: Vec<String>)
    ensures
        views(r@) == lines_spec(s@),
{
    let cs = chars_of(s);
    let mut lines: Vec<String> = Vec::new();
    let mut cur = String::new();
    let mut i: usize = 0;
    while i < cs.len()
        invariant
            i <= cs.len(),
            cs@ == s@,
            views(lines@) == line_scan(s@.take(i as int)).0,
            cur@ == line_scan(s@.take(i as int)).1,
        decreases cs.len() - i,
    {
        proof {
            assert(s@.take(i + 1).drop_last() =~= s@.take(i as int));
        }
        if cs[i] == '\n' {
            let n = crate::text::char_count(cur.as_str());
            let line = if n > 0 && is_cr(&cur, n) {
                chars_range(cur.as_str(), 0, n - 1)
            } else {
                String::from_str(cur.as_str())
            };
            proof {
                if n > 0 && cur@.last() == '\r' {
                    assert(line@ =~= cur@.drop_last());
                }
                assert(views(lines@.push(line)) =~= views(lines@).push(line@));
            }
            lines.push(line);
            cur = String::new();
        } else {
            push_char(&mut cur, cs[i]);
        }
        i = i + 1;
    }
    proof {
        assert(s@.take(i as int) =~= s@);
    }
    if !cur.as_str().is_empty() {
        proof {
            assert(views(lines@.push(cur)) =~= views(lines@).push(cur@));
        }
        lines.push(cur);
    }
    lines
}

/// Whether the last of the `n` characters of `s` is a carriage return.
fn is_cr(s: &String, n: usize) -> (r: bool)
    requires
        n == s@.len(),
        n > 0,
    ensures
        r == (s@.last() == '\r'),
{
    let last = chars_range(s.as_str(), n - 1, n);
    proof {
        assert(last@ =~= seq![s@.last()]);
        reveal_strlit("\r");
        assert("\r"@ =~= seq!['\r']);
        if seq![s@.last()] == seq!['\r'] {
            assert(seq![s@.last()][0] == seq!['\r'][0]);
        }
        if s@.last() == '\r' {
            assert(seq![s@.last()] =~= seq!['\r']);
        }
    }
    last == String::from_str("\r")
}

impl WhitespaceCleaner {
    /// Creates a new whitespace cleaner with the given options
    pub fn new(options: WhitespaceOptions) -> (r: Self)
        ensures
            r.options == options,
    {
        WhitespaceCleaner { options }
    }

    /// Creates a cleaner with default options
    pub fn with_defaults() -> (r: Self)
        ensures
            r.options.remove_trailing,
            views(r.options.file_extensions@) == whitespace_extensions(),
            r.options.recursive,
            !r.options.dry_run,
    {
        WhitespaceCleaner { options: WhitespaceOptions::default() }
    }

    /// Whether a file is cleaned, given the names along its path and its
    /// extension: nothing on the path is hidden or a build directory, and
    /// the extension is listed.
    pub fn should_process(&self, components: &Vec<String>, extension: Option<&str>) -> (r: bool)
        ensures
            r == selected_spec(views(self.options.file_extensions@), views(components@), match extension {
                Some(e) => Some(e@),
                None => None,
            }),
    {
        is_selected(&self.options.file_extensions, components, extension)
    }

    /// Cleans a text: returns it with the trailing whitespace of each line
    /// removed, if that option is set, and the number of lines that had some.
    pub fn clean_text(&self, content: &str) -> (r: (String, usize))
        ensures
            r.0@ == rejoined(content@, if self.options.remove_trailing {
                trim_all(lines_spec(content@))
            } else {
                lines_spec(content@)
            }),
            r.1 == if self.options.remove_trailing {
                count_trimmed(lines_spec(content@))
            } else {
                0
            },
    {
        let lines = split_lines(content);
        let ghost ls = views(lines@);
        let mut out = String::new();
        let mut modified: usize = 0;
        let mut i: usize = 0;
        while i < lines.len()
            invariant
                i <= lines.len(),
                ls == views(lines@),
                ls == lines_spec(content@),
                modified <= i,
                modified == if self.options.remove_trailing {
                    count_trimmed(ls.take(i as int))
                } else {
                    0
                },
                out@ == join_with(if self.options.remove_trailing {
                    trim_all(ls.take(i as int))
                } else {
                    ls.take(i as int)
                }, '\n'),
            decreases lines.len() - i,
        {
            let cleaned = if self.options.remove_trailing {
                let t = trim_end(lines[i].as_str());
                if !(t == lines[i]) {
                    modified = modified + 1;
                }
                t
            } else {
                String::from_str(lines[i].as_str())
            };
            proof {
                assert(ls.take(i + 1).drop_last() =~= ls.take(i as int));
                assert(trim_all(ls.take(i + 1)).drop_last() =~= trim_all(ls.take(i as int)));
            }
            if i > 0 {
                push_char(&mut out, '\n');
            }
            out.append(cleaned.as_str());
            i = i + 1;
        }
        proof {
            assert(ls.take(i as int) =~= ls);
        }
        if ends_with_newline(content) {
            push_char(&mut out, '\n');
        }
        (out, modified)
    }
}

/// Whether `s` ends with a line feed.
fn ends_with_newline(s: &str) -> (r: bool)
    ensures
        r == (s@.len() > 0 && s@.last() == '\n'),
{
    let n = crate::text::char_count(s);
    if n == 0 {
        return false;
    }
    let last = chars_range(s, n - 1, n);
    proof {
        assert(last@ =~= seq![s@.last()]);
        reveal_strlit("\n");
        assert("\n"@ =~= seq!['\n']);
        if seq![s@.last()] == seq!['\n'] {
            assert(seq![s@.last()][0] == seq!['\n'][0]);
        }
        if s@.last() == '\n' {
            assert(seq![s@.last()] =~= seq!['\n']);
        }
    }
    last == String::from_str("\n")
}

} // verus!
