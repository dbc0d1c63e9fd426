//! Renaming files by simple rules on their names.
use vstd::prelude::*;
use vstd::string::StringExecFns;
use crate::converter::{opt_view, strip_back, strip_front};
use crate::files::{is_hidden, is_hidden_spec};
use crate::letters::{lower, to_lower, to_upper, upper};
use crate::text::{chars_of, chars_range, char_count, has_prefix, has_suffix, push_char, string_of};

verus! {

/// Case transformation options
#[derive(Debug, Clone, Copy, PartialEq, Eq, Structural)]
pub enum CaseTransform {
    /// Convert to lowercase
    Lowercase,
    /// Convert to UPPERCASE
    Uppercase,
    /// Capitalize first letter only
    Capitalize,
    /// No case transformation
    Keep,
}

/// Space replacement options
#[derive(Debug, Clone, Copy, PartialEq, Eq, Structural)]
pub enum SpaceReplace {
    /// Replace spaces with underscores
    Underscore,
    /// Replace spaces with hyphens
    Hyphen,
    /// No space replacement
    Keep,
}

/// Options for file renaming
#[derive(Debug, Clone)]
pub struct RenameOptions {
    /// Case transformation to apply
    pub case_transform: CaseTransform,
    /// Space replacement to apply
    pub space_replace: SpaceReplace,
    /// Prefix to add
    pub add_prefix: Option<String>,
    /// Prefix to remove
    pub remove_prefix: Option<String>,
    /// Suffix to add (before extension)
    pub add_suffix: Option<String>,
    /// Suffix to remove (before extension)
    pub remove_suffix: Option<String>,
    /// Process directories recursively
    pub recursive: bool,
    /// Dry run mode (don't rename files)
    pub dry_run: bool,
}

impl Default for RenameOptions {
    fn default() -> (r: Self)
        ensures
            r.case_transform == CaseTransform::Keep,
            r.space_replace == SpaceReplace::Keep,
            r.add_prefix is None,
            r.remove_prefix is None,
            r.add_suffix is None,
            r.remove_suffix is None,
            r.recursive,
            !r.dry_run,
    {
        RenameOptions {
            case_transform: CaseTransform::Keep,
            space_replace: SpaceReplace::Keep,
            add_prefix: None,
            remove_prefix: None,
            add_suffix: None,
            remove_suffix: None,
            recursive: true,
            dry_run: false,
        }
    }
}

/// Renames files by the rules of its options.
pub struct FileRenamer {
    pub options: RenameOptions,
}

/// `s` with every separator of `from` replaced by `to`.
pub open spec fn replace_separators(s: Seq<char>, from: char, to: char) -> Seq<char> {
    s.map_values(|c: char| if c == ' ' || c == from { to } else { c })
}

/// `s` with its first character in uppercase and the rest in lowercase.
pub open spec fn capitalized(s: Seq<char>) -> Seq<char> {
    if s.len() == 0 {
        s
    } else {
        upper(seq![s[0]]) + lower(s.drop_first())
    }
}

/// The index of the last `.` in `s`, if any.
pub open spec fn last_dot(s: Seq<char>) -> Option<int>
    decreases s.len(),
{
    if s.len() == 0 {
        None
    } else if s.last() == '.' {
        Some(s.len() - 1)
    } else {
        last_dot(s.drop_last())
    }
}

/// A file name cut at its last `.` into stem and extension.
pub open spec fn split_name_spec(s: Seq<char>) -> (Seq<char>, Option<Seq<char>>) {
    match last_dot(s) {
        Some(i) => (s.subrange(0, i), Some(s.subrange(i + 1, s.len() as int))),
        None => (s, None),
    }
}

impl FileRenamer {
    /// The stem of a file name after every rule: remove prefix, remove
    /// suffix, replace separators, change case, add prefix, add suffix; then
    /// the extension, if any, after a dot.
    pub open spec fn renamed(&self, name: Seq<char>, extension: Option<Seq<char>>) -> Seq<char> {
        let s1 = strip_front(name, opt_view(self.options.remove_prefix));
        let s2 = strip_back(s1, opt_view(self.options.remove_suffix));
        let s3 = match self.options.space_replace {
            SpaceReplace::Underscore => replace_separators(s2, '-', '_'),
            SpaceReplace::Hyphen => replace_separators(s2, '_', '-'),
            SpaceReplace::Keep => s2,
        };
        let s4 = match self.options.case_transform {
            CaseTransform::Lowercase => lower(s3),
            CaseTransform::Uppercase => upper(s3),
            CaseTransform::Capitalize => capitalized(s3),
            CaseTransform::Keep => s3,
        };
        let s5 = match opt_view(self.options.add_prefix) {
            Some(p) => p + s4,
            None => s4,
        };
        let s6 = match opt_view(self.options.add_suffix) {
            Some(p) => s5 + p,
            None => s5,
        };
        match extension {
            Some(e) => s6.push('.') + e,
            None => s6,
        }
    }

    /// Creates a new file renamer with the given options
    pub fn new(options: RenameOptions) -> (r: Self)
        ensures
            r.options == options,
    {
        FileRenamer { options }
    }

    /// Creates a renamer with default options
    pub fn with_defaults() -> (r: Self)
        ensures
            r.options.case_transform == CaseTransform::Keep,
            r.options.space_replace == SpaceReplace::Keep,
            r.options.add_prefix is None && r.options.remove_prefix is None,
            r.options.add_suffix is None && r.options.remove_suffix is None,
            r.options.recursive && !r.options.dry_run,
    {
        FileRenamer { options: RenameOptions::default() }
    }

    /// Whether a file with this name is renamed: hidden files are not.
    pub fn should_process(&self, file_name: Option<&str>) -> (r: bool)
        ensures
            r == !(file_name is Some && is_hidden_spec(file_name->0@)),
    {
        match file_name {
            Some(n) => !is_hidden(n),
            None => true,
        }
    }

    /// Applies all the rules to the stem `name` and appends `extension`.
    pub fn transform_name(&self, name: &str, extension: Option<&str>) -> (r: String)
        ensures
            r@ == self.renamed(name@, match extension {
                Some(e) => Some(e@),
                None => None,
            }),
    {
        let mut result = String::from_str(name);
        if let Some(p) = &self.options.remove_prefix {
            if has_prefix(result.as_str(), p.as_str()) {
                result = chars_range(result.as_str(), char_count(p.as_str()), char_count(result.as_str()));
            }
        }
        if let Some(p) = &self.options.remove_suffix {
            if has_suffix(result.as_str(), p.as_str()) {
                result = chars_range(result.as_str(), 0, char_count(result.as_str()) - char_count(p.as_str()));
            }
        }
        match self.options.space_replace {
            SpaceReplace::Underscore => {
                result = replace_chars(result.as_str(), '-', '_');
            },
            SpaceReplace::Hyphen => {
                result = replace_chars(result.as_str(), '_', '-');
            },
            SpaceReplace::Keep => {},
        }
        match self.options.case_transform {
            CaseTransform::Lowercase => {
                result = to_lower(result.as_str());
            },
            CaseTransform::Uppercase => {
                result = to_upper(result.as_str());
            },
            CaseTransform::Capitalize => {
                result = capitalize_name(result.as_str());
            },
            CaseTransform::Keep => {},
        }
        if let Some(p) = &self.options.add_prefix {
            let mut s = String::from_str(p.as_str());
            s.append(result.as_str());
            result = s;
        }
        if let Some(p) = &self.options.add_suffix {
            result.append(p.as_str());
        }
        if let Some(e) = extension {
            push_char(&mut result, '.');
            result.append(e);
        }
        result
    }

    /// The new name of a file called `file_name`, or `None` when the rules
    /// leave the name as it is. The name is cut at its last dot into stem
    /// and extension, and the rules apply to the stem.
    pub fn new_file_name(&self, file_name: &str) -> (r: Option<String>)
        ensures
            ({
                let (stem, ext) = split_name_spec(file_name@);
                let n = self.renamed(stem, ext);
                &&& r is None <==> n == file_name@
                &&& r is Some ==> r->Some_0@ == n
            }),
    {
        let (stem, ext) = split_file_name(file_name);
        let new_name = match &ext {
            Some(e) => self.transform_name(stem.as_str(), Some(e.as_str())),
            None => self.transform_name(stem.as_str(), None),
        };
        if new_name == String::from_str(file_name) {
            None
        } else {
            Some(new_name)
        }
    }
}

/// A file name cut at its last `.` into stem and extension.
pub fn split_file_name(file_name: &str) -> (r: (String, Option<String>))
    ensures
        r.0@ == split_name_spec(file_name@).0,
        opt_view(r.1) == split_name_spec(file_name@).1,
{
    let cs = chars_of(file_name);
    let mut i: usize = cs.len();
    proof {
        assert(file_name@.take(i as int) =~= file_name@);
    }
    while i > 0 && cs[i - 1] != '.'
        invariant
            i <= cs.len(),
            cs@ == file_name@,
            last_dot(file_name@) == last_dot(file_name@.take(i as int)),
        decreases i,
    {
        proof {
            assert(file_name@.take(i as int).drop_last() =~= file_name@.take(i - 1));
        }
        i = i - 1;
    }
    if i == 0 {
        proof {
            assert(file_name@.take(0) =~= Seq::<char>::empty());
        }
        (String::from_str(file_name), None)
    } else {
        proof {
            assert(file_name@.take(i as int).last() == '.');
        }
        let n = cs.len();
        (chars_range(file_name, 0, i - 1), Some(chars_range(file_name, i, n)))
    }
}

/// `s` with spaces and `from` replaced by `to`.
fn replace_chars(s: &str, from: char, to: char) -> (r: String)
    ensures
        r@ == replace_separators(s@, from, to),
{
    let cs = chars_of(s);
    let mut out: Vec<char> = Vec::new();
    let mut i: usize = 0;
    while i < cs.len()
        invariant
            i <= cs.len(),
            cs@ == s@,
            out@ == replace_separators(s@.take(i as int), from, to),
        decreases cs.len() - i,
    {
        let c = cs[i];
        out.push(if c == ' ' || c == from { to } else { c });
        proof {
            assert(replace_separators(s@.take(i + 1), from, to) =~= replace_separators(
                s@.take(i as int),
                from,
                to,
            ).push(if c == ' ' || c == from { to } else { c }));
        }
        i = i + 1;
    }
    proof {
        assert(s@.take(i as int) =~= s@);
    }
    string_of(out.as_slice())
}

/// `s` with its first character in uppercase and the rest in lowercase.
fn capitalize_name(s: &str) -> (r: String)
    ensures
        r@ == capitalized(s@),
{
    let n = char_count(s);
    if n == 0 {
        return String::new();
    }
    let head = chars_range(s, 0, 1);
    let rest = chars_range(s, 1, n);
    proof {
        assert(head@ =~= seq![s@[0]]);
        assert(rest@ =~= s@.drop_first());
    }
    let mut r = to_upper(head.as_str());
    let low = to_lower(rest.as_str());
    r.append(low.as_str());
    r
}

} // verus!
