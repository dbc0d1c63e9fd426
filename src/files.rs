//! Which files a transformer looks at, decided from the parts of their paths.
use vstd::prelude::*;
use vstd::string::StringExecFns;
use crate::case::views;

verus! {

/// Whether a file or directory name marks it hidden.
pub open spec fn is_hidden_spec(name: Seq<char>) -> bool {
    name.len() > 0 && name[0] == '.'
}

/// Directories whose files are never looked at.
pub open spec fn skipped_dirs() -> Seq<Seq<char>> {
    seq!["build"@, "__pycache__"@, ".git"@, "node_modules"@, "venv"@, ".venv"@, "target"@]
}

/// Whether the extension `ext` (without its dot) is in `exts` (with dots).
pub open spec fn listed_extension(exts: Seq<Seq<char>>, ext: Option<Seq<char>>) -> bool {
    ext is Some && exts.contains(seq!['.'] + ext->0)
}

/// Whether a file name marks the file hidden.
pub fn is_hidden(name: &str) -> (r: bool)
    ensures
        r == is_hidden_spec(name@),
{
    let n = crate::text::char_count(name);
    if n == 0 {
        false
    } else {
        let first = crate::text::chars_range(name, 0, 1);
        proof {
            assert(first@ =~= seq![name@[0]]);
            reveal_strlit(".");
            assert("."@ =~= seq!['.']);
            if seq![name@[0]] == seq!['.'] {
                assert(seq![name@[0]][0] == seq!['.'][0]);
            }
            if name@[0] == '.' {
                assert(seq![name@[0]] =~= seq!['.']);
            }
        }
        first == String::from_str(".")
    }
}

/// Whether `s` is one of `list`.
pub fn contains_text(list: &Vec<String>, s: &str) -> (r: bool)
    ensures
        r == views(list@).contains(s@),
{
    let mut i: usize = 0;
    let t = String::from_str(s);
    while i < list.len()
        invariant
            i <= list.len(),
            t@ == s@,
            forall|j: int| 0 <= j < i ==> #[trigger] views(list@)[j] != s@,
        decreases list.len() - i,
    {
        if list[i] == t {
            proof {
                assert(views(list@)[i as int] == s@);
            }
            return true;
        }
        i = i + 1;
    }
    proof {
        assert(!views(list@).contains(s@));
    }
    false
}

/// Whether the extension `ext` (without its dot) is in `exts` (with dots).
pub fn has_listed_extension(exts: &Vec<String>, ext: Option<&str>) -> (r: bool)
    ensures
        r == listed_extension(views(exts@), match ext {
            Some(e) => Some(e@),
            None => None,
        }),
{
    match ext {
        None => false,
        Some(e) => {
            let mut dotted = String::from_str(".");
            proof {
                reveal_strlit(".");
                assert("."@ =~= seq!['.']);
            }
            dotted.append(e);
            contains_text(exts, dotted.as_str())
        },
    }
}

/// The directory names of `skipped_dirs`.
fn skipped_dir_list() -> (r: Vec<String>)
    ensures
        views(r@) == skipped_dirs(),
{
    let mut v: Vec<String> = Vec::new();
    v.push(String::from_str("build"));
    v.push(String::from_str("__pycache__"));
    v.push(String::from_str(".git"));
    v.push(String::from_str("node_modules"));
    v.push(String::from_str("venv"));
    v.push(String::from_str(".venv"));
    v.push(String::from_str("target"));
    proof {
        assert(views(v@) =~= skipped_dirs());
    }
    v
}

/// Whether a file, given the names along its path and its extension, is one
/// that a text transformer looks at: nothing on its path is hidden or a
/// skipped directory, and its extension is listed.
pub open spec fn selected_spec(exts: Seq<Seq<char>>, components: Seq<Seq<char>>, ext: Option<Seq<char>>) -> bool {
    &&& forall|i: int| 0 <= i < components.len() ==> !is_hidden_spec(#[trigger] components[i])
    &&& forall|i: int| 0 <= i < components.len() ==> !skipped_dirs().contains(#[trigger] components[i])
    &&& listed_extension(exts, ext)
}

/// Decides `selected_spec` for a file.
pub fn is_selected(exts: &Vec<String>, components: &Vec<String>, ext: Option<&str>) -> (r: bool)
    ensures
        r == selected_spec(views(exts@), views(components@), match ext {
            Some(e) => Some(e@),
            None => None,
        }),
{
    let skipped = skipped_dir_list();
    let mut i: usize = 0;
    while i < components.len()
        invariant
            i <= components.len(),
            views(skipped@) == skipped_dirs(),
            forall|j: int| 0 <= j < i ==> !is_hidden_spec(#[trigger] views(components@)[j]),
            forall|j: int| 0 <= j < i ==> !skipped_dirs().contains(#[trigger] views(components@)[j]),
        decreases components.len() - i,
    {
        if is_hidden(components[i].as_str()) {
            proof {
                assert(is_hidden_spec(views(components@)[i as int]));
            }
            return false;
        }
        if contains_text(&skipped, components[i].as_str()) {
            proof {
                assert(skipped_dirs().contains(views(components@)[i as int]));
            }
            return false;
        }
        i = i + 1;
    }
    has_listed_extension(exts, ext)
}

} // verus!
