//! Replacing task-status emojis with text and removing other emojis.
use vstd::prelude::*;
use vstd::string::StringExecFns;
use crate::case::views;
use crate::converter::gap_start;
use crate::files::{is_selected, selected_spec};
use crate::matching::{
    Matcher, bytes_of, chars_between, find_spans, is_span, regex_compiles, regex_match_spans, slice_between,
    slice_from, spans_wf,
};
use crate::text::chars_of;
use vstd::utf8::{encode_utf8_valid_utf8, is_char_boundary, is_char_boundary_start_end_of_seq};

verus! {

/// The task-status emojis that have a text form.
pub const TASK_EMOJI_PATTERN: &'static str = r"[\u{2705}\u{2611}\u{2714}\u{2713}\u{2610}\u{2612}\u{274C}\u{274E}\u{26A0}\u{26D4}\u{2B50}\u{1F7E0}\u{1F7E1}\u{1F7E8}\u{1F7E2}\u{1F534}\u{1F4DD}\u{1F4CB}\u{1F4C4}\u{1F4C5}\u{1F4C6}\u{1F5D3}\u{1F4D1}\u{1F4CC}\u{1F4CD}\u{1F4CE}]";

/// Every other emoji: emoticons, pictographs, transport and map symbols,
/// flags, miscellaneous symbols, dingbats, supplemental symbols, variation
/// selectors and a few single code points.
pub const GENERAL_EMOJI_PATTERN: &'static str = r"[\u{1F600}-\u{1F64F}\u{1F300}-\u{1F5FF}\u{1F680}-\u{1F6FF}\u{1F1E0}-\u{1F1FF}\u{2600}-\u{26FF}\u{2700}-\u{27BF}\u{1F900}-\u{1F9FF}\u{1FA00}-\u{1FA6F}\u{1FA70}-\u{1FAFF}\u{FE00}-\u{FE0F}\u{1F004}\u{1F0CF}\u{1F18E}\u{1F191}-\u{1F19A}\u{1F1E6}-\u{1F1FF}]";

/// The text form of a task-status emoji; nothing for any other character.
pub open spec fn task_text(c: char) -> Seq<char> {
    if c == '\u{2705}' || c == '\u{2611}' || c == '\u{2714}' || c == '\u{2713}' {
        "[x]"@
    } else if c == '\u{2610}' {
        "[ ]"@
    } else if c == '\u{2612}' || c == '\u{274C}' || c == '\u{274E}' {
        "[X]"@
    } else if c == '\u{26A0}' || c == '\u{26D4}' {
        "[!]"@
    } else if c == '\u{2B50}' {
        "[+]"@
    } else if c == '\u{1F7E0}' {
        "[orange]"@
    } else if c == '\u{1F7E1}' || c == '\u{1F7E8}' {
        "[yellow]"@
    } else if c == '\u{1F7E2}' {
        "[green]"@
    } else if c == '\u{1F534}' {
        "[red]"@
    } else if c == '\u{1F4DD}' {
        "[note]"@
    } else if c == '\u{1F4CB}' {
        "[list]"@
    } else if c == '\u{1F4C4}' {
        "[doc]"@
    } else if c == '\u{1F4C5}' || c == '\u{1F4C6}' || c == '\u{1F5D3}' {
        "[cal]"@
    } else if c == '\u{1F4D1}' {
        "[tab]"@
    } else if c == '\u{1F4CC}' || c == '\u{1F4CD}' {
        "[pin]"@
    } else if c == '\u{1F4CE}' {
        "[clip]"@
    } else {
        Seq::empty()
    }
}

/// The replacement of a matched emoji: its text form when it is one task
/// emoji, nothing otherwise.
pub open spec fn emoji_replacement(s: Seq<char>) -> Seq<char> {
    if s.len() == 1 {
        task_text(s[0])
    } else {
        Seq::empty()
    }
}

/// `text` up to the end of span `k`, each span replaced by the text form of
/// its task emoji when `task`, removed otherwise.
pub open spec fn substituted_upto(text: Seq<char>, spans: Seq<(usize, usize)>, task: bool, k: int) -> Seq<char>
    decreases k,
{
    if k <= 0 {
        Seq::empty()
    } else {
        substituted_upto(text, spans, task, k - 1) + chars_between(text, gap_start(spans, k - 1), spans[k - 1].0 as int)
            + if task {
            emoji_replacement(chars_between(text, spans[k - 1].0 as int, spans[k - 1].1 as int))
        } else {
            Seq::empty()
        }
    }
}

/// `text` with each span replaced as `substituted_upto` says.
pub open spec fn substituted(text: Seq<char>, spans: Seq<(usize, usize)>, task: bool) -> Seq<char> {
    substituted_upto(text, spans, task, spans.len() as int) + chars_between(
        text,
        gap_start(spans, spans.len() as int),
        bytes_of(text).len() as int,
    )
}

/// Options for emoji transformation.
#[derive(Debug, Clone)]
pub struct EmojiOptions {
    /// Replace task completion emojis with text alternatives
    pub replace_task_emojis: bool,
    /// Remove all other emojis
    pub remove_other_emojis: bool,
    /// File extensions to process
    pub file_extensions: Vec<String>,
    /// Process directories recursively
    pub recursive: bool,
    /// Dry run mode (don't modify files)
    pub dry_run: bool,
}

/// The file extensions transformed by default.
pub open spec fn emoji_extensions() -> Seq<Seq<char>> {
    seq![
        ".md"@, ".txt"@, ".rst"@, ".org"@, ".py"@, ".rs"@, ".go"@, ".java"@, ".js"@, ".ts"@,
        ".jsx"@, ".tsx"@, ".c"@, ".h"@, ".cpp"@, ".hpp"@,
    ]
}

impl Default for EmojiOptions {
    fn default() -> (r: Self)
        ensures
            r.replace_task_emojis,
            r.remove_other_emojis,
            views(r.file_extensions@) == emoji_extensions(),
            r.recursive,
            !r.dry_run,
    {
        let mut v: Vec<String> = Vec::new();
        v.push(String::from_str(".md"));
        v.push(String::from_str(".txt"));
        v.push(String::from_str(".rst"));
        v.push(String::from_str(".org"));
        v.push(String::from_str(".py"));
        v.push(String::from_str(".rs"));
        v.push(String::from_str(".go"));
        v.push(String::from_str(".java"));
        v.push(String::from_str(".js"));
        v.push(String::from_str(".ts"));
        v.push(String::from_str(".jsx"));
        v.push(String::from_str(".tsx"));
        v.push(String::from_str(".c"));
        v.push(String::from_str(".h"));
        v.push(String::from_str(".cpp"));
        v.push(String::from_str(".hpp"));
        proof {
            assert(views(v@) =~= emoji_extensions());
        }
        EmojiOptions {
            replace_task_emojis: true,
            remove_other_emojis: true,
            file_extensions: v,
            recursive: true,
            dry_run: false,
        }
    }
}

/// Removes and replaces emojis in the text of files.
pub struct EmojiTransformer {
    pub options: EmojiOptions,
    pub task_emoji_pattern: Matcher,
    pub general_emoji_pattern: Matcher,
}

/// `text` with each span replaced by the text form of its task emoji when
/// `task`, removed otherwise.
pub fn substitute(text: &str, spans: &Vec<(usize, usize)>, task: bool) -> (r: String)
    requires
        spans_wf(text@, spans@),
    ensures
        r@ == substituted(text@, spans@, task),
{
    proof {
        encode_utf8_valid_utf8(text@);
        is_char_boundary_start_end_of_seq(bytes_of(text@));
    }
    let mut out = String::new();
    let mut pos: usize = 0;
    let mut k: usize = 0;
    while k < spans.len()
        invariant
            k <= spans.len(),
            spans_wf(text@, spans@),
            vstd::utf8::valid_utf8(bytes_of(text@)),
            is_char_boundary(bytes_of(text@), bytes_of(text@).len() as int),
            pos as int == gap_start(spans@, k as int),
            is_char_boundary(bytes_of(text@), pos as int),
            pos <= bytes_of(text@).len(),
            out@ == substituted_upto(text@, spans@, task, k as int),
        decreases spans.len() - k,
    {
        let (a, b) = spans[k];
        proof {
            assert(is_span(text@, spans@[k as int].0 as int, spans@[k as int].1 as int));
            if k > 0 {
                assert(spans@[k - 1].1 <= spans@[k as int].0);
            }
        }
        let gap = slice_between(text, pos, a);
        out.append(gap);
        if task {
            let tok = slice_between(text, a, b);
            out.append(replace_task_emoji(tok));
        } else {
            proof {
                assert(out@ + Seq::<char>::empty() =~= out@);
            }
        }
        pos = b;
        k = k + 1;
    }
    let tail = slice_from(text, pos);
    out.append(tail);
    out
}

/// The text form of a task emoji; the empty string for anything else.
pub fn replace_task_emoji(emoji: &str) -> (r: &'static str)
    ensures
        r@ == emoji_replacement(emoji@),
{
    let cs = chars_of(emoji);
    if cs.len() != 1 {
        proof {
            reveal_strlit("");
            assert(""@ =~= Seq::<char>::empty());
        }
        return "";
    }
    let c = cs[0];
    if c == '\u{2705}' || c == '\u{2611}' || c == '\u{2714}' || c == '\u{2713}' {
        "[x]"
    } else if c == '\u{2610}' {
        "[ ]"
    } else if c == '\u{2612}' || c == '\u{274C}' || c == '\u{274E}' {
        "[X]"
    } else if c == '\u{26A0}' || c == '\u{26D4}' {
        "[!]"
    } else if c == '\u{2B50}' {
        "[+]"
    } else if c == '\u{1F7E0}' {
        "[orange]"
    } else if c == '\u{1F7E1}' || c == '\u{1F7E8}' {
        "[yellow]"
    } else if c == '\u{1F7E2}' {
        "[green]"
    } else if c == '\u{1F534}' {
        "[red]"
    } else if c == '\u{1F4DD}' {
        "[note]"
    } else if c == '\u{1F4CB}' {
        "[list]"
    } else if c == '\u{1F4C4}' {
        "[doc]"
    } else if c == '\u{1F4C5}' || c == '\u{1F4C6}' || c == '\u{1F5D3}' {
        "[cal]"
    } else if c == '\u{1F4D1}' {
        "[tab]"
    } else if c == '\u{1F4CC}' || c == '\u{1F4CD}' {
        "[pin]"
    } else if c == '\u{1F4CE}' {
        "[clip]"
    } else {
        proof {
            reveal_strlit("");
            assert(""@ =~= Seq::<char>::empty());
        }
        ""
    }
}

impl EmojiTransformer {
    /// Creates a transformer with the given options; `None` when one of its
    /// two patterns does not compile.
    pub fn new(options: EmojiOptions) -> (r: Option<Self>)
        ensures
            r is Some <==> (regex_compiles(TASK_EMOJI_PATTERN@) && regex_compiles(GENERAL_EMOJI_PATTERN@)),
            r is Some ==> r->Some_0.options == options,
            r is Some ==> r->Some_0.task_emoji_pattern.pattern() == TASK_EMOJI_PATTERN@,
            r is Some ==> r->Some_0.general_emoji_pattern.pattern() == GENERAL_EMOJI_PATTERN@,
    {
        let task_emoji_pattern = match Matcher::compile(TASK_EMOJI_PATTERN) {
            Ok(re) => re,
            Err(_) => return None,
        };
        let general_emoji_pattern = match Matcher::compile(GENERAL_EMOJI_PATTERN) {
            Ok(re) => re,
            Err(_) => return None,
        };
        Some(EmojiTransformer { options, task_emoji_pattern, general_emoji_pattern })
    }

    /// Creates a transformer with default options.
    pub fn with_defaults() -> (r: Option<Self>)
        ensures
            r is Some <==> (regex_compiles(TASK_EMOJI_PATTERN@) && regex_compiles(GENERAL_EMOJI_PATTERN@)),
            r is Some ==> {
                let o = r->Some_0.options;
                &&& o.replace_task_emojis && o.remove_other_emojis
                &&& views(o.file_extensions@) == emoji_extensions()
                &&& o.recursive && !o.dry_run
            },
    {
        EmojiTransformer::new(EmojiOptions::default())
    }

    /// Whether a file is transformed, given the names along its path and its
    /// extension: nothing on the path is hidden or a build directory, and
    /// the extension is listed.
    pub fn should_process(&self, components: &Vec<String>, extension: Option<&str>) -> (r: bool)
        ensures
            r == selected_spec(views(self.options.file_extensions@), views(components@), match extension {
                Some(e) => Some(e@),
                None => None,
            }),
    {
        is_selected(&self.options.file_extensions, components, extension)
    }

    /// `text` after the task-emoji pass, if that pass is on.
    pub open spec fn first_pass(&self, text: Seq<char>) -> Seq<char> {
        if self.options.replace_task_emojis {
            substituted(text, regex_match_spans(self.task_emoji_pattern.pattern(), text), true)
        } else {
            text
        }
    }

    /// The number of task emojis replaced by the first pass.
    pub open spec fn first_count(&self, text: Seq<char>) -> usize {
        if self.options.replace_task_emojis && self.first_pass(text) != text {
            regex_match_spans(self.task_emoji_pattern.pattern(), text).len() as usize
        } else {
            0
        }
    }

    /// The text after both passes.
    pub open spec fn second_pass(&self, text: Seq<char>) -> Seq<char> {
        let first = self.first_pass(text);
        if self.options.remove_other_emojis {
            substituted(first, regex_match_spans(self.general_emoji_pattern.pattern(), first), false)
        } else {
            first
        }
    }

    /// The number of changes both passes made, counted up to the largest
    /// `usize`.
    pub open spec fn change_count(&self, text: Seq<char>) -> usize {
        let first = self.first_pass(text);
        if self.options.remove_other_emojis && self.second_pass(text) != first {
            self.first_count(text).saturating_add(
                regex_match_spans(self.general_emoji_pattern.pattern(), first).len() as usize,
            )
        } else {
            self.first_count(text)
        }
    }

    /// Transforms the emojis of a text: returns the new text and the number
    /// of changes, at least one when the text changed, zero otherwise.
    pub fn transform_text(&self, content: &str) -> (r: (String, usize))
        ensures
            r.0@ == self.second_pass(content@),
            r.1 == if self.second_pass(content@) != content@ {
                if self.change_count(content@) > 1 {
                    self.change_count(content@)
                } else {
                    1
                }
            } else {
                0
            },
    {
        let input = String::from_str(content);
        let mut text = String::from_str(content);
        let mut changes: usize = 0;
        if self.options.replace_task_emojis {
            let task_spans = find_spans(&self.task_emoji_pattern, text.as_str());
            let replaced = substitute(text.as_str(), &task_spans, true);
            if !(replaced == text) {
                changes = task_spans.len();
                text = replaced;
            }
        }
        if self.options.remove_other_emojis {
            let other_spans = find_spans(&self.general_emoji_pattern, text.as_str());
            let cleaned = substitute(text.as_str(), &other_spans, false);
            if !(cleaned == text) {
                changes = changes.saturating_add(other_spans.len());
                text = cleaned;
            }
        }
        let count = if text == input {
            0
        } else if changes > 1 {
            changes
        } else {
            1
        };
        (text, count)
    }
}

} // verus!
