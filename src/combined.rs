//! Renaming to lowercase, emoji transformation and whitespace cleaning
//! applied together, file by file.
use vstd::prelude::*;
use crate::case::views;
use crate::emoji::{EmojiOptions, emoji_extensions};
use crate::letters::{lower, to_lower};
use crate::rename::{CaseTransform, RenameOptions, SpaceReplace};
use crate::whitespace::{WhitespaceOptions, whitespace_extensions};

verus! {

/// Options for combined processing
#[derive(Debug, Clone)]
pub struct CombinedOptions {
    /// Process directories recursively
    pub recursive: bool,
    /// Dry run mode (don't modify files)
    pub dry_run: bool,
}

impl Default for CombinedOptions {
    fn default() -> (r: Self)
        ensures
            r.recursive,
            !r.dry_run,
    {
        CombinedOptions { recursive: true, dry_run: false }
    }
}

/// Statistics from combined processing
#[derive(Debug)]
pub struct CombinedStats {
    /// Number of files renamed
    pub files_renamed: usize,
    /// Number of files with emoji transformations
    pub files_emoji_transformed: usize,
    /// Number of emoji changes
    pub emoji_changes: usize,
    /// Number of files with whitespace cleaned
    pub files_whitespace_cleaned: usize,
    /// Number of lines with whitespace cleaned
    pub whitespace_lines_cleaned: usize,
}

impl Default for CombinedStats {
    fn default() -> (r: Self)
        ensures
            r.files_renamed == 0,
            r.files_emoji_transformed == 0,
            r.emoji_changes == 0,
            r.files_whitespace_cleaned == 0,
            r.whitespace_lines_cleaned == 0,
    {
        CombinedStats {
            files_renamed: 0,
            files_emoji_transformed: 0,
            emoji_changes: 0,
            files_whitespace_cleaned: 0,
            whitespace_lines_cleaned: 0,
        }
    }
}

impl CombinedStats {
    /// Counts the outcome of one file: whether it was renamed, how many
    /// emoji changes and how many cleaned lines it had. Counts stop at the
    /// largest `usize`.
    pub fn record_file(&mut self, renamed: bool, emoji_changes: usize, lines_cleaned: usize)
        ensures
            final(self).files_renamed == if renamed {
                old(self).files_renamed.saturating_add(1)
            } else {
                old(self).files_renamed
            },
            final(self).files_emoji_transformed == if emoji_changes > 0 {
                old(self).files_emoji_transformed.saturating_add(1)
            } else {
                old(self).files_emoji_transformed
            },
            final(self).emoji_changes == old(self).emoji_changes.saturating_add(emoji_changes),
            final(self).files_whitespace_cleaned == if lines_cleaned > 0 {
                old(self).files_whitespace_cleaned.saturating_add(1)
            } else {
                old(self).files_whitespace_cleaned
            },
            final(self).whitespace_lines_cleaned == old(self).whitespace_lines_cleaned.saturating_add(
                lines_cleaned,
            ),
    {
        if renamed {
            self.files_renamed = self.files_renamed.saturating_add(1);
        }
        if emoji_changes > 0 {
            self.files_emoji_transformed = self.files_emoji_transformed.saturating_add(1);
        }
        self.emoji_changes = self.emoji_changes.saturating_add(emoji_changes);
        if lines_cleaned > 0 {
            self.files_whitespace_cleaned = self.files_whitespace_cleaned.saturating_add(1);
        }
        self.whitespace_lines_cleaned = self.whitespace_lines_cleaned.saturating_add(lines_cleaned);
    }
}

/// Applies renaming to lowercase, emoji transformation and whitespace
/// cleaning in a single pass.
pub struct CombinedProcessor {
    pub options: CombinedOptions,
    pub rename_options: RenameOptions,
    pub emoji_options: EmojiOptions,
    pub whitespace_options: WhitespaceOptions,
}

impl CombinedProcessor {
    /// Creates a processor: names go to lowercase, emojis and whitespace get
    /// their default treatment, and all three share the walk and dry-run
    /// settings of `options`.
    pub fn new(options: CombinedOptions) -> (r: Self)
        ensures
            r.options == options,
            r.rename_options.case_transform == CaseTransform::Lowercase,
            r.rename_options.space_replace == SpaceReplace::Keep,
            r.rename_options.add_prefix is None && r.rename_options.remove_prefix is None,
            r.rename_options.add_suffix is None && r.rename_options.remove_suffix is None,
            r.rename_options.recursive == options.recursive,
            r.rename_options.dry_run == options.dry_run,
            r.emoji_options.replace_task_emojis && r.emoji_options.remove_other_emojis,
            views(r.emoji_options.file_extensions@) == emoji_extensions(),
            r.emoji_options.recursive == options.recursive,
            r.emoji_options.dry_run == options.dry_run,
            r.whitespace_options.remove_trailing,
            views(r.whitespace_options.file_extensions@) == whitespace_extensions(),
            r.whitespace_options.recursive == options.recursive,
            r.whitespace_options.dry_run == options.dry_run,
    {
        let mut rename_options = RenameOptions::default();
        rename_options.case_transform = CaseTransform::Lowercase;
        rename_options.recursive = options.recursive;
        rename_options.dry_run = options.dry_run;

        let mut emoji_options = EmojiOptions::default();
        emoji_options.recursive = options.recursive;
        emoji_options.dry_run = options.dry_run;

        let mut whitespace_options = WhitespaceOptions::default();
        whitespace_options.recursive = options.recursive;
        whitespace_options.dry_run = options.dry_run;

        CombinedProcessor { options, rename_options, emoji_options, whitespace_options }
    }

    /// The name under which a file called `file_name` is found after the
    /// renaming step renamed it: the whole name in lowercase.
    pub fn name_after_rename(&self, file_name: &str) -> (r: String)
        ensures
            r@ == lower(file_name@),
    {
        to_lower(file_name)
    }

    /// Creates a processor with default options.
    pub fn with_defaults() -> (r: Self)
        ensures
            r.options.recursive && !r.options.dry_run,
            r.rename_options.case_transform == CaseTransform::Lowercase,
            r.rename_options.recursive && !r.rename_options.dry_run,
            r.emoji_options.recursive && !r.emoji_options.dry_run,
            r.whitespace_options.recursive && !r.whitespace_options.dry_run,
    {
        CombinedProcessor::new(CombinedOptions::default())
    }
}

} // verus!
