//! Batch text transformations: identifier case conversion, trailing
//! whitespace removal, emoji replacement and file renaming.
pub mod case;
pub mod combined;
pub mod converter;
pub mod emoji;
pub mod files;
pub mod laws;
pub mod letters;
pub mod matching;
pub mod plugins;
pub mod rename;
pub mod text;
pub mod whitespace;

pub use case::CaseFormat;
pub use combined::{CombinedOptions, CombinedProcessor, CombinedStats};
pub use converter::{CaseConverter, ConvertError, MatchOutcome};
pub use emoji::{EmojiOptions, EmojiTransformer};
pub use plugins::PluginManager;
pub use rename::{CaseTransform, FileRenamer, RenameOptions, SpaceReplace};
pub use whitespace::{WhitespaceCleaner, WhitespaceOptions};
