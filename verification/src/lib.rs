//! Semantic reducer for a line-oriented cooking markup.
//!
//! An external tokenizer turns a recipe document into a typed parse tree
//! ([`tree::Block`]).  This crate walks that tree once and produces a
//! [`Recipe`]: normalized metadata, a deduplicated ingredient table, and an
//! instruction text in which every ingredient, cookware and timer mention is
//! replaced by a positional marker character (`@`, `#`, `~`) and every
//! comment span is removed.

pub mod amount;
pub mod error;
pub mod imap;
pub mod laws;
pub mod model;
pub mod qty;
pub mod reduce;
pub mod text;
pub mod tree;

pub use amount::Amount;
pub use amount::AmountModel;
pub use amount::apply_next_number;
pub use error::CookError;
pub use error::CookErrorModel;
pub use model::Ingredient;
pub use model::IngredientSpecifier;
pub use model::Metadata;
pub use model::Recipe;
pub use model::StrMap;
pub use model::Timer;
pub use qty::Qty;
pub use reduce::parse;
pub use tree::Block;
pub use tree::IngredientToken;
pub use tree::StepItem;
