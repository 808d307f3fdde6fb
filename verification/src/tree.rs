//! The typed parse tree the reducer consumes.
//!
//! An external tokenizer produces these nodes in document order.  Every
//! stretch of the document is covered by exactly one node: plain text
//! segments carry their exact source text, and so do metadata lines and
//! comments, so the instruction text can be rebuilt by one ordered pass
//! with no searching.

use vstd::prelude::*;

verus! {

/// One sub-token of an ingredient mention.
#[derive(Debug)]
pub enum IngredientToken {
    /// A word of the ingredient's display name.
    Name(String),
    /// Free text inside the mention, joined into the name as well.
    Text(String),
    /// A numeric token, still unparsed.
    Number(String),
    /// The serving-bracket separator.
    Separator,
    /// A preparation note; scanned and discarded.
    Modified(String),
    /// The declared unit.
    Unit(String),
    /// The scaling marker.
    Scaling,
}

/// The mathematical shadow of [`IngredientToken`].
pub enum IngredientTokenModel {
    Name(Seq<char>),
    Text(Seq<char>),
    Number(Seq<char>),
    Separator,
    Modified(Seq<char>),
    Unit(Seq<char>),
    Scaling,
}

impl View for IngredientToken {
    type V = IngredientTokenModel;

    open spec fn view(&self) -> IngredientTokenModel {
        match self {
            IngredientToken::Name(s) => IngredientTokenModel::Name(s@),
            IngredientToken::Text(s) => IngredientTokenModel::Text(s@),
            IngredientToken::Number(s) => IngredientTokenModel::Number(s@),
            IngredientToken::Separator => IngredientTokenModel::Separator,
            IngredientToken::Modified(s) => IngredientTokenModel::Modified(s@),
            IngredientToken::Unit(s) => IngredientTokenModel::Unit(s@),
            IngredientToken::Scaling => IngredientTokenModel::Scaling,
        }
    }
}

/// One span inside a step line.
#[derive(Debug)]
pub enum StepItem {
    /// Plain step text, preserved verbatim.
    Text(String),
    /// An ingredient mention, replaced by `@`.
    Ingredient(Vec<IngredientToken>),
    /// A cookware mention, replaced by `#`; the pieces of its name.
    Cookware(Vec<String>),
    /// A timer mention, replaced by `~`.
    Timer { number: Option<String>, unit: Option<String> },
    /// A comment span, removed.
    Comment(String),
}

/// The mathematical shadow of [`StepItem`].
pub enum StepItemModel {
    Text(Seq<char>),
    Ingredient(Seq<IngredientTokenModel>),
    Cookware(Seq<Seq<char>>),
    Timer { number: Option<Seq<char>>, unit: Option<Seq<char>> },
    Comment(Seq<char>),
}

impl View for StepItem {
    type V = StepItemModel;

    open spec fn view(&self) -> StepItemModel {
        match self {
            StepItem::Text(s) => StepItemModel::Text(s@),
            StepItem::Ingredient(ts) => StepItemModel::Ingredient(
                ts@.map_values(|t: IngredientToken| t@),
            ),
            StepItem::Cookware(ns) => StepItemModel::Cookware(ns@.map_values(|n: String| n@)),
            StepItem::Timer { number, unit } => StepItemModel::Timer {
                number: crate::model::view_opt_string(*number),
                unit: crate::model::view_opt_string(*unit),
            },
            StepItem::Comment(s) => StepItemModel::Comment(s@),
        }
    }
}

/// One top-level node of the document.
#[derive(Debug)]
pub enum Block {
    /// Plain text between recognized spans, preserved verbatim.
    Text(String),
    /// A metadata line; `text` is the exact source line, preserved.
    MetadataLine { key: String, value: String, text: String },
    /// A top-level comment, removed.
    Comment(String),
    /// A step line's spans, in order.
    Step(Vec<StepItem>),
}

/// The mathematical shadow of [`Block`].
pub enum BlockModel {
    Text(Seq<char>),
    MetadataLine { key: Seq<char>, value: Seq<char>, text: Seq<char> },
    Comment(Seq<char>),
    Step(Seq<StepItemModel>),
}

impl View for Block {
    type V = BlockModel;

    open spec fn view(&self) -> BlockModel {
        match self {
            Block::Text(s) => BlockModel::Text(s@),
            Block::MetadataLine { key, value, text } => BlockModel::MetadataLine {
                key: key@,
                value: value@,
                text: text@,
            },
            Block::Comment(s) => BlockModel::Comment(s@),
            Block::Step(items) => BlockModel::Step(items@.map_values(|x: StepItem| x@)),
        }
    }
}

} // verus!
