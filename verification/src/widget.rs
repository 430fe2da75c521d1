//! The declarative widget tree that the SwiftUI emitter walks.
//!
//! Every number of a widget (a spacing, a padding, a font size, ...) is held
//! as the Swift source text it is written as: the value without a trailing
//! `.0` when it is integral (`8`, `0.5`). The emitter only ever writes such
//! numbers out, so their text is all it reads of them.

use vstd::prelude::*;
use crate::emit::font_text;

verus! {

/// The type of one field of a timeline entry.
#[derive(Debug, Clone, Copy, PartialEq, Eq)]
pub enum WidgetFieldType {
    String,
    Number,
    Boolean,
}

/// The three stack layouts.
#[derive(Debug, Clone, Copy, PartialEq, Eq)]
pub enum WidgetStackKind {
    VStack,
    HStack,
    ZStack,
}

/// One piece of a text template.
#[derive(Debug, Clone, PartialEq, Eq)]
pub enum WidgetTemplatePart {
    /// Text written as it is.
    Literal(String),
    /// The value of an entry field.
    Field(String),
}

/// What a text view shows.
#[derive(Debug, Clone, PartialEq, Eq)]
pub enum WidgetTextContent {
    /// A fixed text.
    Literal(String),
    /// The value of an entry field.
    Field(String),
    /// Fixed text and field values, in order.
    Template(Vec<WidgetTemplatePart>),
}

/// The comparison of a conditional node.
#[derive(Debug, Clone, Copy, PartialEq, Eq)]
pub enum WidgetConditionOp {
    Truthy,
    GreaterThan,
    LessThan,
    Equals,
    NotEquals,
}

/// A font.
#[derive(Debug, Clone, PartialEq, Eq)]
pub enum WidgetFont {
    /// The system font at a size (its number text).
    System(String),
    /// A font by name.
    Named(String),
    Headline,
    Title,
    Title2,
    Title3,
    Body,
    Caption,
    Caption2,
    Footnote,
    Subheadline,
    LargeTitle,
}

/// A view modifier. Numbers are held as their number text.
#[derive(Debug, Clone, PartialEq, Eq)]
pub enum WidgetModifier {
    Font(WidgetFont),
    FontWeight(String),
    ForegroundColor(String),
    Padding(String),
    Frame { width: Option<String>, height: Option<String> },
    CornerRadius(String),
    Background(String),
    Opacity(String),
    LineLimit(u32),
    Multiline,
}

/// A node of the render tree.
#[derive(Debug)]
pub enum WidgetNode {
    Text { content: WidgetTextContent, modifiers: Vec<WidgetModifier> },
    Stack {
        kind: WidgetStackKind,
        /// The spacing's number text, when one is set.
        spacing: Option<String>,
        children: Vec<WidgetNode>,
        modifiers: Vec<WidgetModifier>,
    },
    Image { system_name: String, modifiers: Vec<WidgetModifier> },
    Spacer,
    /// `if <entry>.<field> <op> <value>`. When `value` is a literal that reads
    /// as a number, `value_number` holds that number's text, and the
    /// comparison is written against the number rather than the string.
    Conditional {
        field: String,
        op: WidgetConditionOp,
        value: WidgetTextContent,
        value_number: Option<String>,
        then_node: Box<WidgetNode>,
        else_node: Option<Box<WidgetNode>>,
    },
}

/// A widget declaration.
#[derive(Debug)]
pub struct WidgetDecl {
    pub kind: String,
    pub display_name: String,
    pub description: String,
    pub supported_families: Vec<String>,
    pub entry_fields: Vec<(String, WidgetFieldType)>,
    pub render_body: Vec<WidgetNode>,
    pub entry_param_name: String,
}

/// Each named text style has a text of its own: two different named styles
/// never give the same `.font(..)` argument.
pub proof fn lemma_font_styles_distinct(f: WidgetFont, g: WidgetFont)
    requires
        !(f is System) && !(f is Named),
        !(g is System) && !(g is Named),
        f != g,
    ensures
        font_text(f) != font_text(g),
{
    reveal_strlit(".headline");
    reveal_strlit(".title");
    reveal_strlit(".title2");
    reveal_strlit(".title3");
    reveal_strlit(".body");
    reveal_strlit(".caption");
    reveal_strlit(".caption2");
    reveal_strlit(".footnote");
    reveal_strlit(".subheadline");
    reveal_strlit(".largeTitle");
    if font_text(f) == font_text(g) {
        assert(font_text(f).len() == font_text(g).len());
        assert(font_text(f)[1] == font_text(g)[1]);
        assert(font_text(f)[2] == font_text(g)[2]);
        assert(font_text(f)[font_text(f).len() - 1] == font_text(g)[font_text(g).len() - 1]);
    }
}

} // verus!
