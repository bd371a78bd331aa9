//! The input model: one atomic unit of the parsed document stream.
//!
//! A document arrives as a flat sequence of [`Event`]s in document order.
//! The sequence is well-nested: every `Event::Start` has exactly one
//! matching `Event::End` later in the stream, with no interleaving. That
//! invariant is guaranteed by the upstream parser and is never re-validated
//! here; [`well_nested`] states it for use in proofs.

use vstd::prelude::*;

verus! {

/// Heading depth, `<h1>` through `<h6>`.
#[derive(Clone, Copy, Debug, PartialEq, Eq, Structural)]
pub enum HeadingLevel {
    H1,
    H2,
    H3,
    H4,
    H5,
    H6,
}

/// Column alignment of a table, one entry per column.
#[derive(Clone, Copy, Debug, PartialEq, Eq, Structural)]
pub enum Alignment {
    Unset,
    Left,
    Center,
    Right,
}

/// The alert kind of a block quote, when the quote is an alert.
#[derive(Clone, Copy, Debug, PartialEq, Eq, Structural)]
pub enum AlertKind {
    Note,
    Tip,
    Important,
    Warning,
    Caution,
}

/// How a code block was written in the source.
#[derive(Clone, Debug)]
pub enum CodeBlockKind {
    /// A fenced block; the payload is the info string after the fence.
    Fenced(String),
    Indented,
}

/// The flavor of a link. Only e-mail autolinks render differently.
#[derive(Clone, Copy, Debug, PartialEq, Eq, Structural)]
pub enum LinkKind {
    Email,
    Other,
}

/// Payload of a `Start` event: the structure being opened.
#[derive(Clone, Debug)]
pub enum Tag {
    Paragraph,
    Heading {
        level: HeadingLevel,
        id: Option<String>,
        classes: Vec<String>,
        attrs: Vec<(String, Option<String>)>,
    },
    BlockQuote(Option<AlertKind>),
    CodeBlock(CodeBlockKind),
    HtmlBlock,
    /// A list; `Some(n)` is an ordered list starting at `n`, `None` a bullet list.
    List(Option<u64>),
    Item,
    FootnoteDefinition(String),
    DefinitionList,
    DefinitionListTitle,
    DefinitionListDefinition,
    Table(Vec<Alignment>),
    TableHead,
    TableRow,
    TableCell,
    Emphasis,
    Strong,
    Strikethrough,
    Subscript,
    Superscript,
    Link { kind: LinkKind, dest_url: String, title: String },
    Image { dest_url: String, title: String },
    MetadataBlock,
}

/// Payload of an `End` event: the structure being closed.
#[derive(Clone, Copy, Debug, PartialEq, Eq, Structural)]
pub enum TagEnd {
    Paragraph,
    Heading(HeadingLevel),
    BlockQuote,
    CodeBlock,
    HtmlBlock,
    /// `true` closes an ordered list, `false` a bullet list.
    List(bool),
    Item,
    FootnoteDefinition,
    DefinitionList,
    DefinitionListTitle,
    DefinitionListDefinition,
    Table,
    TableHead,
    TableRow,
    TableCell,
    Emphasis,
    Strong,
    Strikethrough,
    Subscript,
    Superscript,
    Link,
    Image,
    MetadataBlock,
}

/// One unit of the parsed document stream.
#[derive(Clone, Debug)]
pub enum Event {
    Start(Tag),
    End(TagEnd),
    Text(String),
    Code(String),
    InlineMath(String),
    DisplayMath(String),
    Html(String),
    InlineHtml(String),
    SoftBreak,
    HardBreak,
    Rule,
    FootnoteReference(String),
    TaskListMarker(bool),
}

/// The closing payload that matches an opening tag.
pub open spec fn end_of(t: Tag) -> TagEnd {
    match t {
        Tag::Paragraph => TagEnd::Paragraph,
        Tag::Heading { level, .. } => TagEnd::Heading(level),
        Tag::BlockQuote(_) => TagEnd::BlockQuote,
        Tag::CodeBlock(_) => TagEnd::CodeBlock,
        Tag::HtmlBlock => TagEnd::HtmlBlock,
        Tag::List(start) => TagEnd::List(start is Some),
        Tag::Item => TagEnd::Item,
        Tag::FootnoteDefinition(_) => TagEnd::FootnoteDefinition,
        Tag::DefinitionList => TagEnd::DefinitionList,
        Tag::DefinitionListTitle => TagEnd::DefinitionListTitle,
        Tag::DefinitionListDefinition => TagEnd::DefinitionListDefinition,
        Tag::Table(_) => TagEnd::Table,
        Tag::TableHead => TagEnd::TableHead,
        Tag::TableRow => TagEnd::TableRow,
        Tag::TableCell => TagEnd::TableCell,
        Tag::Emphasis => TagEnd::Emphasis,
        Tag::Strong => TagEnd::Strong,
        Tag::Strikethrough => TagEnd::Strikethrough,
        Tag::Subscript => TagEnd::Subscript,
        Tag::Superscript => TagEnd::Superscript,
        Tag::Link { .. } => TagEnd::Link,
        Tag::Image { .. } => TagEnd::Image,
        Tag::MetadataBlock => TagEnd::MetadataBlock,
    }
}

/// The stack of structures left open after the first `i` events, or `None`
/// once some closing event failed to match the innermost open structure.
pub open spec fn open_stack(evs: Seq<Event>, i: int) -> Option<Seq<TagEnd>>
    decreases i,
{
    if i <= 0 {
        Some(Seq::empty())
    } else {
        match open_stack(evs, i - 1) {
            Option::None => Option::None,
            Option::Some(stk) => match evs[i - 1] {
                Event::Start(t) => Some(stk.push(end_of(t))),
                Event::End(e) => {
                    if stk.len() > 0 && stk.last() == e {
                        Some(stk.drop_last())
                    } else {
                        Option::None
                    }
                },
                _ => Some(stk),
            },
        }
    }
}

/// Every opening event has exactly one matching closing event, properly
/// bracketed, and nothing is left open at the end of the stream.
pub open spec fn well_nested(evs: Seq<Event>) -> bool {
    open_stack(evs, evs.len() as int) == Some(Seq::<TagEnd>::empty())
}

/// Once the nesting discipline has failed, it stays failed.
pub proof fn lemma_open_stack_none_persists(evs: Seq<Event>, i: int, j: int)
    requires
        0 <= i <= j,
        open_stack(evs, i) is None,
    ensures
        open_stack(evs, j) is None,
    decreases j - i,
{
    if j > i {
        lemma_open_stack_none_persists(evs, i, j - 1);
    }
}

/// Every prefix of a well-nested stream keeps the discipline.
pub proof fn lemma_well_nested_prefix_some(evs: Seq<Event>, i: int)
    requires
        well_nested(evs),
        0 <= i <= evs.len(),
    ensures
        open_stack(evs, i) is Some,
{
    if open_stack(evs, i) is None {
        lemma_open_stack_none_persists(evs, i, evs.len() as int);
    }
}

} // verus!
