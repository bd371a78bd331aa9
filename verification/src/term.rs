//! The terminal emitter.
//!
//! [`TerminalEmitter::run`] consumes the event sequence once and produces
//! ANSI-styled plain text, parameterized by an immutable [`Theme`]. The
//! whole rendering is specified by the spec-level state machine
//! [`term_run_from`]: a stack machine over the nesting structure, driven
//! purely by the pairing of start and end events.

use crate::escape;
use crate::event::{Alignment, CodeBlockKind, Event, HeadingLevel, LinkKind, Tag, TagEnd};
use crate::footnote::{fnote_insert, fnote_num, FootnoteNumbers};
use crate::style;
use crate::style::{decorated, styled, Style};
use crate::table;
use crate::table::table_text;
use crate::text;
use crate::text::{dec_str, ends_nl, first_token, nl_pfx, push_nl, repeat_seq, trimmed};
use crate::theme::Theme;
use vstd::prelude::*;

verus! {

/// One open list: an ordered list with the index its next item gets, or a
/// bullet list.
#[derive(Clone, Copy, Debug, PartialEq, Eq, Structural)]
pub enum ListState {
    Ordered(u64),
    Unordered,
}

/// A list-item marker that has been computed but not yet written: it is
/// flushed by the first content inside the item, so an empty item prints
/// no dangling marker, and a task-list item can replace its bullet by a
/// checkbox.
#[derive(Clone, Copy, Debug, PartialEq, Eq, Structural)]
pub enum Marker {
    Ordinal(u64),
    Bullet,
}

/// The render state of one terminal render pass.
#[verifier::ext_equal]
pub struct TermSt {
    /// The immutable theme; only read, never changed.
    pub theme: Theme,
    /// The output currently ends at a block boundary.
    pub end_newline: bool,
    /// Inside a metadata block whose text must not be emitted.
    pub in_non_writing_block: bool,
    pub in_heading: bool,
    pub heading_level: Option<HeadingLevel>,
    /// The level-one banner's leading space has been written.
    pub h1_started: bool,
    pub in_block_quote: bool,
    pub in_code_block: bool,
    pub in_link: bool,
    pub in_table_head: bool,
    pub in_table: bool,
    pub in_table_cell: bool,
    /// One entry per open list, innermost last.
    pub list_stack: Seq<ListState>,
    /// The buffered header row of the current table, once its row ended.
    pub table_header_row: Option<Seq<Seq<char>>>,
    /// The buffered body rows of the current table.
    pub table_rows: Seq<Seq<Seq<char>>>,
    /// The cells of the row being traversed.
    pub current_row: Seq<Seq<char>>,
    /// The text of the cell being traversed.
    pub current_cell: Seq<char>,
    pub pending_marker: Option<Marker>,
    /// Footnote names in order of first encounter.
    pub numbers: Seq<Seq<char>>,
    /// One destination per open link, innermost last.
    pub link_stack: Seq<Seq<char>>,
}

/// The state a render pass starts from.
pub open spec fn term_init(theme: Theme) -> TermSt {
    TermSt {
        theme,
        end_newline: true,
        in_non_writing_block: false,
        in_heading: false,
        heading_level: Option::None,
        h1_started: false,
        in_block_quote: false,
        in_code_block: false,
        in_link: false,
        in_table_head: false,
        in_table: false,
        in_table_cell: false,
        list_stack: Seq::empty(),
        table_header_row: Option::None,
        table_rows: Seq::empty(),
        current_row: Seq::empty(),
        current_cell: Seq::empty(),
        pending_marker: Option::None,
        numbers: Seq::empty(),
        link_stack: Seq::empty(),
    }
}

/// The display form of a pending list marker.
pub open spec fn marker_text(th: Theme, m: Marker) -> Seq<char> {
    match m {
        Marker::Ordinal(n) => styled(dec_str(n as nat) + ". "@, th.list_marker),
        Marker::Bullet => styled("• "@, th.list_marker),
    }
}

/// Writes the pending list marker, if one is waiting.
#[verifier::opaque]
pub open spec fn flushed(st: TermSt, out: Seq<char>) -> (TermSt, Seq<char>) {
    match st.pending_marker {
        Some(m) => (
            TermSt { pending_marker: Option::None, ..st },
            out + marker_text(st.theme, m),
        ),
        Option::None => (st, out),
    }
}

/// The style that plain text takes from the enclosing structure: code
/// block, then heading (the level-one banner or plain bold), then quote,
/// then table header, then link text; none outside all of them.
#[verifier::opaque]
pub open spec fn text_style(st: TermSt) -> Option<Style> {
    if st.in_code_block {
        Some(st.theme.code)
    } else if st.in_heading {
        if st.heading_level == Some(HeadingLevel::H1) {
            Some(decorated(st.theme.heading, true, false, false, true))
        } else {
            Some(decorated(st.theme.heading, true, false, false, false))
        }
    } else if st.in_block_quote {
        Some(st.theme.block_quote)
    } else if st.in_table_head {
        Some(st.theme.table_header)
    } else if st.in_link {
        Some(decorated(st.theme.link, true, false, false, false))
    } else {
        Option::None
    }
}

/// Styled text output: inside a level-one heading the first text also
/// writes the banner's leading styled space.
#[verifier::opaque]
pub open spec fn push_text_sp(st: TermSt, out: Seq<char>, t: Seq<char>) -> (TermSt, Seq<char>) {
    match text_style(st) {
        Some(sty) => {
            if st.heading_level == Some(HeadingLevel::H1) && !st.h1_started {
                (
                    TermSt { h1_started: true, ..st },
                    out + styled(" "@, sty) + styled(t, sty),
                )
            } else {
                (st, out + styled(t, sty))
            }
        },
        Option::None => (st, out + t),
    }
}

/// The styled quote bar glyph.
pub open spec fn bar(th: Theme) -> Seq<char> {
    styled("│"@, th.quote_bar)
}

/// The bracketed label line of an alert block quote.
pub open spec fn alert_label(k: crate::event::AlertKind) -> Seq<char> {
    match k {
        crate::event::AlertKind::Note => "[!NOTE]"@,
        crate::event::AlertKind::Tip => "[!TIP]"@,
        crate::event::AlertKind::Important => "[!IMPORTANT]"@,
        crate::event::AlertKind::Warning => "[!WARNING]"@,
        crate::event::AlertKind::Caution => "[!CAUTION]"@,
    }
}

/// Whether the output ends with a blank line.
pub open spec fn ends2nl(s: Seq<char>) -> bool {
    s.len() >= 2 && s[s.len() - 1] == '\n' && s[s.len() - 2] == '\n'
}

/// The number of `#` characters a heading level prints.
pub open spec fn level_num(l: HeadingLevel) -> nat {
    match l {
        HeadingLevel::H1 => 1,
        HeadingLevel::H2 => 2,
        HeadingLevel::H3 => 3,
        HeadingLevel::H4 => 4,
        HeadingLevel::H5 => 5,
        HeadingLevel::H6 => 6,
    }
}

/// The horizontal rule line.
pub open spec fn rule_text() -> Seq<char> {
    "----------------------------------------\n"@
}

/// The next-item counter of an ordered list, which stops at the largest
/// representable index rather than wrap.
pub open spec fn bump(l: ListState) -> ListState {
    match l {
        ListState::Ordered(n) => if n < u64::MAX {
            ListState::Ordered((n + 1) as u64)
        } else {
            l
        },
        ListState::Unordered => l,
    }
}

/// The state transition and output of one opening tag (images excepted:
/// the driver handles them, because they consume the stream).
#[verifier::opaque]
pub open spec fn term_start(st: TermSt, out: Seq<char>, t: Tag) -> (TermSt, Seq<char>) {
    match t {
        Tag::Paragraph => (st, out + nl_pfx(st.end_newline)),
        Tag::Heading { level, .. } => (
            TermSt {
                in_heading: true,
                heading_level: Some(level),
                h1_started: false,
                ..st
            },
            out + nl_pfx(st.end_newline) + if level is H1 {
                Seq::<char>::empty()
            } else {
                repeat_seq("#"@, level_num(level)) + " "@
            },
        ),
        Tag::BlockQuote(kind) => {
            let o1 = if ends2nl(out) {
                out.drop_last()
            } else {
                out
            };
            let o2 = o1 + nl_pfx(st.end_newline) + bar(st.theme);
            let o3 = match kind {
                Option::None => o2 + " "@,
                Some(k) => o2 + " "@ + styled(alert_label(k), st.theme.block_quote) + "\n"@ + bar(
                    st.theme,
                ) + " "@,
            };
            (TermSt { in_block_quote: true, ..st }, o3)
        },
        Tag::CodeBlock(kind) => (
            TermSt { in_code_block: true, ..st },
            out + nl_pfx(st.end_newline) + "```"@ + (match kind {
                CodeBlockKind::Fenced(info) => first_token(info@),
                CodeBlockKind::Indented => Seq::<char>::empty(),
            }) + "\n"@,
        ),
        Tag::HtmlBlock => (st, out),
        Tag::List(Some(start)) => (
            TermSt { list_stack: st.list_stack.push(ListState::Ordered(start)), ..st },
            out,
        ),
        Tag::List(Option::None) => (
            TermSt { list_stack: st.list_stack.push(ListState::Unordered), ..st },
            out,
        ),
        Tag::Item => (
            TermSt {
                pending_marker: Some(
                    if st.list_stack.len() > 0 {
                        match st.list_stack.last() {
                            ListState::Ordered(idx) => Marker::Ordinal(idx),
                            ListState::Unordered => Marker::Bullet,
                        }
                    } else {
                        Marker::Bullet
                    },
                ),
                ..st
            },
            out + nl_pfx(st.end_newline),
        ),
        Tag::FootnoteDefinition(name) => (
            TermSt { numbers: fnote_insert(st.numbers, name@), ..st },
            out + nl_pfx(st.end_newline) + styled(
                "[^"@ + dec_str(fnote_num(st.numbers, name@) as nat) + "]: "@,
                st.theme.footnote,
            ),
        ),
        Tag::DefinitionList => (st, out + nl_pfx(st.end_newline)),
        Tag::DefinitionListTitle => (st, out + nl_pfx(st.end_newline)),
        Tag::DefinitionListDefinition => (st, out + nl_pfx(st.end_newline) + ": "@),
        Tag::Table(_) => (
            TermSt {
                in_table: true,
                table_header_row: Option::None,
                table_rows: Seq::empty(),
                ..st
            },
            out + nl_pfx(st.end_newline),
        ),
        Tag::TableHead => (TermSt { in_table_head: true, ..st }, out),
        Tag::TableRow => (
            TermSt { current_row: Seq::empty(), ..st },
            out + nl_pfx(st.end_newline),
        ),
        Tag::TableCell => (
            TermSt { in_table_cell: true, current_cell: Seq::empty(), ..st },
            out,
        ),
        Tag::Emphasis => (st, out + styled("*"@, st.theme.code)),
        Tag::Strong => (st, out + styled("**"@, st.theme.code)),
        Tag::Strikethrough => (st, out + styled("~~"@, st.theme.code)),
        Tag::Subscript => (st, out + "~"@),
        Tag::Superscript => (st, out + "^"@),
        Tag::Link { kind, dest_url, .. } => (
            TermSt {
                in_link: true,
                link_stack: st.link_stack.push(
                    if kind is Email {
                        "mailto:"@ + dest_url@
                    } else {
                        dest_url@
                    },
                ),
                ..st
            },
            out,
        ),
        Tag::Image { .. } => (st, out),
        Tag::MetadataBlock => (TermSt { in_non_writing_block: true, ..st }, out),
    }
}

/// The state transition and output of one closing tag.
#[verifier::opaque]
pub open spec fn term_end(st: TermSt, out: Seq<char>, e: TagEnd) -> (TermSt, Seq<char>) {
    match e {
        TagEnd::Paragraph => (TermSt { end_newline: true, ..st }, out + "\n\n"@),
        TagEnd::Heading(level) => (
            TermSt {
                in_heading: false,
                heading_level: Option::None,
                h1_started: false,
                end_newline: true,
                ..st
            },
            (if level is H1 {
                out + styled(" "@, decorated(st.theme.heading, true, false, false, true))
            } else {
                out
            }) + "\n\n"@,
        ),
        TagEnd::Table => {
            if st.in_table {
                let rows = match st.table_header_row {
                    Some(h) => seq![h] + st.table_rows,
                    Option::None => st.table_rows,
                };
                (
                    TermSt {
                        in_table: false,
                        table_header_row: Option::None,
                        table_rows: rows,
                        end_newline: true,
                        ..st
                    },
                    out + table_text(rows) + "\n"@,
                )
            } else {
                (TermSt { in_table: false, end_newline: true, ..st }, out + "\n"@)
            }
        },
        TagEnd::TableHead => (
            TermSt {
                in_table_head: false,
                table_header_row: Some(st.current_row),
                current_row: Seq::empty(),
                end_newline: true,
                ..st
            },
            out,
        ),
        TagEnd::TableRow => {
            let s1 = if st.in_table_cell {
                TermSt {
                    current_row: st.current_row.push(trimmed(st.current_cell)),
                    in_table_cell: false,
                    ..st
                }
            } else {
                st
            };
            if s1.in_table_head {
                (
                    TermSt {
                        table_header_row: Some(s1.current_row),
                        end_newline: true,
                        ..s1
                    },
                    out,
                )
            } else {
                (
                    TermSt {
                        table_rows: s1.table_rows.push(s1.current_row),
                        end_newline: true,
                        ..s1
                    },
                    out,
                )
            }
        },
        TagEnd::TableCell => (
            if st.in_table_cell {
                TermSt {
                    current_row: st.current_row.push(trimmed(st.current_cell)),
                    in_table_cell: false,
                    ..st
                }
            } else {
                st
            },
            out,
        ),
        TagEnd::BlockQuote => (
            TermSt { in_block_quote: false, end_newline: true, ..st },
            out + "\n"@,
        ),
        TagEnd::CodeBlock => (
            TermSt { in_code_block: false, end_newline: true, ..st },
            out + "```\n\n"@,
        ),
        TagEnd::List(_) => (
            TermSt {
                list_stack: if st.list_stack.len() > 0 {
                    st.list_stack.drop_last()
                } else {
                    st.list_stack
                },
                end_newline: true,
                ..st
            },
            out + "\n"@,
        ),
        TagEnd::Item => (
            TermSt {
                pending_marker: Option::None,
                list_stack: if st.list_stack.len() > 0 {
                    st.list_stack.update(
                        st.list_stack.len() - 1,
                        bump(st.list_stack.last()),
                    )
                } else {
                    st.list_stack
                },
                end_newline: true,
                ..st
            },
            out + "\n"@,
        ),
        TagEnd::DefinitionList => (TermSt { end_newline: true, ..st }, out + "\n"@),
        TagEnd::DefinitionListTitle => (TermSt { end_newline: true, ..st }, out + "\n"@),
        TagEnd::DefinitionListDefinition => (TermSt { end_newline: true, ..st }, out + "\n"@),
        TagEnd::Emphasis => (st, out + styled("*"@, st.theme.code)),
        TagEnd::Strong => (st, out + styled("**"@, st.theme.code)),
        TagEnd::Strikethrough => (st, out + styled("~~"@, st.theme.code)),
        TagEnd::Superscript => (st, out + "^"@),
        TagEnd::Subscript => (st, out + "~"@),
        TagEnd::Link => {
            if st.link_stack.len() > 0 {
                let dest = st.link_stack.last();
                (
                    TermSt {
                        in_link: false,
                        link_stack: st.link_stack.drop_last(),
                        ..st
                    },
                    if dest.len() > 0 {
                        out + " ("@ + styled(
                            dest,
                            decorated(st.theme.link, false, true, true, false),
                        ) + ")"@
                    } else {
                        out
                    },
                )
            } else {
                (TermSt { in_link: false, ..st }, out)
            }
        },
        TagEnd::Image => (st, out),
        TagEnd::FootnoteDefinition => (TermSt { end_newline: true, ..st }, out + "\n"@),
        TagEnd::MetadataBlock => (TermSt { in_non_writing_block: false, ..st }, out),
        TagEnd::HtmlBlock => (st, out),
    }
}

/// The state transition and output of one event other than an image start.
#[verifier::opaque]
pub open spec fn term_step(st: TermSt, out: Seq<char>, ev: Event) -> (TermSt, Seq<char>) {
    match ev {
        Event::Start(t) => term_start(st, out, t),
        Event::End(e) => term_end(st, out, e),
        Event::Text(t) => {
            if st.in_non_writing_block {
                (st, out)
            } else if st.in_table_cell {
                (
                    TermSt {
                        current_cell: st.current_cell + t@,
                        end_newline: ends_nl(t@),
                        ..st
                    },
                    out,
                )
            } else {
                let (s1, o1) = flushed(st, out);
                let (s2, o2) = push_text_sp(s1, o1, t@);
                (TermSt { end_newline: ends_nl(t@), ..s2 }, o2)
            }
        },
        Event::Code(t) => {
            if st.in_table_cell {
                (TermSt { current_cell: st.current_cell + t@, ..st }, out)
            } else {
                let (s1, o1) = flushed(st, out);
                (s1, o1 + "`"@ + styled(t@, st.theme.code) + "`"@)
            }
        },
        Event::InlineMath(t) => {
            if st.in_table_cell {
                (
                    TermSt { current_cell: st.current_cell + "$"@ + t@ + "$"@, ..st },
                    out,
                )
            } else {
                let (s1, o1) = flushed(st, out);
                (s1, o1 + "$"@ + styled(t@, st.theme.code) + "$"@)
            }
        },
        Event::DisplayMath(t) => {
            if st.in_table_cell {
                (
                    TermSt { current_cell: st.current_cell + "$$"@ + t@ + "$$"@, ..st },
                    out,
                )
            } else {
                let (s1, o1) = flushed(st, out);
                (s1, o1 + "$$"@ + styled(t@, st.theme.code) + "$$"@)
            }
        },
        Event::Html(_) => (st, out),
        Event::InlineHtml(_) => (st, out),
        Event::SoftBreak => {
            if st.in_table_cell {
                (TermSt { current_cell: st.current_cell + " "@, ..st }, out)
            } else {
                let (s1, o1) = flushed(st, out);
                (s1, o1 + " "@)
            }
        },
        Event::HardBreak => {
            if st.in_table_cell {
                (TermSt { current_cell: st.current_cell + " "@, ..st }, out)
            } else {
                let (s1, o1) = flushed(st, out);
                (TermSt { end_newline: true, ..s1 }, o1 + "\n"@)
            }
        },
        Event::Rule => {
            if st.in_table_cell {
                (TermSt { current_cell: st.current_cell + "—"@, ..st }, out)
            } else {
                (
                    TermSt { end_newline: true, ..st },
                    out + nl_pfx(st.end_newline) + styled(rule_text(), st.theme.rule),
                )
            }
        },
        Event::FootnoteReference(name) => {
            let label = "[^"@ + dec_str(fnote_num(st.numbers, name@) as nat) + "]"@;
            if st.in_table_cell {
                (
                    TermSt {
                        current_cell: st.current_cell + label,
                        numbers: fnote_insert(st.numbers, name@),
                        ..st
                    },
                    out,
                )
            } else {
                let (s1, o1) = flushed(st, out);
                (
                    TermSt { numbers: fnote_insert(s1.numbers, name@), ..s1 },
                    o1 + label,
                )
            }
        },
        Event::TaskListMarker(checked) => {
            let box_text: Seq<char> = if checked {
                "[x] "@
            } else {
                "[ ] "@
            };
            if st.in_table_cell {
                (TermSt { current_cell: st.current_cell + box_text, ..st }, out)
            } else {
                let o1 = match st.pending_marker {
                    Some(Marker::Bullet) => out + "  "@,
                    Some(m) => out + marker_text(st.theme, m),
                    Option::None => out,
                };
                (
                    TermSt { pending_marker: Option::None, ..st },
                    o1 + box_text,
                )
            }
        },
    }
}

/// What one non-structural event contributes to flattened `alt` text:
/// the text itself for text-like content, one space for breaks and rules,
/// the bracketed number for a footnote reference (which takes part in the
/// shared numbering), a checkbox for a task marker, nothing for raw HTML.
/// Also the updated numbering and line-boundary flag.
#[verifier::opaque]
pub open spec fn flat_atom(numbers: Seq<Seq<char>>, end_nl: bool, ev: Event) -> (
    Seq<char>,
    Seq<Seq<char>>,
    bool,
) {
    match ev {
        Event::Text(t) => (t@, numbers, ends_nl(t@)),
        Event::Code(t) => (t@, numbers, ends_nl(t@)),
        Event::InlineMath(t) => (t@, numbers, ends_nl(t@)),
        Event::DisplayMath(t) => (t@, numbers, ends_nl(t@)),
        Event::Html(_) => (Seq::empty(), numbers, end_nl),
        Event::InlineHtml(_) => (Seq::empty(), numbers, end_nl),
        Event::SoftBreak => (" "@, numbers, end_nl),
        Event::HardBreak => (" "@, numbers, end_nl),
        Event::Rule => (" "@, numbers, end_nl),
        Event::FootnoteReference(name) => (
            "[^"@ + dec_str(fnote_num(numbers, name@) as nat) + "]"@,
            fnote_insert(numbers, name@),
            end_nl,
        ),
        Event::TaskListMarker(checked) => (
            if checked {
                "[x]"@
            } else {
                "[ ]"@
            },
            numbers,
            end_nl,
        ),
        Event::Start(_) => (Seq::empty(), numbers, end_nl),
        Event::End(_) => (Seq::empty(), numbers, end_nl),
    }
}

/// Flattening of an image's nested events into plain `alt` text, starting
/// at `i` with `nest` unclosed inner tags: structural tags only track the
/// depth, everything else contributes its [`flat_atom`]. Returns the text,
/// the updated numbering, the line-boundary flag, and the resume position
/// just after the matching end event.
pub open spec fn term_flatten(
    numbers: Seq<Seq<char>>,
    end_nl: bool,
    evs: Seq<Event>,
    i: int,
    nest: int,
) -> (Seq<char>, Seq<Seq<char>>, bool, int)
    decreases evs.len() - i,
{
    if i < 0 || i >= evs.len() {
        (Seq::empty(), numbers, end_nl, i)
    } else {
        match evs[i] {
            Event::Start(_) => term_flatten(numbers, end_nl, evs, i + 1, nest + 1),
            Event::End(_) => {
                if nest == 0 {
                    (Seq::empty(), numbers, end_nl, i + 1)
                } else {
                    term_flatten(numbers, end_nl, evs, i + 1, nest - 1)
                }
            },
            _ => {
                let a = flat_atom(numbers, end_nl, evs[i]);
                let r = term_flatten(a.1, a.2, evs, i + 1, nest);
                (a.0 + r.0, r.1, r.2, r.3)
            },
        }
    }
}

/// Flattening moves forward, never past the end, and assigns at most one
/// footnote number per consumed event.
pub proof fn lemma_term_flatten_bounds(
    numbers: Seq<Seq<char>>,
    end_nl: bool,
    evs: Seq<Event>,
    i: int,
    nest: int,
)
    requires
        0 <= i,
    ensures
        ({
            let r = term_flatten(numbers, end_nl, evs, i, nest);
            &&& i <= r.3
            &&& r.3 <= if i <= evs.len() { evs.len() as int } else { i }
            &&& r.1.len() <= numbers.len() + (r.3 - i)
        }),
    decreases evs.len() - i,
{
    reveal(flat_atom);
    if 0 <= i < evs.len() {
        match evs[i] {
            Event::Start(_) => lemma_term_flatten_bounds(numbers, end_nl, evs, i + 1, nest + 1),
            Event::End(_) => {
                if nest != 0 {
                    lemma_term_flatten_bounds(numbers, end_nl, evs, i + 1, nest - 1);
                }
            },
            _ => {
                let a = flat_atom(numbers, end_nl, evs[i]);
                lemma_term_flatten_bounds(a.1, a.2, evs, i + 1, nest);
            },
        }
    }
}

/// One step of the render driver at position `i`: the next state, the
/// whole output so far, and the next position. An image start consumes its
/// whole nested subtree; every other event consumes itself alone.
pub open spec fn term_drive(st: TermSt, out: Seq<char>, evs: Seq<Event>, i: int) -> (
    TermSt,
    Seq<char>,
    int,
) {
    match evs[i] {
        Event::Start(Tag::Image { dest_url, .. }) => {
            let f = term_flatten(st.numbers, st.end_newline, evs, i + 1, 0);
            let o1 = out + styled("[image: "@, st.theme.code) + f.0 + styled(
                "]"@,
                st.theme.code,
            );
            let o2 = if dest_url@.len() > 0 {
                o1 + " ("@ + styled(dest_url@, st.theme.link) + ")"@
            } else {
                o1
            };
            (TermSt { numbers: f.1, end_newline: f.2, ..st }, o2, f.3)
        },
        _ => {
            let (s1, o1) = term_step(st, out, evs[i]);
            (s1, o1, i + 1)
        },
    }
}

/// The whole render from state `st`, accumulated output `out` and position
/// `i`: the final state and the complete output.
pub open spec fn term_run_from(st: TermSt, out: Seq<char>, evs: Seq<Event>, i: int) -> (
    TermSt,
    Seq<char>,
)
    decreases evs.len() - i,
        when true
        via term_run_from_dec
{
    if i < 0 || i >= evs.len() {
        (st, out)
    } else {
        let d = term_drive(st, out, evs, i);
        term_run_from(d.0, d.1, evs, d.2)
    }
}

#[via_fn]
proof fn term_run_from_dec(st: TermSt, out: Seq<char>, evs: Seq<Event>, i: int) {
    if 0 <= i < evs.len() {
        match evs[i] {
            Event::Start(Tag::Image { .. }) => {
                lemma_term_flatten_bounds(st.numbers, st.end_newline, evs, i + 1, 0);
            },
            _ => {},
        }
    }
}

/// The full terminal rendering of a document under a theme: a total
/// function of the event sequence and the theme.
pub open spec fn term_of(evs: Seq<Event>, theme: Theme) -> Seq<char> {
    term_run_from(term_init(theme), Seq::empty(), evs, 0).1
}

/// Removes one newline when the output ends with a blank line.
fn trim_double_nl(out: &mut String)
    ensures
        final(out)@ == if ends2nl(old(out)@) {
            old(out)@.drop_last()
        } else {
            old(out)@
        },
{
    let n = out.as_str().unicode_len();
    if n >= 2 && out.as_str().get_char(n - 1) == '\n' && out.as_str().get_char(n - 2) == '\n' {
        let t = String::from_str(out.as_str().substring_char(0, n - 1));
        proof {
            assert(t@ =~= old(out)@.drop_last());
        }
        *out = t;
    }
}

/// An element-by-element copy of one row of buffered cells.
fn clone_row(row: &Vec<String>) -> (r: Vec<String>)
    ensures
        r@ == row@,
{
    let mut r: Vec<String> = Vec::new();
    let n = row.len();
    let mut i: usize = 0;
    while i < n
        invariant
            i <= n,
            n == row@.len(),
            r@ == row@.take(i as int),
        decreases n - i,
    {
        r.push(row[i].clone());
        proof {
            assert(r@ =~= row@.take(i as int + 1));
        }
        i += 1;
    }
    proof {
        assert(row@.take(n as int) =~= row@);
    }
    r
}

fn level_count(l: HeadingLevel) -> (r: usize)
    ensures
        r as nat == level_num(l),
{
    match l {
        HeadingLevel::H1 => 1,
        HeadingLevel::H2 => 2,
        HeadingLevel::H3 => 3,
        HeadingLevel::H4 => 4,
        HeadingLevel::H5 => 5,
        HeadingLevel::H6 => 6,
    }
}

fn alert_label_str(k: &crate::event::AlertKind) -> (r: &'static str)
    ensures
        r@ == alert_label(*k),
{
    match k {
        crate::event::AlertKind::Note => "[!NOTE]",
        crate::event::AlertKind::Tip => "[!TIP]",
        crate::event::AlertKind::Important => "[!IMPORTANT]",
        crate::event::AlertKind::Warning => "[!WARNING]",
        crate::event::AlertKind::Caution => "[!CAUTION]",
    }
}

/// The terminal emitter: one value of it renders one document under its
/// theme.
pub struct TerminalEmitter {
    theme: Theme,
    end_newline: bool,
    in_non_writing_block: bool,
    in_heading: bool,
    heading_level: Option<HeadingLevel>,
    h1_started: bool,
    in_block_quote: bool,
    in_code_block: bool,
    in_link: bool,
    in_table_head: bool,
    in_table: bool,
    in_table_cell: bool,
    list_stack: Vec<ListState>,
    table_header_row: Option<Vec<String>>,
    table_rows: Vec<Vec<String>>,
    current_row: Vec<String>,
    current_cell: String,
    pending_marker: Option<Marker>,
    numbers: FootnoteNumbers,
    link_stack: Vec<String>,
}

impl View for TerminalEmitter {
    type V = TermSt;

    closed spec fn view(&self) -> TermSt {
        TermSt {
            theme: self.theme,
            end_newline: self.end_newline,
            in_non_writing_block: self.in_non_writing_block,
            in_heading: self.in_heading,
            heading_level: self.heading_level,
            h1_started: self.h1_started,
            in_block_quote: self.in_block_quote,
            in_code_block: self.in_code_block,
            in_link: self.in_link,
            in_table_head: self.in_table_head,
            in_table: self.in_table,
            in_table_cell: self.in_table_cell,
            list_stack: self.list_stack@,
            table_header_row: match self.table_header_row {
                Some(ref v) => Some(v.deep_view()),
                Option::None => Option::None,
            },
            table_rows: self.table_rows.deep_view(),
            current_row: self.current_row.deep_view(),
            current_cell: self.current_cell@,
            pending_marker: self.pending_marker,
            numbers: self.numbers@,
            link_stack: self.link_stack.deep_view(),
        }
    }
}

impl TerminalEmitter {
    /// A fresh emitter for one render pass under `theme`.
    pub fn new(theme: Theme) -> (r: Self)
        ensures
            r@ == term_init(theme),
    {
        let r = TerminalEmitter {
            theme,
            end_newline: true,
            in_non_writing_block: false,
            in_heading: false,
            heading_level: Option::None,
            h1_started: false,
            in_block_quote: false,
            in_code_block: false,
            in_link: false,
            in_table_head: false,
            in_table: false,
            in_table_cell: false,
            list_stack: Vec::new(),
            table_header_row: Option::None,
            table_rows: Vec::new(),
            current_row: Vec::new(),
            current_cell: String::new(),
            pending_marker: Option::None,
            numbers: FootnoteNumbers::new(),
            link_stack: Vec::new(),
        };
        proof {
            assert(r@ =~= term_init(theme));
        }
        r
    }

    /// Buffers text into the current table cell.
    fn push_table_text(&mut self, text: &str)
        ensures
            final(self)@ == (TermSt { current_cell: old(self)@.current_cell + text@, ..old(self)@ }),
    {
        self.current_cell.append(text);
        proof {
            assert(final(self)@ =~= (TermSt {
                current_cell: old(self)@.current_cell + text@,
                ..old(self)@
            }));
        }
    }

    /// Writes the pending list marker, if one is waiting.
    fn flush_pending_marker(&mut self, out: &mut String)
        ensures
            final(self)@ == flushed(old(self)@, old(out)@).0,
            final(out)@ == flushed(old(self)@, old(out)@).1,
            final(self)@ == (TermSt { pending_marker: Option::None, ..old(self)@ }),
    {
        proof {
            reveal(flushed);
        }
        match self.pending_marker {
            Some(Marker::Ordinal(n)) => {
                let mut m = String::new();
                text::push_dec(&mut m, n);
                m.append(". ");
                proof {
                    assert(m@ =~= dec_str(n as nat) + ". "@);
                }
                style::push_styled(out, m.as_str(), &self.theme.list_marker);
                self.pending_marker = Option::None;
                proof {
                    assert(final(self)@ =~= flushed(old(self)@, old(out)@).0);
                }
            },
            Some(Marker::Bullet) => {
                style::push_styled(out, "• ", &self.theme.list_marker);
                self.pending_marker = Option::None;
                proof {
                    assert(final(self)@ =~= flushed(old(self)@, old(out)@).0);
                }
            },
            Option::None => {},
        }
    }

    /// Writes text styled by the enclosing structure; the first text of a
    /// level-one heading also writes the banner's leading space.
    fn push_text(&mut self, out: &mut String, t: &str)
        ensures
            final(self)@ == push_text_sp(old(self)@, old(out)@, t@).0,
            final(out)@ == push_text_sp(old(self)@, old(out)@, t@).1,
            final(self)@ == (TermSt { h1_started: final(self)@.h1_started, ..old(self)@ }),
    {
        proof {
            reveal(push_text_sp);
            reveal(text_style);
        }
        let sty: Option<Style> = if self.in_code_block {
            Some(self.theme.code)
        } else if self.in_heading {
            match self.heading_level {
                Some(HeadingLevel::H1) => Some(self.theme.heading.decorate(true, false, false, true)),
                _ => Some(self.theme.heading.decorate(true, false, false, false)),
            }
        } else if self.in_block_quote {
            Some(self.theme.block_quote)
        } else if self.in_table_head {
            Some(self.theme.table_header)
        } else if self.in_link {
            Some(self.theme.link.decorate(true, false, false, false))
        } else {
            Option::None
        };
        proof {
            assert(sty == text_style(self@));
        }
        match sty {
            Some(sty_v) => {
                let is_h1: bool = match self.heading_level {
                    Some(HeadingLevel::H1) => true,
                    _ => false,
                };
                if is_h1 && !self.h1_started {
                    style::push_styled(out, " ", &sty_v);
                    self.h1_started = true;
                }
                style::push_styled(out, t, &sty_v);
                proof {
                    assert(final(self)@ =~= push_text_sp(old(self)@, old(out)@, t@).0);
                    assert(final(out)@ =~= push_text_sp(old(self)@, old(out)@, t@).1);
                }
            },
            Option::None => {
                out.append(t);
            },
        }
    }

    /// Writes a task-list checkbox, replacing a pending bullet by plain
    /// indentation and flushing a pending ordinal first.
    #[verifier::rlimit(100)]
    fn render_task_marker(&mut self, out: &mut String, checked: bool)
        ensures
            final(self)@ == (TermSt { pending_marker: Option::None, ..old(self)@ }),
            final(out)@ == (match old(self)@.pending_marker {
                Some(Marker::Bullet) => old(out)@ + "  "@,
                Some(m) => old(out)@ + marker_text(old(self)@.theme, m),
                Option::None => old(out)@,
            }) + if checked {
                "[x] "@
            } else {
                "[ ] "@
            },
    {
        match self.pending_marker {
            Some(Marker::Bullet) => {
                out.append("  ");
                self.pending_marker = Option::None;
            },
            Some(Marker::Ordinal(n)) => {
                let mut m = String::new();
                text::push_dec(&mut m, n);
                m.append(". ");
                proof {
                    assert(m@ =~= dec_str(n as nat) + ". "@);
                }
                style::push_styled(out, m.as_str(), &self.theme.list_marker);
                self.pending_marker = Option::None;
            },
            Option::None => {},
        }
        if checked {
            out.append("[x] ");
        } else {
            out.append("[ ] ");
        }
        proof {
            assert(final(self)@ =~= (TermSt { pending_marker: Option::None, ..old(self)@ }));
        }
    }

    /// Handles one opening tag other than an image.
    fn start_tag(&mut self, buf: &mut String, tag: &Tag)
        requires
            !(*tag is Image),
            old(self)@.numbers.len() < usize::MAX,
        ensures
            final(self)@ == term_start(old(self)@, old(buf)@, *tag).0,
            final(buf)@ == term_start(old(self)@, old(buf)@, *tag).1,
            final(self)@.numbers.len() <= old(self)@.numbers.len() + 1,
    {
        match tag {
            Tag::Table(_) => self.start_tag_rest(buf, tag),
            Tag::TableHead => self.start_tag_rest(buf, tag),
            Tag::TableRow => self.start_tag_rest(buf, tag),
            Tag::TableCell => self.start_tag_rest(buf, tag),
            Tag::Emphasis => self.start_tag_rest(buf, tag),
            Tag::Strong => self.start_tag_rest(buf, tag),
            Tag::Strikethrough => self.start_tag_rest(buf, tag),
            Tag::Subscript => self.start_tag_rest(buf, tag),
            Tag::Superscript => self.start_tag_rest(buf, tag),
            Tag::Link { .. } => self.start_tag_rest(buf, tag),
            Tag::MetadataBlock => self.start_tag_rest(buf, tag),
            Tag::List(_) => self.start_tag_list(buf, tag),
            Tag::Item => self.start_tag_list(buf, tag),
            Tag::FootnoteDefinition(_) => self.start_tag_list(buf, tag),
            Tag::DefinitionList => self.start_tag_list(buf, tag),
            Tag::DefinitionListTitle => self.start_tag_list(buf, tag),
            Tag::DefinitionListDefinition => self.start_tag_list(buf, tag),
            _ => self.start_tag_block(buf, tag),
        }
    }

    /// The block-structure half of [`Self::start_tag`].
    #[verifier::rlimit(100)]
    fn start_tag_block(&mut self, buf: &mut String, tag: &Tag)
        requires
            !(*tag is Image),
            !(*tag is List),
            !(*tag is Item),
            !(*tag is FootnoteDefinition),
            !(*tag is DefinitionList),
            !(*tag is DefinitionListTitle),
            !(*tag is DefinitionListDefinition),
            !(*tag is Table),
            !(*tag is TableHead),
            !(*tag is TableRow),
            !(*tag is TableCell),
            !(*tag is Emphasis),
            !(*tag is Strong),
            !(*tag is Strikethrough),
            !(*tag is Subscript),
            !(*tag is Superscript),
            !(*tag is Link),
            !(*tag is MetadataBlock),
            old(self)@.numbers.len() < usize::MAX,
        ensures
            final(self)@ == term_start(old(self)@, old(buf)@, *tag).0,
            final(buf)@ == term_start(old(self)@, old(buf)@, *tag).1,
            final(self)@.numbers.len() <= old(self)@.numbers.len() + 1,
    {
        proof {
            reveal(term_start);
        }
        match tag {
            Tag::Paragraph => {
                push_nl(buf, self.end_newline);
            },
            Tag::Heading { level, .. } => {
                push_nl(buf, self.end_newline);
                match level {
                    HeadingLevel::H1 => {},
                    _ => {
                        text::push_repeat(buf, "#", level_count(*level));
                        buf.append(" ");
                    },
                }
                self.in_heading = true;
                self.heading_level = Some(*level);
                self.h1_started = false;
                proof {
                    assert(final(buf)@ =~= term_start(old(self)@, old(buf)@, *tag).1);
                    assert(final(self)@ =~= term_start(old(self)@, old(buf)@, *tag).0);
                }
            },
            Tag::BlockQuote(kind) => {
                trim_double_nl(buf);
                push_nl(buf, self.end_newline);
                style::push_styled(buf, "│", &self.theme.quote_bar);
                match kind {
                    Option::None => {
                        buf.append(" ");
                    },
                    Some(k) => {
                        buf.append(" ");
                        style::push_styled(buf, alert_label_str(k), &self.theme.block_quote);
                        buf.append("\n");
                        style::push_styled(buf, "│", &self.theme.quote_bar);
                        buf.append(" ");
                    },
                }
                self.in_block_quote = true;
                proof {
                    assert(final(buf)@ =~= term_start(old(self)@, old(buf)@, *tag).1);
                    assert(final(self)@ =~= term_start(old(self)@, old(buf)@, *tag).0);
                }
            },
            Tag::CodeBlock(kind) => {
                push_nl(buf, self.end_newline);
                buf.append("```");
                match kind {
                    CodeBlockKind::Fenced(info) => {
                        buf.append(text::first_token_str(info.as_str()));
                    },
                    CodeBlockKind::Indented => {},
                }
                buf.append("\n");
                self.in_code_block = true;
                proof {
                    assert(final(buf)@ =~= term_start(old(self)@, old(buf)@, *tag).1);
                    assert(final(self)@ =~= term_start(old(self)@, old(buf)@, *tag).0);
                }
            },
            Tag::HtmlBlock => {},
            _ => {
                proof {
                    assert(false);
                }
            },
        }
    }


    /// The list and definition half of [`Self::start_tag`].
    #[verifier::rlimit(100)]
    fn start_tag_list(&mut self, buf: &mut String, tag: &Tag)
        requires
            (*tag is List) || (*tag is Item) || (*tag is FootnoteDefinition) || (*tag
                is DefinitionList) || (*tag is DefinitionListTitle) || (*tag
                is DefinitionListDefinition),
            old(self)@.numbers.len() < usize::MAX,
        ensures
            final(self)@ == term_start(old(self)@, old(buf)@, *tag).0,
            final(buf)@ == term_start(old(self)@, old(buf)@, *tag).1,
            final(self)@.numbers.len() <= old(self)@.numbers.len() + 1,
    {
        proof {
            reveal(term_start);
        }
        match tag {
            Tag::List(start_opt) => {
                match start_opt {
                    Some(start) => {
                        self.list_stack.push(ListState::Ordered(*start));
                    },
                    Option::None => {
                        self.list_stack.push(ListState::Unordered);
                    },
                }
                proof {
                    assert(final(self)@ =~= term_start(old(self)@, old(buf)@, *tag).0);
                }
            },
            Tag::Item => {
                push_nl(buf, self.end_newline);
                let ln = self.list_stack.len();
                let pm: Marker = if ln > 0 {
                    match self.list_stack[ln - 1] {
                        ListState::Ordered(idx) => Marker::Ordinal(idx),
                        ListState::Unordered => Marker::Bullet,
                    }
                } else {
                    Marker::Bullet
                };
                self.pending_marker = Some(pm);
                proof {
                    assert(final(self)@ =~= term_start(old(self)@, old(buf)@, *tag).0);
                }
            },
            Tag::FootnoteDefinition(name) => {
                push_nl(buf, self.end_newline);
                let num = self.numbers.get_or_assign(name);
                let mut m = String::from_str("[^");
                text::push_dec(&mut m, num as u64);
                m.append("]: ");
                proof {
                    assert(m@ =~= "[^"@ + dec_str(num as nat) + "]: "@);
                }
                style::push_styled(buf, m.as_str(), &self.theme.footnote);
                proof {
                    assert(final(buf)@ =~= term_start(old(self)@, old(buf)@, *tag).1);
                    assert(final(self)@ =~= term_start(old(self)@, old(buf)@, *tag).0);
                }
            },
            Tag::DefinitionList => {
                push_nl(buf, self.end_newline);
            },
            Tag::DefinitionListTitle => {
                push_nl(buf, self.end_newline);
            },
            Tag::DefinitionListDefinition => {
                push_nl(buf, self.end_newline);
                buf.append(": ");
                proof {
                    assert(final(buf)@ =~= term_start(old(self)@, old(buf)@, *tag).1);
                }
            },
            _ => {
                proof {
                    assert(false);
                }
            },
        }
    }

    /// The table and inline half of [`Self::start_tag`].
    #[verifier::rlimit(100)]
    fn start_tag_rest(&mut self, buf: &mut String, tag: &Tag)
        requires
            (*tag is Table) || (*tag is TableHead) || (*tag is TableRow) || (*tag is TableCell) || (
            *tag is Emphasis) || (*tag is Strong) || (*tag is Strikethrough) || (*tag is Subscript)
                || (*tag is Superscript) || (*tag is Link) || (*tag is MetadataBlock),
        ensures
            final(self)@ == term_start(old(self)@, old(buf)@, *tag).0,
            final(buf)@ == term_start(old(self)@, old(buf)@, *tag).1,
            final(self)@.numbers.len() <= old(self)@.numbers.len() + 1,
    {
        proof {
            reveal(term_start);
        }
        match tag {
            Tag::Table(_) => {
                push_nl(buf, self.end_newline);
                self.in_table = true;
                self.table_header_row = Option::None;
                self.table_rows = Vec::new();
                proof {
                    assert(final(self)@ =~= term_start(old(self)@, old(buf)@, *tag).0);
                }
            },
            Tag::TableHead => {
                self.in_table_head = true;
                proof {
                    assert(final(self)@ =~= term_start(old(self)@, old(buf)@, *tag).0);
                }
            },
            Tag::TableRow => {
                self.current_row = Vec::new();
                push_nl(buf, self.end_newline);
                proof {
                    assert(final(self)@ =~= term_start(old(self)@, old(buf)@, *tag).0);
                }
            },
            Tag::TableCell => {
                self.in_table_cell = true;
                self.current_cell = String::new();
                proof {
                    assert(final(self)@ =~= term_start(old(self)@, old(buf)@, *tag).0);
                }
            },
            Tag::Emphasis => {
                style::push_styled(buf, "*", &self.theme.code);
            },
            Tag::Strong => {
                style::push_styled(buf, "**", &self.theme.code);
            },
            Tag::Strikethrough => {
                style::push_styled(buf, "~~", &self.theme.code);
            },
            Tag::Subscript => {
                buf.append("~");
            },
            Tag::Superscript => {
                buf.append("^");
            },
            Tag::Link { kind, dest_url, .. } => {
                let dest: String = match kind {
                    LinkKind::Email => {
                        let mut s = String::from_str("mailto:");
                        s.append(dest_url.as_str());
                        s
                    },
                    LinkKind::Other => dest_url.clone(),
                };
                self.link_stack.push(dest);
                self.in_link = true;
                proof {
                    assert(final(self)@ =~= term_start(old(self)@, old(buf)@, *tag).0);
                }
            },
            Tag::MetadataBlock => {
                self.in_non_writing_block = true;
                proof {
                    assert(final(self)@ =~= term_start(old(self)@, old(buf)@, *tag).0);
                }
            },
            _ => {
                proof {
                    assert(false);
                }
            },
        }
    }

    /// Handles one closing tag.
    fn end_tag(&mut self, buf: &mut String, tag: TagEnd)
        ensures
            final(self)@ == term_end(old(self)@, old(buf)@, tag).0,
            final(buf)@ == term_end(old(self)@, old(buf)@, tag).1,
            final(self)@.numbers == old(self)@.numbers,
    {
        match tag {
            TagEnd::Heading(_) => self.end_tag_heading(buf, tag),
            TagEnd::Link => self.end_tag_link(buf, tag),
            TagEnd::Table => self.end_tag_table(buf, tag),
            TagEnd::TableHead => self.end_tag_table(buf, tag),
            TagEnd::TableRow => self.end_tag_table(buf, tag),
            TagEnd::TableCell => self.end_tag_table(buf, tag),
            TagEnd::Emphasis => self.end_tag_rest(buf, tag),
            TagEnd::Strong => self.end_tag_rest(buf, tag),
            TagEnd::Strikethrough => self.end_tag_rest(buf, tag),
            TagEnd::Superscript => self.end_tag_rest(buf, tag),
            TagEnd::Subscript => self.end_tag_rest(buf, tag),
            TagEnd::Link => self.end_tag_rest(buf, tag),
            TagEnd::MetadataBlock => self.end_tag_rest(buf, tag),
            TagEnd::List(_) => self.end_tag_list(buf, tag),
            TagEnd::Item => self.end_tag_list(buf, tag),
            TagEnd::DefinitionList => self.end_tag_list(buf, tag),
            TagEnd::DefinitionListTitle => self.end_tag_list(buf, tag),
            TagEnd::DefinitionListDefinition => self.end_tag_list(buf, tag),
            TagEnd::FootnoteDefinition => self.end_tag_list(buf, tag),
            _ => self.end_tag_block(buf, tag),
        }
    }

    /// The block-structure half of [`Self::end_tag`].
    #[verifier::rlimit(100)]
    fn end_tag_block(&mut self, buf: &mut String, tag: TagEnd)
        requires
            !(tag is Heading),
            !(tag is Link),
            !(tag is List),
            !(tag is Item),
            !(tag is DefinitionList),
            !(tag is DefinitionListTitle),
            !(tag is DefinitionListDefinition),
            !(tag is FootnoteDefinition),
            !(tag is Table),
            !(tag is TableHead),
            !(tag is TableRow),
            !(tag is TableCell),
            !(tag is Emphasis),
            !(tag is Strong),
            !(tag is Strikethrough),
            !(tag is Superscript),
            !(tag is Subscript),
            !(tag is Link),
            !(tag is MetadataBlock),
        ensures
            final(self)@ == term_end(old(self)@, old(buf)@, tag).0,
            final(buf)@ == term_end(old(self)@, old(buf)@, tag).1,
            final(self)@.numbers == old(self)@.numbers,
    {
        proof {
            reveal(term_end);
        }
        match tag {
            TagEnd::Paragraph => {
                buf.append("\n\n");
                self.end_newline = true;
                proof {
                    assert(final(self)@ =~= term_end(old(self)@, old(buf)@, tag).0);
                }
            },
            TagEnd::BlockQuote => {
                buf.append("\n");
                self.in_block_quote = false;
                self.end_newline = true;
                proof {
                    assert(final(self)@ =~= term_end(old(self)@, old(buf)@, tag).0);
                }
            },
            TagEnd::CodeBlock => {
                buf.append("```\n\n");
                self.in_code_block = false;
                self.end_newline = true;
                proof {
                    assert(final(self)@ =~= term_end(old(self)@, old(buf)@, tag).0);
                }
            },
            TagEnd::HtmlBlock => {},
            TagEnd::Image => {},
            _ => {
                proof {
                    assert(false);
                }
            },
        }
    }


    /// The list and definition half of [`Self::end_tag`].
    #[verifier::rlimit(100)]
    fn end_tag_list(&mut self, buf: &mut String, tag: TagEnd)
        requires
            (tag is List) || (tag is Item) || (tag is DefinitionList) || (tag
                is DefinitionListTitle) || (tag is DefinitionListDefinition) || (tag
                is FootnoteDefinition),
        ensures
            final(self)@ == term_end(old(self)@, old(buf)@, tag).0,
            final(buf)@ == term_end(old(self)@, old(buf)@, tag).1,
            final(self)@.numbers == old(self)@.numbers,
    {
        proof {
            reveal(term_end);
        }
        match tag {
            TagEnd::List(_) => {
                if self.list_stack.len() > 0 {
                    let _ = self.list_stack.pop();
                    proof {
                        assert(self.list_stack@ =~= old(self)@.list_stack.drop_last());
                    }
                }
                buf.append("\n");
                self.end_newline = true;
                proof {
                    assert(final(self)@ =~= term_end(old(self)@, old(buf)@, tag).0);
                }
            },
            TagEnd::Item => {
                buf.append("\n");
                self.pending_marker = Option::None;
                let ln = self.list_stack.len();
                if ln > 0 {
                    match self.list_stack[ln - 1] {
                        ListState::Ordered(idx) => {
                            let nidx: u64 = if idx < u64::MAX {
                                idx + 1
                            } else {
                                idx
                            };
                            self.list_stack.set(ln - 1, ListState::Ordered(nidx));
                        },
                        ListState::Unordered => {
                            proof {
                                assert(self.list_stack@ =~= old(self)@.list_stack.update(
                                    old(self)@.list_stack.len() - 1,
                                    bump(old(self)@.list_stack.last()),
                                ));
                            }
                        },
                    }
                }
                self.end_newline = true;
                proof {
                    assert(final(self)@ =~= term_end(old(self)@, old(buf)@, tag).0);
                }
            },
            TagEnd::DefinitionList => {
                buf.append("\n");
                self.end_newline = true;
                proof {
                    assert(final(self)@ =~= term_end(old(self)@, old(buf)@, tag).0);
                }
            },
            TagEnd::DefinitionListTitle => {
                buf.append("\n");
                self.end_newline = true;
                proof {
                    assert(final(self)@ =~= term_end(old(self)@, old(buf)@, tag).0);
                }
            },
            TagEnd::DefinitionListDefinition => {
                buf.append("\n");
                self.end_newline = true;
                proof {
                    assert(final(self)@ =~= term_end(old(self)@, old(buf)@, tag).0);
                }
            },
            TagEnd::FootnoteDefinition => {
                buf.append("\n");
                self.end_newline = true;
                proof {
                    assert(final(self)@ =~= term_end(old(self)@, old(buf)@, tag).0);
                }
            },
            _ => {
                proof {
                    assert(false);
                }
            },
        }
    }


    /// The table half of [`Self::end_tag`].
    #[verifier::rlimit(100)]
    fn end_tag_table(&mut self, buf: &mut String, tag: TagEnd)
        requires
            (tag is Table) || (tag is TableHead) || (tag is TableRow) || (tag is TableCell),
        ensures
            final(self)@ == term_end(old(self)@, old(buf)@, tag).0,
            final(buf)@ == term_end(old(self)@, old(buf)@, tag).1,
            final(self)@.numbers == old(self)@.numbers,
    {
        proof {
            reveal(term_end);
        }
        match tag {
            TagEnd::Table => {
                if self.in_table {
                    let hdr = self.table_header_row.take();
                    match hdr {
                        Some(h) => {
                            self.table_rows.insert(0, h);
                            proof {
                                assert(self.table_rows.deep_view() =~= seq![
                                    old(self)@.table_header_row->0,
                                ] + old(self)@.table_rows);
                            }
                        },
                        Option::None => {},
                    }
                    table::render_grid(buf, &self.table_rows);
                    buf.append("\n");
                    self.in_table = false;
                    self.end_newline = true;
                    proof {
                        assert(final(buf)@ =~= term_end(old(self)@, old(buf)@, tag).1);
                        assert(final(self)@ =~= term_end(old(self)@, old(buf)@, tag).0);
                    }
                } else {
                    buf.append("\n");
                    self.in_table = false;
                    self.end_newline = true;
                    proof {
                        assert(final(self)@ =~= term_end(old(self)@, old(buf)@, tag).0);
                    }
                }
            },
            TagEnd::TableHead => {
                self.in_table_head = false;
                let row = clone_row(&self.current_row);
                self.table_header_row = Some(row);
                self.current_row = Vec::new();
                self.end_newline = true;
                proof {
                    assert(final(self)@ =~= term_end(old(self)@, old(buf)@, tag).0);
                }
            },
            TagEnd::TableRow => {
                if self.in_table_cell {
                    let cell = text::trim_str(self.current_cell.as_str());
                    self.current_row.push(cell);
                    self.in_table_cell = false;
                }
                let row = clone_row(&self.current_row);
                if self.in_table_head {
                    self.table_header_row = Some(row);
                } else {
                    self.table_rows.push(row);
                }
                self.end_newline = true;
                proof {
                    assert(final(self)@ =~~= term_end(old(self)@, old(buf)@, tag).0);
                }
            },
            TagEnd::TableCell => {
                if self.in_table_cell {
                    let cell = text::trim_str(self.current_cell.as_str());
                    self.current_row.push(cell);
                    self.in_table_cell = false;
                }
                proof {
                    assert(final(self)@ =~= term_end(old(self)@, old(buf)@, tag).0);
                }
            },
            _ => {
                proof {
                    assert(false);
                }
            },
        }
    }


    /// The heading arm of [`Self::end_tag`].
    #[verifier::rlimit(100)]
    fn end_tag_heading(&mut self, buf: &mut String, tag: TagEnd)
        requires
            tag is Heading,
        ensures
            final(self)@ == term_end(old(self)@, old(buf)@, tag).0,
            final(buf)@ == term_end(old(self)@, old(buf)@, tag).1,
            final(self)@.numbers == old(self)@.numbers,
    {
        proof {
            reveal(term_end);
        }
        match tag {
            TagEnd::Heading(level) => {
                match level {
                    HeadingLevel::H1 => {
                        let banner = self.theme.heading.decorate(true, false, false, true);
                        style::push_styled(buf, " ", &banner);
                    },
                    _ => {},
                }
                buf.append("\n\n");
                self.in_heading = false;
                self.heading_level = Option::None;
                self.h1_started = false;
                self.end_newline = true;
                proof {
                    assert(final(buf)@ =~= term_end(old(self)@, old(buf)@, tag).1);
                    assert(final(self)@ =~= term_end(old(self)@, old(buf)@, tag).0);
                }
            },
            _ => {
                proof {
                    assert(false);
                }
            },
        }
    }

    /// The link arm of [`Self::end_tag`].
    #[verifier::rlimit(100)]
    fn end_tag_link(&mut self, buf: &mut String, tag: TagEnd)
        requires
            tag is Link,
        ensures
            final(self)@ == term_end(old(self)@, old(buf)@, tag).0,
            final(buf)@ == term_end(old(self)@, old(buf)@, tag).1,
            final(self)@.numbers == old(self)@.numbers,
    {
        proof {
            reveal(term_end);
        }
        match tag {
            TagEnd::Link => {
                if self.link_stack.len() > 0 {
                    let dest = match self.link_stack.pop() {
                        Some(d) => d,
                        Option::None => String::new(),
                    };
                    if !dest.as_str().is_empty() {
                        buf.append(" (");
                        let link_sty = self.theme.link.decorate(false, true, true, false);
                        style::push_styled(buf, dest.as_str(), &link_sty);
                        buf.append(")");
                    }
                    self.in_link = false;
                    proof {
                        assert(self.link_stack.deep_view() =~= old(self)@.link_stack.drop_last());
                        assert(final(buf)@ =~= term_end(old(self)@, old(buf)@, tag).1);
                        assert(final(self)@ =~= term_end(old(self)@, old(buf)@, tag).0);
                    }
                } else {
                    self.in_link = false;
                    proof {
                        assert(final(self)@ =~= term_end(old(self)@, old(buf)@, tag).0);
                    }
                }
            },
            _ => {
                proof {
                    assert(false);
                }
            },
        }
    }

    /// The table and inline half of [`Self::end_tag`].
    #[verifier::rlimit(100)]
    fn end_tag_rest(&mut self, buf: &mut String, tag: TagEnd)
        requires
            (tag is Emphasis) || (tag is Strong) || (tag is Strikethrough) || (tag
                is Superscript) || (tag is Subscript) || (tag is MetadataBlock),
        ensures
            final(self)@ == term_end(old(self)@, old(buf)@, tag).0,
            final(buf)@ == term_end(old(self)@, old(buf)@, tag).1,
            final(self)@.numbers == old(self)@.numbers,
    {
        proof {
            reveal(term_end);
        }
        match tag {
            TagEnd::Emphasis => {
                style::push_styled(buf, "*", &self.theme.code);
            },
            TagEnd::Strong => {
                style::push_styled(buf, "**", &self.theme.code);
            },
            TagEnd::Strikethrough => {
                style::push_styled(buf, "~~", &self.theme.code);
            },
            TagEnd::Superscript => {
                buf.append("^");
            },
            TagEnd::Subscript => {
                buf.append("~");
            },
            TagEnd::MetadataBlock => {
                self.in_non_writing_block = false;
                proof {
                    assert(final(self)@ =~= term_end(old(self)@, old(buf)@, tag).0);
                }
            },
            _ => {
                proof {
                    assert(false);
                }
            },
        }
    }

    /// One tag-boundary event: an opening tag other than an image, or a
    /// closing tag.
    fn step_tag(&mut self, out: &mut String, ev: &Event)
        requires
            match *ev {
                Event::Start(t) => !(t is Image),
                Event::End(_) => true,
                _ => false,
            },
            old(self)@.numbers.len() < usize::MAX,
        ensures
            final(self)@ == term_step(old(self)@, old(out)@, *ev).0,
            final(out)@ == term_step(old(self)@, old(out)@, *ev).1,
            final(self)@.numbers.len() <= old(self)@.numbers.len() + 1,
    {
        proof {
            reveal(term_step);
        }
        match ev {
            Event::Start(tag) => {
                self.start_tag(out, tag);
            },
            Event::End(e) => {
                self.end_tag(out, *e);
            },
            _ => {
                proof {
                    assert(false);
                }
            },
        }
    }

    /// One plain-text event.
    fn step_text(&mut self, out: &mut String, ev: &Event)
        requires
            *ev is Text,
        ensures
            final(self)@ == term_step(old(self)@, old(out)@, *ev).0,
            final(out)@ == term_step(old(self)@, old(out)@, *ev).1,
            final(self)@.numbers == old(self)@.numbers,
    {
        proof {
            reveal(term_step);
        }
        match ev {
            Event::Text(t) => {
                if !self.in_non_writing_block {
                    if self.in_table_cell {
                        self.push_table_text(t.as_str());
                    } else {
                        self.flush_pending_marker(out);
                        self.push_text(out, t.as_str());
                    }
                    self.end_newline = text::str_ends_nl(t.as_str());
                    proof {
                        assert(final(self)@ =~= term_step(old(self)@, old(out)@, *ev).0);
                    }
                }
            },
            _ => {
                proof {
                    assert(false);
                }
            },
        }
    }

    /// One inline-code or math event: the interior takes the code role,
    /// the literal delimiters stay unstyled.
    fn step_inline(&mut self, out: &mut String, ev: &Event)
        requires
            (*ev is Code) || (*ev is InlineMath) || (*ev is DisplayMath),
        ensures
            final(self)@ == term_step(old(self)@, old(out)@, *ev).0,
            final(out)@ == term_step(old(self)@, old(out)@, *ev).1,
            final(self)@.numbers == old(self)@.numbers,
    {
        proof {
            reveal(term_step);
        }
        match ev {
            Event::Code(t) => {
                if self.in_table_cell {
                    self.push_table_text(t.as_str());
                } else {
                    self.flush_pending_marker(out);
                    out.append("`");
                    style::push_styled(out, t.as_str(), &self.theme.code);
                    out.append("`");
                    proof {
                        assert(final(out)@ =~= term_step(old(self)@, old(out)@, *ev).1);
                    }
                }
            },
            Event::InlineMath(t) => {
                if self.in_table_cell {
                    self.push_table_text("$");
                    self.push_table_text(t.as_str());
                    self.push_table_text("$");
                    proof {
                        assert(final(self)@ =~= term_step(old(self)@, old(out)@, *ev).0);
                    }
                } else {
                    self.flush_pending_marker(out);
                    out.append("$");
                    style::push_styled(out, t.as_str(), &self.theme.code);
                    out.append("$");
                    proof {
                        assert(final(out)@ =~= term_step(old(self)@, old(out)@, *ev).1);
                    }
                }
            },
            Event::DisplayMath(t) => {
                if self.in_table_cell {
                    self.push_table_text("$$");
                    self.push_table_text(t.as_str());
                    self.push_table_text("$$");
                    proof {
                        assert(final(self)@ =~= term_step(old(self)@, old(out)@, *ev).0);
                    }
                } else {
                    self.flush_pending_marker(out);
                    out.append("$$");
                    style::push_styled(out, t.as_str(), &self.theme.code);
                    out.append("$$");
                    proof {
                        assert(final(out)@ =~= term_step(old(self)@, old(out)@, *ev).1);
                    }
                }
            },
            _ => {
                proof {
                    assert(false);
                }
            },
        }
    }

    /// One break, rule, or raw-HTML event; raw HTML is dropped, a terminal
    /// has no HTML rendering.
    fn step_break(&mut self, out: &mut String, ev: &Event)
        requires
            (*ev is SoftBreak) || (*ev is HardBreak) || (*ev is Rule) || (*ev is Html) || (*ev
                is InlineHtml),
        ensures
            final(self)@ == term_step(old(self)@, old(out)@, *ev).0,
            final(out)@ == term_step(old(self)@, old(out)@, *ev).1,
            final(self)@.numbers == old(self)@.numbers,
    {
        proof {
            reveal(term_step);
        }
        match ev {
            Event::Html(_) | Event::InlineHtml(_) => {},
            Event::SoftBreak => {
                if self.in_table_cell {
                    self.push_table_text(" ");
                } else {
                    self.flush_pending_marker(out);
                    out.append(" ");
                }
            },
            Event::HardBreak => {
                if self.in_table_cell {
                    self.push_table_text(" ");
                } else {
                    self.flush_pending_marker(out);
                    out.append("\n");
                    self.end_newline = true;
                    proof {
                        assert(final(self)@ =~= term_step(old(self)@, old(out)@, *ev).0);
                    }
                }
            },
            Event::Rule => {
                if self.in_table_cell {
                    self.push_table_text("—");
                } else {
                    push_nl(out, self.end_newline);
                    style::push_styled(
                        out,
                        "----------------------------------------\n",
                        &self.theme.rule,
                    );
                    self.end_newline = true;
                    proof {
                        assert(final(out)@ =~= term_step(old(self)@, old(out)@, *ev).1);
                        assert(final(self)@ =~= term_step(old(self)@, old(out)@, *ev).0);
                    }
                }
            },
            _ => {
                proof {
                    assert(false);
                }
            },
        }
    }

    /// One footnote reference or task-list marker.
    #[verifier::rlimit(100)]
    fn step_note(&mut self, out: &mut String, ev: &Event)
        requires
            (*ev is FootnoteReference) || (*ev is TaskListMarker),
            old(self)@.numbers.len() < usize::MAX,
        ensures
            final(self)@ == term_step(old(self)@, old(out)@, *ev).0,
            final(out)@ == term_step(old(self)@, old(out)@, *ev).1,
            final(self)@.numbers.len() <= old(self)@.numbers.len() + 1,
    {
        proof {
            reveal(term_step);
        }
        match ev {
            Event::FootnoteReference(name) => {
                if self.in_table_cell {
                    let num = self.numbers.get_or_assign(name);
                    let mut label = String::from_str("[^");
                    text::push_dec(&mut label, num as u64);
                    label.append("]");
                    proof {
                        assert(label@ =~= "[^"@ + dec_str(num as nat) + "]"@);
                    }
                    self.push_table_text(label.as_str());
                    proof {
                        assert(final(self)@ =~= term_step(old(self)@, old(out)@, *ev).0);
                    }
                } else {
                    self.flush_pending_marker(out);
                    let num = self.numbers.get_or_assign(name);
                    let mut label = String::from_str("[^");
                    text::push_dec(&mut label, num as u64);
                    label.append("]");
                    proof {
                        assert(label@ =~= "[^"@ + dec_str(num as nat) + "]"@);
                    }
                    out.append(label.as_str());
                    proof {
                        assert(final(out)@ =~= term_step(old(self)@, old(out)@, *ev).1);
                        assert(final(self)@ =~= term_step(old(self)@, old(out)@, *ev).0);
                    }
                }
            },
            Event::TaskListMarker(checked) => {
                if self.in_table_cell {
                    if *checked {
                        self.push_table_text("[x] ");
                    } else {
                        self.push_table_text("[ ] ");
                    }
                    proof {
                        assert(final(self)@ =~= term_step(old(self)@, old(out)@, *ev).0);
                    }
                } else {
                    self.render_task_marker(out, *checked);
                    proof {
                        assert(final(out)@ =~= term_step(old(self)@, old(out)@, *ev).1);
                    }
                }
            },
            _ => {
                proof {
                    assert(false);
                }
            },
        }
    }

    /// Writes one event's [`flat_atom`] contribution during flattening.
    #[verifier::rlimit(100)]
    fn step_flat(&mut self, out: &mut String, ev: &Event)
        requires
            !(*ev is Start),
            !(*ev is End),
            old(self)@.numbers.len() < usize::MAX,
        ensures
            ({
                let a = flat_atom(old(self)@.numbers, old(self)@.end_newline, *ev);
                &&& final(out)@ == old(out)@ + a.0
                &&& final(self)@ == (TermSt { numbers: a.1, end_newline: a.2, ..old(self)@ })
                &&& a.1.len() <= old(self)@.numbers.len() + 1
            }),
    {
        proof {
            reveal(flat_atom);
        }
        match ev {
            Event::Text(t) | Event::Code(t) | Event::InlineMath(t) | Event::DisplayMath(t) => {
                out.append(t.as_str());
                self.end_newline = text::str_ends_nl(t.as_str());
                proof {
                    let a = flat_atom(old(self)@.numbers, old(self)@.end_newline, *ev);
                    assert(final(self)@ =~= (TermSt {
                        numbers: a.1,
                        end_newline: a.2,
                        ..old(self)@
                    }));
                }
            },
            Event::Html(_) | Event::InlineHtml(_) => {
                proof {
                    let a = flat_atom(old(self)@.numbers, old(self)@.end_newline, *ev);
                    assert(final(out)@ =~= old(out)@ + a.0);
                    assert(final(self)@ =~= (TermSt {
                        numbers: a.1,
                        end_newline: a.2,
                        ..old(self)@
                    }));
                }
            },
            Event::SoftBreak | Event::HardBreak | Event::Rule => {
                out.append(" ");
                proof {
                    let a = flat_atom(old(self)@.numbers, old(self)@.end_newline, *ev);
                    assert(final(self)@ =~= (TermSt {
                        numbers: a.1,
                        end_newline: a.2,
                        ..old(self)@
                    }));
                }
            },
            Event::FootnoteReference(name) => {
                out.append("[^");
                let num = self.numbers.get_or_assign(name);
                text::push_dec(out, num as u64);
                out.append("]");
                proof {
                    let a = flat_atom(old(self)@.numbers, old(self)@.end_newline, *ev);
                    assert(final(out)@ =~= old(out)@ + a.0);
                    assert(final(self)@ =~= (TermSt {
                        numbers: a.1,
                        end_newline: a.2,
                        ..old(self)@
                    }));
                }
            },
            Event::TaskListMarker(checked) => {
                if *checked {
                    out.append("[x]");
                } else {
                    out.append("[ ]");
                }
                proof {
                    let a = flat_atom(old(self)@.numbers, old(self)@.end_newline, *ev);
                    assert(final(self)@ =~= (TermSt {
                        numbers: a.1,
                        end_newline: a.2,
                        ..old(self)@
                    }));
                }
            },
            _ => {
                proof {
                    assert(false);
                }
            },
        }
    }

    /// One step of the flattening scan at `*i` with `nest` unclosed inner
    /// tags, then the rest of the scan.
    #[verifier::rlimit(100)]
    fn raw_scan(&mut self, out: &mut String, events: &Vec<Event>, i: &mut usize, nest: usize)
        requires
            *old(i) <= events@.len(),
            nest as int <= *old(i),
            old(self)@.numbers.len() <= *old(i),
        ensures
            ({
                let f = term_flatten(
                    old(self)@.numbers,
                    old(self)@.end_newline,
                    events@,
                    *old(i) as int,
                    nest as int,
                );
                &&& final(out)@ == old(out)@ + f.0
                &&& final(self)@ == (TermSt { numbers: f.1, end_newline: f.2, ..old(self)@ })
                &&& *final(i) == f.3
                &&& *old(i) <= *final(i) <= events@.len()
                &&& final(self)@.numbers.len() <= *final(i)
            }),
        decreases events@.len() - *old(i), 2int,
    {
        let n = events.len();
        if *i >= n {
            proof {
                assert(final(out)@ =~= old(out)@ + Seq::<char>::empty());
                assert(final(self)@ =~= (TermSt {
                    numbers: old(self)@.numbers,
                    end_newline: old(self)@.end_newline,
                    ..old(self)@
                }));
            }
            return ;
        }
        let is_tag: bool = match &events[*i] {
            Event::Start(_) => true,
            Event::End(_) => true,
            _ => false,
        };
        if is_tag {
            self.raw_scan_tag(out, events, i, nest);
        } else {
            self.raw_scan_atom(out, events, i, nest);
        }
    }

    /// The structural case of [`Self::raw_scan`]: a nested start deepens
    /// the scan, a nested end shallows it, and the end at depth zero is the
    /// image's own and stops it.
    #[verifier::rlimit(100)]
    fn raw_scan_tag(&mut self, out: &mut String, events: &Vec<Event>, i: &mut usize, nest: usize)
        requires
            *old(i) < events@.len(),
            (events@[*old(i) as int] is Start) || (events@[*old(i) as int] is End),
            nest as int <= *old(i),
            old(self)@.numbers.len() <= *old(i),
        ensures
            ({
                let f = term_flatten(
                    old(self)@.numbers,
                    old(self)@.end_newline,
                    events@,
                    *old(i) as int,
                    nest as int,
                );
                &&& final(out)@ == old(out)@ + f.0
                &&& final(self)@ == (TermSt { numbers: f.1, end_newline: f.2, ..old(self)@ })
                &&& *final(i) == f.3
                &&& *old(i) <= *final(i) <= events@.len()
                &&& final(self)@.numbers.len() <= *final(i)
            }),
        decreases events@.len() - *old(i), 1int,
    {
        let n = events.len();
        let ghost f = term_flatten(
            self@.numbers,
            self@.end_newline,
            events@,
            *i as int,
            nest as int,
        );
        let ev = &events[*i];
        *i += 1;
        match ev {
            Event::Start(_) => {
                self.raw_scan(out, events, i, nest + 1);
            },
            Event::End(_) => {
                if nest == 0 {
                    proof {
                        assert(final(out)@ =~= old(out)@ + f.0);
                        assert(final(self)@ =~= (TermSt {
                            numbers: f.1,
                            end_newline: f.2,
                            ..old(self)@
                        }));
                    }
                } else {
                    self.raw_scan(out, events, i, nest - 1);
                }
            },
            _ => {
                proof {
                    assert(false);
                }
            },
        }
    }

    /// The non-structural case of [`Self::raw_scan`]: one [`flat_atom`],
    /// then the rest of the scan.
    #[verifier::rlimit(100)]
    fn raw_scan_atom(&mut self, out: &mut String, events: &Vec<Event>, i: &mut usize, nest: usize)
        requires
            *old(i) < events@.len(),
            !(events@[*old(i) as int] is Start),
            !(events@[*old(i) as int] is End),
            nest as int <= *old(i),
            old(self)@.numbers.len() <= *old(i),
        ensures
            ({
                let f = term_flatten(
                    old(self)@.numbers,
                    old(self)@.end_newline,
                    events@,
                    *old(i) as int,
                    nest as int,
                );
                &&& final(out)@ == old(out)@ + f.0
                &&& final(self)@ == (TermSt { numbers: f.1, end_newline: f.2, ..old(self)@ })
                &&& *final(i) == f.3
                &&& *old(i) <= *final(i) <= events@.len()
                &&& final(self)@.numbers.len() <= *final(i)
            }),
        decreases events@.len() - *old(i), 0int,
    {
        let n = events.len();
        let ev = &events[*i];
        *i += 1;
        let ghost a = flat_atom(self@.numbers, self@.end_newline, *ev);
        self.step_flat(out, ev);
        self.raw_scan(out, events, i, nest);
        proof {
            let r = term_flatten(a.1, a.2, events@, *old(i) + 1, nest as int);
            assert(final(out)@ =~= old(out)@ + (a.0 + r.0));
        }
    }

    /// Consumes events until the end that matches an already consumed
    /// start, flattening their text into `out` as plain `alt` content.
    /// Shares the footnote numbering and the line-boundary flag with the
    /// surrounding render.
    fn raw_text(&mut self, out: &mut String, events: &Vec<Event>, i: &mut usize)
        requires
            *old(i) <= events@.len(),
            old(self)@.numbers.len() <= *old(i),
        ensures
            ({
                let f = term_flatten(
                    old(self)@.numbers,
                    old(self)@.end_newline,
                    events@,
                    *old(i) as int,
                    0,
                );
                &&& final(out)@ == old(out)@ + f.0
                &&& final(self)@ == (TermSt { numbers: f.1, end_newline: f.2, ..old(self)@ })
                &&& *final(i) == f.3
                &&& *old(i) <= *final(i) <= events@.len()
                &&& final(self)@.numbers.len() <= *final(i)
            }),
    {
        self.raw_scan(out, events, i, 0);
    }

    /// One image start together with its whole nested subtree.
    fn step_image(&mut self, out: &mut String, events: &Vec<Event>, i: &mut usize)
        requires
            *old(i) < events@.len(),
            (events@[*old(i) as int] matches Event::Start(t) && t is Image),
            old(self)@.numbers.len() <= *old(i),
        ensures
            ({
                let d = term_drive(old(self)@, old(out)@, events@, *old(i) as int);
                &&& final(self)@ == d.0
                &&& final(out)@ == d.1
                &&& *final(i) == d.2
            }),
            *old(i) < *final(i) <= events@.len(),
            final(self)@.numbers.len() <= *final(i),
    {
        let n = events.len();
        let ev = &events[*i];
        match ev {
            Event::Start(tag) => {
                match tag {
                    Tag::Image { dest_url, .. } => {
                        proof {
                            lemma_term_flatten_bounds(
                                self@.numbers,
                                self@.end_newline,
                                events@,
                                *i + 1,
                                0,
                            );
                        }
                        style::push_styled(out, "[image: ", &self.theme.code);
                        *i += 1;
                        self.raw_text(out, events, i);
                        style::push_styled(out, "]", &self.theme.code);
                        if !dest_url.as_str().is_empty() {
                            out.append(" (");
                            style::push_styled(out, dest_url.as_str(), &self.theme.link);
                            out.append(")");
                        }
                        proof {
                            let d = term_drive(old(self)@, old(out)@, events@, *old(i) as int);
                            assert(final(out)@ =~= d.1);
                            assert(final(self)@ =~= d.0);
                        }
                    },
                    _ => {
                        proof {
                            assert(false);
                        }
                    },
                }
            },
            _ => {
                proof {
                    assert(false);
                }
            },
        }
    }

    /// Handles the one event at `*i` (an image start together with its
    /// whole subtree) and advances the cursor.
    fn do_event(&mut self, out: &mut String, events: &Vec<Event>, i: &mut usize)
        requires
            *old(i) < events@.len(),
            old(self)@.numbers.len() <= *old(i),
        ensures
            ({
                let d = term_drive(old(self)@, old(out)@, events@, *old(i) as int);
                &&& final(self)@ == d.0
                &&& final(out)@ == d.1
                &&& *final(i) == d.2
            }),
            *old(i) < *final(i) <= events@.len(),
            final(self)@.numbers.len() <= *final(i),
    {
        let n = events.len();
        let ev = &events[*i];
        match ev {
            Event::Start(tag) => {
                match tag {
                    Tag::Image { .. } => {
                        self.step_image(out, events, i);
                    },
                    _ => {
                        self.step_tag(out, ev);
                        *i += 1;
                    },
                }
            },
            Event::End(_) => {
                self.step_tag(out, ev);
                *i += 1;
            },
            Event::Text(_) => {
                self.step_text(out, ev);
                *i += 1;
            },
            Event::Code(_) | Event::InlineMath(_) | Event::DisplayMath(_) => {
                self.step_inline(out, ev);
                *i += 1;
            },
            Event::Html(_) | Event::InlineHtml(_) | Event::SoftBreak | Event::HardBreak
                | Event::Rule => {
                self.step_break(out, ev);
                *i += 1;
            },
            Event::FootnoteReference(_) | Event::TaskListMarker(_) => {
                self.step_note(out, ev);
                *i += 1;
            },
        }
    }

    /// Renders the whole event sequence as ANSI-styled terminal text under
    /// the emitter's theme. The render starts from a fresh state, as every
    /// render pass owns its state; the output is exactly [`term_of`] of
    /// the input and the theme.
    pub fn run(&mut self, events: &Vec<Event>) -> (out: String)
        ensures
            out@ == term_of(events@, old(self)@.theme),
            final(self)@ == term_run_from(
                term_init(old(self)@.theme),
                Seq::empty(),
                events@,
                0,
            ).0,
    {
        self.end_newline = true;
        self.in_non_writing_block = false;
        self.in_heading = false;
        self.heading_level = Option::None;
        self.h1_started = false;
        self.in_block_quote = false;
        self.in_code_block = false;
        self.in_link = false;
        self.in_table_head = false;
        self.in_table = false;
        self.in_table_cell = false;
        self.list_stack = Vec::new();
        self.table_header_row = Option::None;
        self.table_rows = Vec::new();
        self.current_row = Vec::new();
        self.current_cell = String::new();
        self.pending_marker = Option::None;
        self.numbers = FootnoteNumbers::new();
        self.link_stack = Vec::new();
        let ghost th0 = old(self)@.theme;
        proof {
            assert(self@ =~= term_init(th0));
        }
        let mut out = String::new();
        let n = events.len();
        let mut i: usize = 0;
        while i < n
            invariant
                i <= n,
                n == events@.len(),
                self@.numbers.len() <= i,
                term_run_from(self@, out@, events@, i as int) == term_run_from(
                    term_init(th0),
                    Seq::empty(),
                    events@,
                    0,
                ),
            decreases n - i,
        {
            self.do_event(&mut out, events, &mut i);
        }
        out
    }
}

} // verus!
