//! The HTML emitter.
//!
//! [`HtmlEmitter::run`] consumes the event sequence once and produces a
//! sanitized HTML body fragment. The whole rendering is specified by the
//! spec-level state machine [`html_run_from`]: one transition per event,
//! except that an image start swallows its nested events to build the
//! `alt` text ([`html_flatten`]).

use crate::escape;
use crate::escape::{escaped_attr, escaped_text};
use crate::event::{Alignment, CodeBlockKind, Event, HeadingLevel, LinkKind, Tag, TagEnd};
use crate::footnote;
use crate::footnote::{fnote_insert, fnote_num, FootnoteNumbers};
use crate::text;
use crate::text::{dec_str, first_token, nl_pfx, push_nl};
use vstd::prelude::*;

verus! {

/// The render state of one HTML render pass.
pub struct HtmlSt {
    /// The output currently ends at a line boundary.
    pub end_newline: bool,
    /// Inside a metadata block whose text must not be emitted.
    pub in_non_writing_block: bool,
    /// The current table is still in its header (`<th>` cells).
    pub table_head: bool,
    /// Column alignments of the current table.
    pub aligns: Seq<Alignment>,
    /// Position of the next table cell in its row.
    pub cell_index: int,
    /// Footnote names in order of first encounter.
    pub numbers: Seq<Seq<char>>,
}

/// The state a render pass starts from.
pub open spec fn html_init() -> HtmlSt {
    HtmlSt {
        end_newline: true,
        in_non_writing_block: false,
        table_head: true,
        aligns: Seq::empty(),
        cell_index: 0,
        numbers: Seq::empty(),
    }
}

/// Whether `t` ends with a newline; `prev` when `t` is empty.
pub open spec fn text_nl(t: Seq<char>, prev: bool) -> bool {
    if t.len() == 0 {
        prev
    } else {
        t.last() == '\n'
    }
}

/// The HTML name of a heading element.
pub open spec fn level_str(l: HeadingLevel) -> Seq<char> {
    match l {
        HeadingLevel::H1 => "h1"@,
        HeadingLevel::H2 => "h2"@,
        HeadingLevel::H3 => "h3"@,
        HeadingLevel::H4 => "h4"@,
        HeadingLevel::H5 => "h5"@,
        HeadingLevel::H6 => "h6"@,
    }
}

/// The `id` attribute of a heading, when present.
pub open spec fn id_text(id: Option<String>) -> Seq<char> {
    match id {
        Some(id) => " id=\""@ + escaped_attr(id@) + "\""@,
        Option::None => Seq::empty(),
    }
}

/// The classes of a heading after the first, each preceded by a space.
pub open spec fn classes_rest(classes: Seq<String>, i: int) -> Seq<char>
    decreases classes.len() - i,
{
    if i < 1 || i >= classes.len() {
        Seq::empty()
    } else {
        " "@ + escaped_attr(classes[i]@) + classes_rest(classes, i + 1)
    }
}

/// The space-joined `class` attribute of a heading, when any class exists.
pub open spec fn classes_text(classes: Seq<String>) -> Seq<char> {
    if classes.len() == 0 {
        Seq::empty()
    } else {
        " class=\""@ + escaped_attr(classes[0]@) + classes_rest(classes, 1) + "\""@
    }
}

/// The value part of an extra heading attribute; `=""` when it has none.
pub open spec fn attr_val_text(v: Option<String>) -> Seq<char> {
    match v {
        Some(val) => "=\""@ + escaped_attr(val@) + "\""@,
        Option::None => "=\"\""@,
    }
}

/// The extra attributes of a heading from position `i` on.
pub open spec fn attrs_text(attrs: Seq<(String, Option<String>)>, i: int) -> Seq<char>
    decreases attrs.len() - i,
{
    if i < 0 || i >= attrs.len() {
        Seq::empty()
    } else {
        " "@ + escaped_attr(attrs[i].0@) + attr_val_text(attrs[i].1) + attrs_text(attrs, i + 1)
    }
}

/// The whole opening tag of a heading.
pub open spec fn heading_open(
    end_newline: bool,
    level: HeadingLevel,
    id: Option<String>,
    classes: Seq<String>,
    attrs: Seq<(String, Option<String>)>,
) -> Seq<char> {
    nl_pfx(end_newline) + "<"@ + level_str(level) + id_text(id) + classes_text(classes)
        + attrs_text(attrs, 0) + ">"@
}

/// The fixed CSS class of an alert block quote.
pub open spec fn alert_class(kind: Option<crate::event::AlertKind>) -> Seq<char> {
    match kind {
        Option::None => Seq::empty(),
        Some(crate::event::AlertKind::Note) => " class=\"markdown-alert-note\""@,
        Some(crate::event::AlertKind::Tip) => " class=\"markdown-alert-tip\""@,
        Some(crate::event::AlertKind::Important) => " class=\"markdown-alert-important\""@,
        Some(crate::event::AlertKind::Warning) => " class=\"markdown-alert-warning\""@,
        Some(crate::event::AlertKind::Caution) => " class=\"markdown-alert-caution\""@,
    }
}

/// The opening of a code block: the language class is the first
/// space-delimited token of a fence's info string, if any.
pub open spec fn code_open(kind: CodeBlockKind) -> Seq<char> {
    match kind {
        CodeBlockKind::Indented => "<pre><code>"@,
        CodeBlockKind::Fenced(info) => {
            if first_token(info@).len() == 0 {
                "<pre><code>"@
            } else {
                "<pre><code class=\"language-"@ + escaped_attr(first_token(info@)) + "\">"@
            }
        },
    }
}

/// The `style` attribute and closing bracket of a table cell, from the
/// alignment stored for its column.
pub open spec fn cell_align_text(aligns: Seq<Alignment>, idx: int) -> Seq<char> {
    if 0 <= idx < aligns.len() {
        match aligns[idx] {
            Alignment::Left => " style=\"text-align: left\">"@,
            Alignment::Center => " style=\"text-align: center\">"@,
            Alignment::Right => " style=\"text-align: right\">"@,
            Alignment::Unset => ">"@,
        }
    } else {
        ">"@
    }
}

/// The `title` attribute of a link or image, when the title is non-empty.
pub open spec fn title_text(title: Seq<char>) -> Seq<char> {
    if title.len() > 0 {
        "\" title=\""@ + escaped_attr(title)
    } else {
        Seq::empty()
    }
}

/// The whole `<img>` tag, given the already flattened `alt` text.
pub open spec fn image_open(dest: Seq<char>, title: Seq<char>, alt: Seq<char>) -> Seq<char> {
    "<img src=\""@ + escape::escaped_href(dest) + "\" alt=\""@ + alt + title_text(title)
        + "\" />"@
}

/// The state transition and output of one opening tag (images excepted:
/// the driver handles them, because they consume the stream).
pub open spec fn html_start(st: HtmlSt, t: Tag) -> (Seq<char>, HtmlSt) {
    match t {
        Tag::Paragraph => (
            nl_pfx(st.end_newline) + "<p>"@,
            HtmlSt { end_newline: false, ..st },
        ),
        Tag::Heading { level, id, classes, attrs } => (
            heading_open(st.end_newline, level, id, classes@, attrs@),
            HtmlSt { end_newline: false, ..st },
        ),
        Tag::BlockQuote(kind) => (
            nl_pfx(st.end_newline) + "<blockquote"@ + alert_class(kind) + ">\n"@,
            HtmlSt { end_newline: true, ..st },
        ),
        Tag::CodeBlock(kind) => (
            nl_pfx(st.end_newline) + code_open(kind),
            HtmlSt { end_newline: false, ..st },
        ),
        Tag::HtmlBlock => (Seq::empty(), st),
        Tag::List(Some(start)) => (
            if start == 1 {
                nl_pfx(st.end_newline) + "<ol>\n"@
            } else {
                nl_pfx(st.end_newline) + "<ol start=\""@ + dec_str(start as nat) + "\">\n"@
            },
            HtmlSt { end_newline: true, ..st },
        ),
        Tag::List(Option::None) => (
            nl_pfx(st.end_newline) + "<ul>\n"@,
            HtmlSt { end_newline: true, ..st },
        ),
        Tag::Item => (nl_pfx(st.end_newline) + "<li>"@, HtmlSt { end_newline: false, ..st }),
        Tag::FootnoteDefinition(name) => (
            nl_pfx(st.end_newline) + "<div class=\"footnote-definition\" id=\""@ + escaped_attr(
                name@,
            ) + "\"><sup class=\"footnote-definition-label\">"@ + dec_str(
                fnote_num(st.numbers, name@) as nat,
            ) + "</sup>"@,
            HtmlSt { end_newline: false, numbers: fnote_insert(st.numbers, name@), ..st },
        ),
        Tag::DefinitionList => (
            nl_pfx(st.end_newline) + "<dl>\n"@,
            HtmlSt { end_newline: true, ..st },
        ),
        Tag::DefinitionListTitle => (
            nl_pfx(st.end_newline) + "<dt>"@,
            HtmlSt { end_newline: false, ..st },
        ),
        Tag::DefinitionListDefinition => (
            nl_pfx(st.end_newline) + "<dd>"@,
            HtmlSt { end_newline: false, ..st },
        ),
        Tag::Table(aligns) => (
            "<table>"@,
            HtmlSt { end_newline: false, aligns: aligns@, ..st },
        ),
        Tag::TableHead => (
            "<thead><tr>"@,
            HtmlSt { end_newline: false, table_head: true, cell_index: 0, ..st },
        ),
        Tag::TableRow => ("<tr>"@, HtmlSt { end_newline: false, cell_index: 0, ..st }),
        Tag::TableCell => (
            (if st.table_head {
                "<th"@
            } else {
                "<td"@
            }) + cell_align_text(st.aligns, st.cell_index),
            HtmlSt { end_newline: false, ..st },
        ),
        Tag::Emphasis => ("<em>"@, HtmlSt { end_newline: false, ..st }),
        Tag::Strong => ("<strong>"@, HtmlSt { end_newline: false, ..st }),
        Tag::Strikethrough => ("<del>"@, HtmlSt { end_newline: false, ..st }),
        Tag::Subscript => ("<sub>"@, HtmlSt { end_newline: false, ..st }),
        Tag::Superscript => ("<sup>"@, HtmlSt { end_newline: false, ..st }),
        Tag::Link { kind, dest_url, title } => (
            (if kind is Email {
                "<a href=\"mailto:"@
            } else {
                "<a href=\""@
            }) + escape::escaped_href(dest_url@) + title_text(title@) + "\">"@,
            HtmlSt { end_newline: false, ..st },
        ),
        Tag::Image { .. } => (Seq::empty(), st),
        Tag::MetadataBlock => (Seq::empty(), HtmlSt { in_non_writing_block: true, ..st }),
    }
}

/// The state transition and output of one closing tag.
pub open spec fn html_end(st: HtmlSt, e: TagEnd) -> (Seq<char>, HtmlSt) {
    match e {
        TagEnd::Paragraph => ("</p>\n"@, HtmlSt { end_newline: true, ..st }),
        TagEnd::Heading(level) => (
            "</"@ + level_str(level) + ">\n"@,
            HtmlSt { end_newline: true, ..st },
        ),
        TagEnd::BlockQuote => ("</blockquote>\n"@, HtmlSt { end_newline: true, ..st }),
        TagEnd::CodeBlock => ("</code></pre>\n"@, HtmlSt { end_newline: true, ..st }),
        TagEnd::HtmlBlock => (Seq::empty(), st),
        TagEnd::List(true) => ("</ol>\n"@, HtmlSt { end_newline: true, ..st }),
        TagEnd::List(false) => ("</ul>\n"@, HtmlSt { end_newline: true, ..st }),
        TagEnd::Item => ("</li>\n"@, HtmlSt { end_newline: true, ..st }),
        TagEnd::FootnoteDefinition => ("</div>\n"@, HtmlSt { end_newline: true, ..st }),
        TagEnd::DefinitionList => ("</dl>\n"@, HtmlSt { end_newline: true, ..st }),
        TagEnd::DefinitionListTitle => ("</dt>\n"@, HtmlSt { end_newline: true, ..st }),
        TagEnd::DefinitionListDefinition => ("</dd>\n"@, HtmlSt { end_newline: true, ..st }),
        TagEnd::Table => ("</tbody></table>\n"@, HtmlSt { end_newline: true, ..st }),
        TagEnd::TableHead => (
            "</tr></thead><tbody>\n"@,
            HtmlSt { end_newline: true, table_head: false, ..st },
        ),
        TagEnd::TableRow => ("</tr>\n"@, HtmlSt { end_newline: true, ..st }),
        TagEnd::TableCell => (
            if st.table_head {
                "</th>"@
            } else {
                "</td>"@
            },
            HtmlSt { end_newline: false, cell_index: st.cell_index + 1, ..st },
        ),
        TagEnd::Emphasis => ("</em>"@, HtmlSt { end_newline: false, ..st }),
        TagEnd::Strong => ("</strong>"@, HtmlSt { end_newline: false, ..st }),
        TagEnd::Strikethrough => ("</del>"@, HtmlSt { end_newline: false, ..st }),
        TagEnd::Subscript => ("</sub>"@, HtmlSt { end_newline: false, ..st }),
        TagEnd::Superscript => ("</sup>"@, HtmlSt { end_newline: false, ..st }),
        TagEnd::Link => ("</a>"@, HtmlSt { end_newline: false, ..st }),
        TagEnd::Image => (Seq::empty(), st),
        TagEnd::MetadataBlock => (Seq::empty(), HtmlSt { in_non_writing_block: false, ..st }),
    }
}

/// The state transition and output of one event other than an image start.
pub open spec fn html_step(st: HtmlSt, ev: Event) -> (Seq<char>, HtmlSt) {
    match ev {
        Event::Start(t) => html_start(st, t),
        Event::End(e) => html_end(st, e),
        Event::Text(t) => {
            if st.in_non_writing_block {
                (Seq::empty(), st)
            } else {
                (
                    escaped_text(t@),
                    HtmlSt { end_newline: text_nl(t@, st.end_newline), ..st },
                )
            }
        },
        Event::Code(t) => (
            "<code>"@ + escaped_text(t@) + "</code>"@,
            HtmlSt { end_newline: false, ..st },
        ),
        Event::InlineMath(t) => (
            "<span class=\"math math-inline\">"@ + escaped_text(t@) + "</span>"@,
            HtmlSt { end_newline: false, ..st },
        ),
        Event::DisplayMath(t) => (
            "<span class=\"math math-display\">"@ + escaped_text(t@) + "</span>"@,
            HtmlSt { end_newline: false, ..st },
        ),
        Event::Html(t) => (t@, HtmlSt { end_newline: text_nl(t@, st.end_newline), ..st }),
        Event::InlineHtml(t) => (t@, HtmlSt { end_newline: text_nl(t@, st.end_newline), ..st }),
        Event::SoftBreak => ("\n"@, HtmlSt { end_newline: true, ..st }),
        Event::HardBreak => ("<br />\n"@, HtmlSt { end_newline: true, ..st }),
        Event::Rule => (
            nl_pfx(st.end_newline) + "<hr />\n"@,
            HtmlSt { end_newline: true, ..st },
        ),
        Event::FootnoteReference(name) => (
            "<sup class=\"footnote-reference\"><a href=\"#"@ + escaped_attr(name@) + "\">"@
                + dec_str(fnote_num(st.numbers, name@) as nat) + "</a></sup>"@,
            HtmlSt { end_newline: false, numbers: fnote_insert(st.numbers, name@), ..st },
        ),
        Event::TaskListMarker(checked) => (
            if checked {
                "<input disabled=\"\" type=\"checkbox\" checked=\"\">\n"@
            } else {
                "<input disabled=\"\" type=\"checkbox\">\n"@
            },
            HtmlSt { end_newline: true, ..st },
        ),
    }
}

/// Whether an event opens an image.
pub open spec fn is_image_start(ev: Event) -> bool {
    match ev {
        Event::Start(Tag::Image { .. }) => true,
        _ => false,
    }
}

/// Flattening of an image's nested events into plain `alt` text, starting
/// at `i` with `nest` unclosed inner tags: structural tags only track the
/// depth, text-like content is escaped and concatenated, breaks and rules
/// add nothing, footnote references become their bracketed number (and
/// take part in the shared numbering), task markers become `[x]`/`[ ]`.
/// Returns the text, the updated numbering, and the resume position just
/// after the matching end event.
pub open spec fn html_flatten(
    numbers: Seq<Seq<char>>,
    evs: Seq<Event>,
    i: int,
    nest: int,
) -> (Seq<char>, Seq<Seq<char>>, int)
    decreases evs.len() - i,
{
    if i < 0 || i >= evs.len() {
        (Seq::empty(), numbers, i)
    } else {
        match evs[i] {
            Event::Start(_) => html_flatten(numbers, evs, i + 1, nest + 1),
            Event::End(_) => {
                if nest == 0 {
                    (Seq::empty(), numbers, i + 1)
                } else {
                    html_flatten(numbers, evs, i + 1, nest - 1)
                }
            },
            Event::Html(_) => html_flatten(numbers, evs, i + 1, nest),
            Event::InlineHtml(t) => {
                let r = html_flatten(numbers, evs, i + 1, nest);
                (escaped_attr(t@) + r.0, r.1, r.2)
            },
            Event::Code(t) => {
                let r = html_flatten(numbers, evs, i + 1, nest);
                (escaped_attr(t@) + r.0, r.1, r.2)
            },
            Event::Text(t) => {
                let r = html_flatten(numbers, evs, i + 1, nest);
                (escaped_attr(t@) + r.0, r.1, r.2)
            },
            Event::InlineMath(t) => {
                let r = html_flatten(numbers, evs, i + 1, nest);
                ("$"@ + escaped_attr(t@) + "$"@ + r.0, r.1, r.2)
            },
            Event::DisplayMath(t) => {
                let r = html_flatten(numbers, evs, i + 1, nest);
                ("$$"@ + escaped_attr(t@) + "$$"@ + r.0, r.1, r.2)
            },
            Event::SoftBreak => html_flatten(numbers, evs, i + 1, nest),
            Event::HardBreak => html_flatten(numbers, evs, i + 1, nest),
            Event::Rule => html_flatten(numbers, evs, i + 1, nest),
            Event::FootnoteReference(name) => {
                let r = html_flatten(fnote_insert(numbers, name@), evs, i + 1, nest);
                ("["@ + dec_str(fnote_num(numbers, name@) as nat) + "]"@ + r.0, r.1, r.2)
            },
            Event::TaskListMarker(checked) => {
                let r = html_flatten(numbers, evs, i + 1, nest);
                (
                    (if checked {
                        "[x]"@
                    } else {
                        "[ ]"@
                    }) + r.0,
                    r.1,
                    r.2,
                )
            },
        }
    }
}

/// Flattening moves forward, never past the end, and assigns at most one
/// footnote number per consumed event.
pub proof fn lemma_html_flatten_bounds(numbers: Seq<Seq<char>>, evs: Seq<Event>, i: int, nest: int)
    requires
        0 <= i,
    ensures
        ({
            let r = html_flatten(numbers, evs, i, nest);
            &&& i <= r.2
            &&& r.2 <= if i <= evs.len() { evs.len() as int } else { i }
            &&& r.1.len() <= numbers.len() + (r.2 - i)
        }),
    decreases evs.len() - i,
{
    if 0 <= i < evs.len() {
        match evs[i] {
            Event::Start(_) => lemma_html_flatten_bounds(numbers, evs, i + 1, nest + 1),
            Event::End(_) => {
                if nest != 0 {
                    lemma_html_flatten_bounds(numbers, evs, i + 1, nest - 1);
                }
            },
            Event::FootnoteReference(name) => {
                lemma_html_flatten_bounds(fnote_insert(numbers, name@), evs, i + 1, nest);
            },
            _ => lemma_html_flatten_bounds(numbers, evs, i + 1, nest),
        }
    }
}

/// One step of the render driver at position `i`: the emitted piece, the
/// next state, and the next position. An image start consumes its whole
/// nested subtree; every other event consumes itself alone.
pub open spec fn html_drive(st: HtmlSt, evs: Seq<Event>, i: int) -> (Seq<char>, HtmlSt, int) {
    match evs[i] {
        Event::Start(Tag::Image { dest_url, title }) => {
            let f = html_flatten(st.numbers, evs, i + 1, 0);
            (
                image_open(dest_url@, title@, f.0),
                HtmlSt { end_newline: false, numbers: f.1, ..st },
                f.2,
            )
        },
        _ => {
            let (piece, st1) = html_step(st, evs[i]);
            (piece, st1, i + 1)
        },
    }
}

/// The whole render from state `st` and position `i`: the remaining output
/// and the final state.
pub open spec fn html_run_from(st: HtmlSt, evs: Seq<Event>, i: int) -> (Seq<char>, HtmlSt)
    decreases evs.len() - i,
        when true
        via html_run_from_dec
{
    if i < 0 || i >= evs.len() {
        (Seq::empty(), st)
    } else {
        let d = html_drive(st, evs, i);
        let rest = html_run_from(d.1, evs, d.2);
        (d.0 + rest.0, rest.1)
    }
}

#[via_fn]
proof fn html_run_from_dec(st: HtmlSt, evs: Seq<Event>, i: int) {
    if 0 <= i < evs.len() {
        match evs[i] {
            Event::Start(Tag::Image { .. }) => {
                lemma_html_flatten_bounds(st.numbers, evs, i + 1, 0);
            },
            _ => {},
        }
    }
}

/// The full HTML rendering of a document: a total function of the event
/// sequence.
pub open spec fn html_of(evs: Seq<Event>) -> Seq<char> {
    html_run_from(html_init(), evs, 0).0
}

/// The HTML emitter: one value of it renders one document.
pub struct HtmlEmitter {
    end_newline: bool,
    in_non_writing_block: bool,
    table_head: bool,
    table_alignments: Vec<Alignment>,
    table_cell_index: usize,
    numbers: FootnoteNumbers,
}

impl View for HtmlEmitter {
    type V = HtmlSt;

    closed spec fn view(&self) -> HtmlSt {
        HtmlSt {
            end_newline: self.end_newline,
            in_non_writing_block: self.in_non_writing_block,
            table_head: self.table_head,
            aligns: self.table_alignments@,
            cell_index: self.table_cell_index as int,
            numbers: self.numbers@,
        }
    }
}

fn level_str_exec(l: HeadingLevel) -> (r: &'static str)
    ensures
        r@ == level_str(l),
{
    match l {
        HeadingLevel::H1 => "h1",
        HeadingLevel::H2 => "h2",
        HeadingLevel::H3 => "h3",
        HeadingLevel::H4 => "h4",
        HeadingLevel::H5 => "h5",
        HeadingLevel::H6 => "h6",
    }
}

/// Appends the whole opening tag of a heading.
fn push_heading_open(
    buf: &mut String,
    end_newline: bool,
    level: HeadingLevel,
    id: &Option<String>,
    classes: &Vec<String>,
    attrs: &Vec<(String, Option<String>)>,
)
    ensures
        final(buf)@ == old(buf)@ + heading_open(end_newline, level, *id, classes@, attrs@),
{
    push_nl(buf, end_newline);
    buf.append("<");
    buf.append(level_str_exec(level));
    match id {
        Some(id_val) => {
            buf.append(" id=\"");
            escape::escape_html(buf, id_val.as_str());
            buf.append("\"");
        },
        Option::None => {},
    }
    proof {
        assert(buf@ =~= old(buf)@ + nl_pfx(end_newline) + "<"@ + level_str(level) + id_text(*id));
    }
    let ghost base_c: Seq<char> = buf@;
    if classes.len() > 0 {
        buf.append(" class=\"");
        escape::escape_html(buf, classes[0].as_str());
        let mut j: usize = 1;
        while j < classes.len()
            invariant
                1 <= j <= classes@.len(),
                buf@ + classes_rest(classes@, j as int) == base_c + " class=\""@ + escaped_attr(
                    classes@[0]@,
                ) + classes_rest(classes@, 1),
            decreases classes@.len() - j,
        {
            let ghost pre = buf@;
            buf.append(" ");
            escape::escape_html(buf, classes[j].as_str());
            proof {
                assert(classes_rest(classes@, j as int) == " "@ + escaped_attr(classes@[j as int]@)
                    + classes_rest(classes@, j as int + 1));
                assert(buf@ + classes_rest(classes@, j as int + 1) =~= pre + classes_rest(
                    classes@,
                    j as int,
                ));
            }
            j += 1;
        }
        buf.append("\"");
        proof {
            assert(classes_rest(classes@, classes@.len() as int) =~= Seq::<char>::empty());
            assert(buf@ =~= base_c + (" class=\""@ + escaped_attr(classes@[0]@) + classes_rest(
                classes@,
                1,
            ) + "\""@));
            assert(buf@ =~= base_c + classes_text(classes@));
        }
    } else {
        proof {
            assert(buf@ =~= base_c + classes_text(classes@));
        }
    }
    let ghost base_a: Seq<char> = buf@;
    let mut k: usize = 0;
    while k < attrs.len()
        invariant
            0 <= k <= attrs@.len(),
            buf@ + attrs_text(attrs@, k as int) == base_a + attrs_text(attrs@, 0),
        decreases attrs@.len() - k,
    {
        let ghost pre = buf@;
        buf.append(" ");
        let pair = &attrs[k];
        escape::escape_html(buf, pair.0.as_str());
        match &pair.1 {
            Some(val) => {
                buf.append("=\"");
                escape::escape_html(buf, val.as_str());
                buf.append("\"");
            },
            Option::None => {
                buf.append("=\"\"");
            },
        }
        proof {
            assert(attrs_text(attrs@, k as int) == " "@ + escaped_attr(attrs@[k as int].0@)
                + attr_val_text(attrs@[k as int].1) + attrs_text(attrs@, k as int + 1));
            assert(buf@ + attrs_text(attrs@, k as int + 1) =~= pre + attrs_text(
                attrs@,
                k as int,
            ));
        }
        k += 1;
    }
    buf.append(">");
    proof {
        assert(attrs_text(attrs@, attrs@.len() as int) =~= Seq::<char>::empty());
        assert(base_a =~= base_c + classes_text(classes@));
        assert(buf@ =~= old(buf)@ + heading_open(end_newline, level, *id, classes@, attrs@));
    }
}

impl HtmlEmitter {
    /// A fresh emitter, ready to render one document.
    pub fn new() -> (r: Self)
        ensures
            r@ == html_init(),
    {
        let r = HtmlEmitter {
            end_newline: true,
            in_non_writing_block: false,
            table_head: true,
            table_alignments: Vec::new(),
            table_cell_index: 0,
            numbers: FootnoteNumbers::new(),
        };
        proof {
            assert(r@ =~= html_init());
        }
        r
    }

    /// Handles one opening tag other than an image.
    #[verifier::rlimit(100)]
    fn start_tag(&mut self, buf: &mut String, tag: &Tag)
        requires
            !(*tag is Image),
            old(self)@.numbers.len() < usize::MAX,
            old(self)@.cell_index < usize::MAX,
        ensures
            final(buf)@ == old(buf)@ + html_start(old(self)@, *tag).0,
            final(self)@ == html_start(old(self)@, *tag).1,
    {
        match tag {
            Tag::Paragraph => {
                push_nl(buf, self.end_newline);
                buf.append("<p>");
                self.end_newline = false;
                proof {
                    assert(final(buf)@ =~= old(buf)@ + html_start(old(self)@, *tag).0);
                }
            },
            Tag::Heading { level, id, classes, attrs } => {
                push_heading_open(buf, self.end_newline, *level, id, classes, attrs);
                self.end_newline = false;
            },
            Tag::BlockQuote(kind) => {
                push_nl(buf, self.end_newline);
                buf.append("<blockquote");
                match kind {
                    Option::None => {},
                    Some(crate::event::AlertKind::Note) => buf.append(
                        " class=\"markdown-alert-note\"",
                    ),
                    Some(crate::event::AlertKind::Tip) => buf.append(
                        " class=\"markdown-alert-tip\"",
                    ),
                    Some(crate::event::AlertKind::Important) => buf.append(
                        " class=\"markdown-alert-important\"",
                    ),
                    Some(crate::event::AlertKind::Warning) => buf.append(
                        " class=\"markdown-alert-warning\"",
                    ),
                    Some(crate::event::AlertKind::Caution) => buf.append(
                        " class=\"markdown-alert-caution\"",
                    ),
                }
                buf.append(">\n");
                self.end_newline = true;
                proof {
                    assert(final(buf)@ =~= old(buf)@ + html_start(old(self)@, *tag).0);
                }
            },
            Tag::CodeBlock(kind) => {
                push_nl(buf, self.end_newline);
                match kind {
                    CodeBlockKind::Indented => buf.append("<pre><code>"),
                    CodeBlockKind::Fenced(info) => {
                        let lang = text::first_token_str(info.as_str());
                        if lang.is_empty() {
                            buf.append("<pre><code>");
                        } else {
                            buf.append("<pre><code class=\"language-");
                            escape::escape_html(buf, lang);
                            buf.append("\">");
                        }
                    },
                }
                self.end_newline = false;
                proof {
                    assert(final(buf)@ =~= old(buf)@ + html_start(old(self)@, *tag).0);
                }
            },
            Tag::HtmlBlock => {},
            Tag::List(start_opt) => {
                push_nl(buf, self.end_newline);
                match start_opt {
                    Some(start) => {
                        if *start == 1 {
                            buf.append("<ol>\n");
                        } else {
                            buf.append("<ol start=\"");
                            text::push_dec(buf, *start);
                            buf.append("\">\n");
                        }
                    },
                    Option::None => {
                        buf.append("<ul>\n");
                    },
                }
                self.end_newline = true;
                proof {
                    assert(final(buf)@ =~= old(buf)@ + html_start(old(self)@, *tag).0);
                }
            },
            Tag::Item => {
                push_nl(buf, self.end_newline);
                buf.append("<li>");
                self.end_newline = false;
                proof {
                    assert(final(buf)@ =~= old(buf)@ + html_start(old(self)@, *tag).0);
                }
            },
            Tag::FootnoteDefinition(name) => {
                push_nl(buf, self.end_newline);
                buf.append("<div class=\"footnote-definition\" id=\"");
                escape::escape_html(buf, name.as_str());
                buf.append("\"><sup class=\"footnote-definition-label\">");
                let n = self.numbers.get_or_assign(name);
                text::push_dec(buf, n as u64);
                buf.append("</sup>");
                self.end_newline = false;
                proof {
                    assert(final(buf)@ =~= old(buf)@ + html_start(old(self)@, *tag).0);
                }
            },
            Tag::DefinitionList => {
                push_nl(buf, self.end_newline);
                buf.append("<dl>\n");
                self.end_newline = true;
                proof {
                    assert(final(buf)@ =~= old(buf)@ + html_start(old(self)@, *tag).0);
                }
            },
            Tag::DefinitionListTitle => {
                push_nl(buf, self.end_newline);
                buf.append("<dt>");
                self.end_newline = false;
                proof {
                    assert(final(buf)@ =~= old(buf)@ + html_start(old(self)@, *tag).0);
                }
            },
            Tag::DefinitionListDefinition => {
                push_nl(buf, self.end_newline);
                buf.append("<dd>");
                self.end_newline = false;
                proof {
                    assert(final(buf)@ =~= old(buf)@ + html_start(old(self)@, *tag).0);
                }
            },
            Tag::Table(aligns) => {
                self.table_alignments = aligns.clone();
                buf.append("<table>");
                self.end_newline = false;
                proof {
                    assert(final(buf)@ =~= old(buf)@ + html_start(old(self)@, *tag).0);
                }
            },
            Tag::TableHead => {
                self.table_head = true;
                self.table_cell_index = 0;
                buf.append("<thead><tr>");
                self.end_newline = false;
                proof {
                    assert(final(buf)@ =~= old(buf)@ + html_start(old(self)@, *tag).0);
                }
            },
            Tag::TableRow => {
                self.table_cell_index = 0;
                buf.append("<tr>");
                self.end_newline = false;
                proof {
                    assert(final(buf)@ =~= old(buf)@ + html_start(old(self)@, *tag).0);
                }
            },
            Tag::TableCell => {
                if self.table_head {
                    buf.append("<th");
                } else {
                    buf.append("<td");
                }
                let idx = self.table_cell_index;
                if idx < self.table_alignments.len() {
                    match self.table_alignments[idx] {
                        Alignment::Left => buf.append(" style=\"text-align: left\">"),
                        Alignment::Center => buf.append(" style=\"text-align: center\">"),
                        Alignment::Right => buf.append(" style=\"text-align: right\">"),
                        Alignment::Unset => buf.append(">"),
                    }
                } else {
                    buf.append(">");
                }
                self.end_newline = false;
                proof {
                    assert(final(buf)@ =~= old(buf)@ + html_start(old(self)@, *tag).0);
                }
            },
            Tag::Emphasis => {
                buf.append("<em>");
                self.end_newline = false;
                proof {
                    assert(final(buf)@ =~= old(buf)@ + html_start(old(self)@, *tag).0);
                }
            },
            Tag::Strong => {
                buf.append("<strong>");
                self.end_newline = false;
                proof {
                    assert(final(buf)@ =~= old(buf)@ + html_start(old(self)@, *tag).0);
                }
            },
            Tag::Strikethrough => {
                buf.append("<del>");
                self.end_newline = false;
                proof {
                    assert(final(buf)@ =~= old(buf)@ + html_start(old(self)@, *tag).0);
                }
            },
            Tag::Subscript => {
                buf.append("<sub>");
                self.end_newline = false;
                proof {
                    assert(final(buf)@ =~= old(buf)@ + html_start(old(self)@, *tag).0);
                }
            },
            Tag::Superscript => {
                buf.append("<sup>");
                self.end_newline = false;
                proof {
                    assert(final(buf)@ =~= old(buf)@ + html_start(old(self)@, *tag).0);
                }
            },
            Tag::Link { kind, dest_url, title } => {
                match kind {
                    LinkKind::Email => buf.append("<a href=\"mailto:"),
                    LinkKind::Other => buf.append("<a href=\""),
                }
                escape::escape_href(buf, dest_url.as_str());
                if !title.as_str().is_empty() {
                    buf.append("\" title=\"");
                    escape::escape_html(buf, title.as_str());
                }
                buf.append("\">");
                self.end_newline = false;
                proof {
                    assert(final(buf)@ =~= old(buf)@ + html_start(old(self)@, *tag).0);
                }
            },
            Tag::Image { .. } => {},
            Tag::MetadataBlock => {
                self.in_non_writing_block = true;
            },
        }
    }

    /// Handles one closing tag.
    fn end_tag(&mut self, buf: &mut String, tag: TagEnd)
        requires
            old(self)@.cell_index < usize::MAX,
        ensures
            final(buf)@ == old(buf)@ + html_end(old(self)@, tag).0,
            final(self)@ == html_end(old(self)@, tag).1,
    {
        match tag {
            TagEnd::Paragraph => {
                buf.append("</p>\n");
                self.end_newline = true;
            },
            TagEnd::Heading(level) => {
                buf.append("</");
                buf.append(level_str_exec(level));
                buf.append(">\n");
                self.end_newline = true;
                proof {
                    assert(final(buf)@ =~= old(buf)@ + html_end(old(self)@, tag).0);
                }
            },
            TagEnd::BlockQuote => {
                buf.append("</blockquote>\n");
                self.end_newline = true;
            },
            TagEnd::CodeBlock => {
                buf.append("</code></pre>\n");
                self.end_newline = true;
            },
            TagEnd::HtmlBlock => {},
            TagEnd::List(true) => {
                buf.append("</ol>\n");
                self.end_newline = true;
            },
            TagEnd::List(false) => {
                buf.append("</ul>\n");
                self.end_newline = true;
            },
            TagEnd::Item => {
                buf.append("</li>\n");
                self.end_newline = true;
            },
            TagEnd::FootnoteDefinition => {
                buf.append("</div>\n");
                self.end_newline = true;
            },
            TagEnd::DefinitionList => {
                buf.append("</dl>\n");
                self.end_newline = true;
            },
            TagEnd::DefinitionListTitle => {
                buf.append("</dt>\n");
                self.end_newline = true;
            },
            TagEnd::DefinitionListDefinition => {
                buf.append("</dd>\n");
                self.end_newline = true;
            },
            TagEnd::Table => {
                buf.append("</tbody></table>\n");
                self.end_newline = true;
            },
            TagEnd::TableHead => {
                buf.append("</tr></thead><tbody>\n");
                self.table_head = false;
                self.end_newline = true;
            },
            TagEnd::TableRow => {
                buf.append("</tr>\n");
                self.end_newline = true;
            },
            TagEnd::TableCell => {
                if self.table_head {
                    buf.append("</th>");
                } else {
                    buf.append("</td>");
                }
                self.table_cell_index += 1;
                self.end_newline = false;
            },
            TagEnd::Emphasis => {
                buf.append("</em>");
                self.end_newline = false;
            },
            TagEnd::Strong => {
                buf.append("</strong>");
                self.end_newline = false;
            },
            TagEnd::Strikethrough => {
                buf.append("</del>");
                self.end_newline = false;
            },
            TagEnd::Subscript => {
                buf.append("</sub>");
                self.end_newline = false;
            },
            TagEnd::Superscript => {
                buf.append("</sup>");
                self.end_newline = false;
            },
            TagEnd::Link => {
                buf.append("</a>");
                self.end_newline = false;
            },
            TagEnd::Image => {},
            TagEnd::MetadataBlock => {
                self.in_non_writing_block = false;
            },
        }
    }

    /// Consumes events until the end that matches an already consumed
    /// start, flattening their text into `buf` as escaped `alt` content.
    /// Shares the footnote numbering with the surrounding render.
    fn raw_text(&mut self, buf: &mut String, events: &Vec<Event>, i: &mut usize)
        requires
            *old(i) <= events@.len(),
            old(self)@.numbers.len() <= *old(i),
        ensures
            ({
                let f = html_flatten(old(self)@.numbers, events@, *old(i) as int, 0);
                &&& final(buf)@ == old(buf)@ + f.0
                &&& final(self)@ == HtmlSt { numbers: f.1, ..old(self)@ }
                &&& *final(i) == f.2
                &&& *old(i) <= *final(i) <= events@.len()
                &&& final(self)@.numbers.len() <= *final(i)
            }),
    {
        let ghost f0 = html_flatten(old(self)@.numbers, events@, *old(i) as int, 0);
        let mut nest: usize = 0;
        let mut done: bool = false;
        let n = events.len();
        while !done && *i < n
            invariant
                *old(i) <= *i <= n,
                nest as int <= *i - *old(i),
                n == events@.len(),
                self@.numbers.len() <= *i,
                self@.end_newline == old(self)@.end_newline,
                self@.in_non_writing_block == old(self)@.in_non_writing_block,
                self@.table_head == old(self)@.table_head,
                self@.aligns == old(self)@.aligns,
                self@.cell_index == old(self)@.cell_index,
                done ==> buf@ == old(buf)@ + f0.0 && self@.numbers == f0.1 && *i == f0.2,
                !done ==> {
                    let cur = html_flatten(self@.numbers, events@, *i as int, nest as int);
                    &&& buf@ + cur.0 == old(buf)@ + f0.0
                    &&& cur.1 == f0.1
                    &&& cur.2 == f0.2
                },
            decreases n - *i,
        {
            let ghost pre_numbers = self@.numbers;
            let ghost pre_buf = buf@;
            let ghost cur = html_flatten(self@.numbers, events@, *i as int, nest as int);
            let ev = &events[*i];
            *i += 1;
            match ev {
                Event::Start(_) => {
                    nest += 1;
                },
                Event::End(_) => {
                    if nest == 0 {
                        done = true;
                    } else {
                        nest -= 1;
                    }
                },
                Event::Html(_) => {},
                Event::InlineHtml(t) => {
                    escape::escape_html(buf, t.as_str());
                },
                Event::Code(t) => {
                    escape::escape_html(buf, t.as_str());
                },
                Event::Text(t) => {
                    escape::escape_html(buf, t.as_str());
                },
                Event::InlineMath(t) => {
                    buf.append("$");
                    escape::escape_html(buf, t.as_str());
                    buf.append("$");
                },
                Event::DisplayMath(t) => {
                    buf.append("$$");
                    escape::escape_html(buf, t.as_str());
                    buf.append("$$");
                },
                Event::SoftBreak => {},
                Event::HardBreak => {},
                Event::Rule => {},
                Event::FootnoteReference(name) => {
                    buf.append("[");
                    let num = self.numbers.get_or_assign(name);
                    text::push_dec(buf, num as u64);
                    buf.append("]");
                },
                Event::TaskListMarker(checked) => {
                    if *checked {
                        buf.append("[x]");
                    } else {
                        buf.append("[ ]");
                    }
                },
            }
            proof {
                if !done {
                    let nxt = html_flatten(self@.numbers, events@, *i as int, nest as int);
                    assert(buf@ + nxt.0 =~= pre_buf + cur.0);
                }
            }
        }
        proof {
            if !done {
                let cur = html_flatten(self@.numbers, events@, *i as int, nest as int);
                assert(cur.0 =~= Seq::<char>::empty());
                assert(buf@ =~= buf@ + cur.0);
                assert(buf@ =~= old(buf)@ + f0.0);
            }
            assert(final(self)@ =~= HtmlSt { numbers: f0.1, ..old(self)@ });
        }
    }

    /// Renders the whole event sequence as an HTML body fragment. The
    /// render starts from a fresh state, as every render pass owns its
    /// state; the output is exactly [`html_of`] of the input.
    /// Handles the one event at `*i` (an image start together with its
    /// whole subtree) and advances the cursor.
    #[verifier::rlimit(100)]
    fn do_event(&mut self, buf: &mut String, events: &Vec<Event>, i: &mut usize)
        requires
            *old(i) < events@.len(),
            old(self)@.numbers.len() <= *old(i),
            old(self)@.cell_index <= *old(i),
        ensures
            ({
                let d = html_drive(old(self)@, events@, *old(i) as int);
                &&& final(buf)@ == old(buf)@ + d.0
                &&& final(self)@ == d.1
                &&& *final(i) == d.2
            }),
            *old(i) < *final(i) <= events@.len(),
            final(self)@.numbers.len() <= *final(i),
            final(self)@.cell_index <= *final(i),
    {
        let n = events.len();
        let ev = &events[*i];
        match ev {
            Event::Start(tag) => {
                match tag {
                    Tag::Image { dest_url, title } => {
                        proof {
                            lemma_html_flatten_bounds(
                                self@.numbers,
                                events@,
                                *i + 1,
                                0,
                            );
                        }
                        buf.append("<img src=\"");
                        escape::escape_href(buf, dest_url.as_str());
                        buf.append("\" alt=\"");
                        *i += 1;
                        self.raw_text(buf, events, i);
                        if !title.as_str().is_empty() {
                            buf.append("\" title=\"");
                            escape::escape_html(buf, title.as_str());
                        }
                        buf.append("\" />");
                        self.end_newline = false;
                        proof {
                            let d = html_drive(old(self)@, events@, *old(i) as int);
                            assert(final(buf)@ =~= old(buf)@ + d.0);
                        }
                    },
                    _ => {
                        self.start_tag(buf, tag);
                        *i += 1;
                    },
                }
            },
            Event::End(e) => {
                self.end_tag(buf, *e);
                *i += 1;
            },
            Event::Text(t) => {
                if !self.in_non_writing_block {
                    escape::escape_html_body(buf, t.as_str());
                    if !t.as_str().is_empty() {
                        self.end_newline = text::str_ends_nl(t.as_str());
                    }
                }
                *i += 1;
            },
            Event::Code(t) => {
                buf.append("<code>");
                escape::escape_html_body(buf, t.as_str());
                buf.append("</code>");
                self.end_newline = false;
                *i += 1;
                proof {
                    let d = html_drive(old(self)@, events@, *old(i) as int);
                    assert(final(buf)@ =~= old(buf)@ + d.0);
                }
            },
            Event::InlineMath(t) => {
                buf.append("<span class=\"math math-inline\">");
                escape::escape_html_body(buf, t.as_str());
                buf.append("</span>");
                self.end_newline = false;
                *i += 1;
                proof {
                    let d = html_drive(old(self)@, events@, *old(i) as int);
                    assert(final(buf)@ =~= old(buf)@ + d.0);
                }
            },
            Event::DisplayMath(t) => {
                buf.append("<span class=\"math math-display\">");
                escape::escape_html_body(buf, t.as_str());
                buf.append("</span>");
                self.end_newline = false;
                *i += 1;
                proof {
                    let d = html_drive(old(self)@, events@, *old(i) as int);
                    assert(final(buf)@ =~= old(buf)@ + d.0);
                }
            },
            Event::Html(t) => {
                buf.append(t.as_str());
                if !t.as_str().is_empty() {
                    self.end_newline = text::str_ends_nl(t.as_str());
                }
                *i += 1;
            },
            Event::InlineHtml(t) => {
                buf.append(t.as_str());
                if !t.as_str().is_empty() {
                    self.end_newline = text::str_ends_nl(t.as_str());
                }
                *i += 1;
            },
            Event::SoftBreak => {
                buf.append("\n");
                self.end_newline = true;
                *i += 1;
            },
            Event::HardBreak => {
                buf.append("<br />\n");
                self.end_newline = true;
                *i += 1;
            },
            Event::Rule => {
                push_nl(buf, self.end_newline);
                buf.append("<hr />\n");
                self.end_newline = true;
                *i += 1;
                proof {
                    let d = html_drive(old(self)@, events@, *old(i) as int);
                    assert(final(buf)@ =~= old(buf)@ + d.0);
                }
            },
            Event::FootnoteReference(name) => {
                buf.append("<sup class=\"footnote-reference\"><a href=\"#");
                escape::escape_html(buf, name.as_str());
                buf.append("\">");
                let num = self.numbers.get_or_assign(name);
                text::push_dec(buf, num as u64);
                buf.append("</a></sup>");
                self.end_newline = false;
                *i += 1;
                proof {
                    let d = html_drive(old(self)@, events@, *old(i) as int);
                    assert(final(buf)@ =~= old(buf)@ + d.0);
                }
            },
            Event::TaskListMarker(checked) => {
                if *checked {
                    buf.append("<input disabled=\"\" type=\"checkbox\" checked=\"\">\n");
                } else {
                    buf.append("<input disabled=\"\" type=\"checkbox\">\n");
                }
                self.end_newline = true;
                *i += 1;
            },
        }
    }

    /// Renders the whole event sequence as an HTML body fragment. The
    /// render starts from a fresh state, as every render pass owns its
    /// state; the output is exactly [`html_of`] of the input.
    pub fn run(&mut self, events: &Vec<Event>) -> (out: String)
        ensures
            out@ == html_of(events@),
            final(self)@ == html_run_from(html_init(), events@, 0).1,
    {
        self.end_newline = true;
        self.in_non_writing_block = false;
        self.table_head = true;
        self.table_alignments = Vec::new();
        self.table_cell_index = 0;
        self.numbers = FootnoteNumbers::new();
        proof {
            assert(self@ =~= html_init());
        }
        let mut out = String::new();
        let n = events.len();
        let mut i: usize = 0;
        while i < n
            invariant
                i <= n,
                n == events@.len(),
                self@.numbers.len() <= i,
                self@.cell_index <= i,
                out@ + html_run_from(self@, events@, i as int).0 == html_run_from(
                    html_init(),
                    events@,
                    0,
                ).0,
                html_run_from(self@, events@, i as int).1 == html_run_from(
                    html_init(),
                    events@,
                    0,
                ).1,
            decreases n - i,
        {
            let ghost pre_st = self@;
            let ghost pre_out = out@;
            let ghost pre_i = i as int;
            let ghost cur = html_run_from(self@, events@, i as int);
            self.do_event(&mut out, events, &mut i);
            proof {
                let d = html_drive(pre_st, events@, pre_i);
                assert(cur.0 == d.0 + html_run_from(self@, events@, i as int).0);
                assert(out@ + html_run_from(self@, events@, i as int).0 =~= pre_out + cur.0);
            }
        }
        proof {
            assert(html_run_from(self@, events@, n as int).0 =~= Seq::<char>::empty());
            assert(out@ =~= out@ + html_run_from(self@, events@, n as int).0);
        }
        out
    }
}

} // verus!
