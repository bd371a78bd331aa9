//! Terminal text styling.
//!
//! A [`Style`] is a display style for one semantic role: an optional
//! foreground and background color plus the bold, underline, dim and
//! inverted modifiers. Applying a style delegates the ANSI rendering to
//! the `owo_colors` crate; a completely plain style leaves the text
//! unchanged, so a theme whose styles are all plain emits no escape
//! sequences at all.

use vstd::prelude::*;

verus! {

/// The bright ANSI palette used by the built-in themes.
#[derive(Clone, Copy, Debug, PartialEq, Eq, Structural)]
pub enum Color {
    BrightBlack,
    BrightRed,
    BrightGreen,
    BrightYellow,
    BrightBlue,
    BrightMagenta,
    BrightCyan,
    BrightWhite,
}

/// The 256-color palette index of a bright color.
pub open spec fn color_code(c: Color) -> u8 {
    match c {
        Color::BrightBlack => 8,
        Color::BrightRed => 9,
        Color::BrightGreen => 10,
        Color::BrightYellow => 11,
        Color::BrightBlue => 12,
        Color::BrightMagenta => 13,
        Color::BrightCyan => 14,
        Color::BrightWhite => 15,
    }
}

fn color_code_exec(c: Color) -> (r: u8)
    ensures
        r == color_code(c),
{
    match c {
        Color::BrightBlack => 8,
        Color::BrightRed => 9,
        Color::BrightGreen => 10,
        Color::BrightYellow => 11,
        Color::BrightBlue => 12,
        Color::BrightMagenta => 13,
        Color::BrightCyan => 14,
        Color::BrightWhite => 15,
    }
}

pub open spec fn opt_code(c: Option<Color>) -> Option<u8> {
    match c {
        Some(col) => Some(color_code(col)),
        Option::None => Option::None,
    }
}

fn opt_code_exec(c: &Option<Color>) -> (r: Option<u8>)
    ensures
        r == opt_code(*c),
{
    match c {
        Some(col) => Some(color_code_exec(*col)),
        Option::None => Option::None,
    }
}

/// One display style: a foreground and background color, if any, and the
/// four modifiers.
#[derive(Clone, Copy, Debug)]
pub struct Style {
    pub fg: Option<Color>,
    pub bg: Option<Color>,
    pub bold: bool,
    pub underline: bool,
    pub dim: bool,
    pub invert: bool,
}

/// A style that changes nothing about the text.
pub open spec fn style_is_plain(s: Style) -> bool {
    s.fg is None && s.bg is None && !s.bold && !s.underline && !s.dim && !s.invert
}

/// What an ANSI-styled chunk of text displays as. The rendering is done by
/// `owo_colors` and depends on the text and the style alone; only this
/// name is assumed about it.
pub uninterp spec fn styled_of(
    text: Seq<char>,
    fg: Option<u8>,
    bg: Option<u8>,
    bold: bool,
    underline: bool,
    dim: bool,
    invert: bool,
) -> Seq<char>;

/// The display form of `text` under `st`: the text itself when the style
/// is plain, the ANSI-styled chunk otherwise.
pub open spec fn styled(text: Seq<char>, st: Style) -> Seq<char> {
    if style_is_plain(st) {
        text
    } else {
        styled_of(text, opt_code(st.fg), opt_code(st.bg), st.bold, st.underline, st.dim, st.invert)
    }
}

/// Relies on `owo_colors::OwoColorize::style` with `owo_colors::Style`:
/// the `Display` form of the styled value is an ANSI prefix, the text, and
/// an ANSI suffix, all a function of the text and the style alone.
#[verifier::external_body]
fn style_chunk(
    text: &str,
    fg: Option<u8>,
    bg: Option<u8>,
    bold: bool,
    underline: bool,
    dim: bool,
    invert: bool,
) -> (r: String)
    ensures
        r@ == styled_of(text@, fg, bg, bold, underline, dim, invert),
{
    let mut s = owo_colors::Style::new();
    if let Some(c) = fg { s = s.color(owo_colors::XtermColors::from(c)); }
    if let Some(c) = bg { s = s.on_color(owo_colors::XtermColors::from(c)); }
    if bold { s = s.bold(); }
    if underline { s = s.underline(); }
    if dim { s = s.dimmed(); }
    if invert { s = s.reversed(); }
    format!("{}", owo_colors::OwoColorize::style(&text, s))
}

/// Appends `text` to `out` in the display form that `st` gives it.
pub fn push_styled(out: &mut String, text: &str, st: &Style)
    ensures
        final(out)@ == old(out)@ + styled(text@, *st),
{
    if st.is_plain() {
        out.append(text);
    } else {
        let chunk = style_chunk(
            text,
            opt_code_exec(&st.fg),
            opt_code_exec(&st.bg),
            st.bold,
            st.underline,
            st.dim,
            st.invert,
        );
        out.append(chunk.as_str());
    }
}

/// `s` with display modifiers added for a derived use (heading banner,
/// link destination). A plain base style stays plain, so the monochrome
/// theme never gains escape sequences through derivation.
pub open spec fn decorated(
    s: Style,
    bold: bool,
    underline: bool,
    dim: bool,
    bg_bright_black: bool,
) -> Style {
    if style_is_plain(s) {
        s
    } else {
        Style {
            fg: s.fg,
            bg: if bg_bright_black {
                Some(Color::BrightBlack)
            } else {
                s.bg
            },
            bold: s.bold || bold,
            underline: s.underline || underline,
            dim: s.dim || dim,
            invert: s.invert,
        }
    }
}

impl Style {
    /// The style that changes nothing.
    pub fn new() -> (r: Style)
        ensures
            r == (Style {
                fg: Option::<Color>::None,
                bg: Option::<Color>::None,
                bold: false,
                underline: false,
                dim: false,
                invert: false,
            }),
            style_is_plain(r),
    {
        Style { fg: Option::None, bg: Option::None, bold: false, underline: false, dim: false, invert: false }
    }

    /// Whether this style changes nothing.
    pub fn is_plain(&self) -> (r: bool)
        ensures
            r == style_is_plain(*self),
    {
        match self.fg {
            Some(_) => false,
            Option::None => match self.bg {
                Some(_) => false,
                Option::None => !self.bold && !self.underline && !self.dim && !self.invert,
            },
        }
    }

    /// This style with the foreground color set.
    pub fn fg(self, c: Color) -> (r: Style)
        ensures
            r == (Style { fg: Some(c), ..self }),
    {
        Style { fg: Some(c), ..self }
    }

    /// This style with the bold modifier set.
    pub fn bold(self) -> (r: Style)
        ensures
            r == (Style { bold: true, ..self }),
    {
        Style { bold: true, ..self }
    }

    /// [`decorated`], executably.
    pub fn decorate(self, bold: bool, underline: bool, dim: bool, bg_bright_black: bool) -> (r:
        Style)
        ensures
            r == decorated(self, bold, underline, dim, bg_bright_black),
    {
        if self.is_plain() {
            self
        } else {
            Style {
                fg: self.fg,
                bg: if bg_bright_black {
                    Some(Color::BrightBlack)
                } else {
                    self.bg
                },
                bold: self.bold || bold,
                underline: self.underline || underline,
                dim: self.dim || dim,
                invert: self.invert,
            }
        }
    }
}

} // verus!
