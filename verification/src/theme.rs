//! Color themes for the terminal emitter.
//!
//! A [`Theme`] is an immutable record of display styles, one per semantic
//! role. Seven built-in presets exist; selection happens outside the
//! engine, and theme contents never change during a render.

use crate::style::{Color, Style};
use vstd::prelude::*;

verus! {

/// An immutable set of display styles, one per semantic role.
#[derive(Clone, Copy, Debug)]
pub struct Theme {
    pub heading: Style,
    pub block_quote: Style,
    pub quote_bar: Style,
    pub code: Style,
    pub link: Style,
    pub list_marker: Style,
    pub rule: Style,
    pub table_header: Style,
    pub footnote: Style,
}

/// A plain style, in spec form.
pub open spec fn sp_plain() -> Style {
    Style {
        fg: Option::None,
        bg: Option::None,
        bold: false,
        underline: false,
        dim: false,
        invert: false,
    }
}

/// A foreground-colored style, in spec form.
pub open spec fn sp_fg(c: Color) -> Style {
    Style { fg: Some(c), ..sp_plain() }
}

/// A bold foreground-colored style, in spec form.
pub open spec fn sp_fg_bold(c: Color) -> Style {
    Style { fg: Some(c), bold: true, ..sp_plain() }
}

/// The default preset: cyan headings, magenta quotes, yellow code.
pub open spec fn spec_glow() -> Theme {
    Theme {
        heading: sp_fg_bold(Color::BrightCyan),
        block_quote: sp_fg(Color::BrightMagenta),
        quote_bar: sp_fg(Color::BrightBlack),
        code: sp_fg(Color::BrightYellow),
        link: sp_fg(Color::BrightBlue),
        list_marker: sp_fg_bold(Color::BrightGreen),
        rule: sp_fg(Color::BrightBlack),
        table_header: sp_fg_bold(Color::BrightWhite),
        footnote: sp_fg(Color::BrightBlack),
    }
}

/// The monochrome preset: every role plain, no escape sequences at all.
pub open spec fn spec_mono() -> Theme {
    Theme {
        heading: sp_plain(),
        block_quote: sp_plain(),
        quote_bar: sp_plain(),
        code: sp_plain(),
        link: sp_plain(),
        list_marker: sp_plain(),
        rule: sp_plain(),
        table_header: sp_plain(),
        footnote: sp_plain(),
    }
}

pub open spec fn spec_catputtin() -> Theme {
    Theme {
        heading: sp_fg_bold(Color::BrightYellow),
        block_quote: sp_fg(Color::BrightMagenta),
        code: sp_fg(Color::BrightCyan),
        ..spec_glow()
    }
}

pub open spec fn spec_dracura() -> Theme {
    Theme {
        heading: sp_fg_bold(Color::BrightMagenta),
        block_quote: sp_fg(Color::BrightCyan),
        code: sp_fg(Color::BrightYellow),
        ..spec_glow()
    }
}

pub open spec fn spec_solarized() -> Theme {
    Theme {
        heading: sp_fg_bold(Color::BrightCyan),
        block_quote: sp_fg(Color::BrightGreen),
        code: sp_fg(Color::BrightYellow),
        list_marker: sp_fg_bold(Color::BrightMagenta),
        ..spec_glow()
    }
}

pub open spec fn spec_nord() -> Theme {
    Theme {
        heading: sp_fg_bold(Color::BrightBlue),
        block_quote: sp_fg(Color::BrightCyan),
        code: sp_fg(Color::BrightWhite),
        ..spec_glow()
    }
}

pub open spec fn spec_ayu() -> Theme {
    Theme {
        heading: sp_fg_bold(Color::BrightYellow),
        block_quote: sp_fg(Color::BrightMagenta),
        code: sp_fg(Color::BrightCyan),
        ..spec_glow()
    }
}

fn fg(c: Color) -> (r: Style)
    ensures
        r == sp_fg(c),
{
    Style::new().fg(c)
}

fn fg_bold(c: Color) -> (r: Style)
    ensures
        r == sp_fg_bold(c),
{
    Style::new().fg(c).bold()
}

impl Theme {
    pub fn glow() -> (t: Theme)
        ensures
            t == spec_glow(),
    {
        Theme {
            heading: fg_bold(Color::BrightCyan),
            block_quote: fg(Color::BrightMagenta),
            quote_bar: fg(Color::BrightBlack),
            code: fg(Color::BrightYellow),
            link: fg(Color::BrightBlue),
            list_marker: fg_bold(Color::BrightGreen),
            rule: fg(Color::BrightBlack),
            table_header: fg_bold(Color::BrightWhite),
            footnote: fg(Color::BrightBlack),
        }
    }

    pub fn mono() -> (t: Theme)
        ensures
            t == spec_mono(),
    {
        Theme {
            heading: Style::new(),
            block_quote: Style::new(),
            quote_bar: Style::new(),
            code: Style::new(),
            link: Style::new(),
            list_marker: Style::new(),
            rule: Style::new(),
            table_header: Style::new(),
            footnote: Style::new(),
        }
    }

    pub fn catputtin() -> (t: Theme)
        ensures
            t == spec_catputtin(),
    {
        Theme {
            heading: fg_bold(Color::BrightYellow),
            block_quote: fg(Color::BrightMagenta),
            code: fg(Color::BrightCyan),
            ..Theme::glow()
        }
    }

    pub fn dracura() -> (t: Theme)
        ensures
            t == spec_dracura(),
    {
        Theme {
            heading: fg_bold(Color::BrightMagenta),
            block_quote: fg(Color::BrightCyan),
            code: fg(Color::BrightYellow),
            ..Theme::glow()
        }
    }

    pub fn solarized() -> (t: Theme)
        ensures
            t == spec_solarized(),
    {
        Theme {
            heading: fg_bold(Color::BrightCyan),
            block_quote: fg(Color::BrightGreen),
            code: fg(Color::BrightYellow),
            list_marker: fg_bold(Color::BrightMagenta),
            ..Theme::glow()
        }
    }

    pub fn nord() -> (t: Theme)
        ensures
            t == spec_nord(),
    {
        Theme {
            heading: fg_bold(Color::BrightBlue),
            block_quote: fg(Color::BrightCyan),
            code: fg(Color::BrightWhite),
            ..Theme::glow()
        }
    }

    pub fn ayu() -> (t: Theme)
        ensures
            t == spec_ayu(),
    {
        Theme {
            heading: fg_bold(Color::BrightYellow),
            block_quote: fg(Color::BrightMagenta),
            code: fg(Color::BrightCyan),
            ..Theme::glow()
        }
    }
}

impl Default for Theme {
    /// The default theme is the `glow` preset.
    fn default() -> (t: Theme)
        ensures
            t == spec_glow(),
    {
        Theme::glow()
    }
}

} // verus!
