//! Command-line model: which mode the program runs in.

use vstd::prelude::*;

verus! {

/// The theme preset chosen on the command line.
#[derive(Clone, Copy, Debug, PartialEq, Eq, Structural)]
pub enum ThemeChoice {
    Glow,
    Mono,
    Catputtin,
    Dracura,
    Solarized,
    Nord,
    Ayu,
}

/// Argument of the serving mode: the file to render.
pub struct FileArg {
    pub file: String,
}

/// Arguments of the terminal mode: the file to render and the theme.
pub struct TermArg {
    pub file: String,
    pub theme: ThemeChoice,
}

/// An explicit subcommand.
pub enum Commands {
    Serve(FileArg),
    Term(TermArg),
}

/// The parsed command line.
pub struct Cli {
    pub command: Option<Commands>,
    pub root: Option<String>,
    pub watch: bool,
}

/// What the program does: serve a rendered file over HTTP, or print it to
/// the terminal.
pub enum Mode {
    Serve { file: String, watch: bool },
    Term { file: String, watch: bool, theme: ThemeChoice },
}

/// Whether `m` is the mode that `cli` resolves to when standard output is
/// or is not a terminal: an explicit subcommand wins; with none, a
/// terminal means serving and a pipe means plain terminal output with the
/// default theme, both on the named file or `README.md`.
pub open spec fn resolves_to(cli: Cli, stdout_is_terminal: bool, m: Mode) -> bool {
    match cli.command {
        Some(Commands::Serve(arg)) => (m matches Mode::Serve { file, watch } && file@
            == arg.file@ && watch == cli.watch),
        Some(Commands::Term(arg)) => (m matches Mode::Term { file, watch, theme } && file@
            == arg.file@ && watch == cli.watch && theme == arg.theme),
        Option::None => {
            let root_view = match cli.root {
                Some(r) => r@,
                Option::None => "README.md"@,
            };
            if stdout_is_terminal {
                (m matches Mode::Serve { file, watch } && file@ == root_view && watch == cli.watch)
            } else {
                (m matches Mode::Term { file, watch, theme } && file@ == root_view && !watch
                    && theme == ThemeChoice::Glow)
            }
        },
    }
}

impl Cli {
    /// The mode this command line asks for. Whether standard output is a
    /// terminal is probed by the caller and passed in.
    pub fn resolve_mode(self, stdout_is_terminal: bool) -> (m: Mode)
        ensures
            resolves_to(self, stdout_is_terminal, m),
    {
        let watch = self.watch;
        match self.command {
            Some(Commands::Serve(arg)) => Mode::Serve { file: arg.file, watch },
            Some(Commands::Term(arg)) => Mode::Term { file: arg.file, watch, theme: arg.theme },
            Option::None => {
                let root = match self.root {
                    Some(r) => r,
                    Option::None => String::from_str("README.md"),
                };
                if stdout_is_terminal {
                    Mode::Serve { file: root, watch }
                } else {
                    Mode::Term { file: root, watch: false, theme: ThemeChoice::Glow }
                }
            },
        }
    }
}

/// The error line shown for a missing file, or nothing when the file
/// exists and serving may proceed. Whether the file exists is probed by
/// the caller and passed in.
pub fn handle_serve(root: &String, root_exists: bool) -> (r: Option<String>)
    ensures
        root_exists ==> r is None,
        !root_exists ==> (r matches Some(msg) && msg@ == "'"@ + root@ + "' is not found."@),
{
    if root_exists {
        Option::None
    } else {
        let mut msg = String::from_str("'");
        msg.append(root.as_str());
        msg.append("' is not found.");
        Some(msg)
    }
}

/// The theme preset behind each command-line choice.
pub fn select_theme(choice: ThemeChoice) -> (t: crate::theme::Theme)
    ensures
        t == (match choice {
            ThemeChoice::Glow => crate::theme::spec_glow(),
            ThemeChoice::Mono => crate::theme::spec_mono(),
            ThemeChoice::Catputtin => crate::theme::spec_catputtin(),
            ThemeChoice::Dracura => crate::theme::spec_dracura(),
            ThemeChoice::Solarized => crate::theme::spec_solarized(),
            ThemeChoice::Nord => crate::theme::spec_nord(),
            ThemeChoice::Ayu => crate::theme::spec_ayu(),
        }),
{
    match choice {
        ThemeChoice::Glow => crate::theme::Theme::glow(),
        ThemeChoice::Mono => crate::theme::Theme::mono(),
        ThemeChoice::Catputtin => crate::theme::Theme::catputtin(),
        ThemeChoice::Dracura => crate::theme::Theme::dracura(),
        ThemeChoice::Solarized => crate::theme::Theme::solarized(),
        ThemeChoice::Nord => crate::theme::Theme::nord(),
        ThemeChoice::Ayu => crate::theme::Theme::ayu(),
    }
}

} // verus!
