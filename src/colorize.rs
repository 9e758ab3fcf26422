//! Styling of messages for a terminal.

use vstd::prelude::*;

use ansi_term::ANSIString;
use ansi_term::Colour::{Green, Red, Yellow};

verus! {

/// When messages are colored.
#[derive(Debug, Copy, Clone, PartialEq, Eq, Structural)]
pub enum ColorWhen {
    Auto,
    Always,
    Never,
}

/// How a [`Colorizer`] is asked to behave.
pub struct ColorizerOption {
    /// The messages go to standard error rather than standard output.
    pub use_stderr: bool,
    pub when: ColorWhen,
}

/// Chooses the style of each message.
pub struct Colorizer {
    when: ColorWhen,
}

/// A message with the style it is shown in.
#[derive(Debug)]
pub enum Format<T> {
    /// Bold red.
    Error(T),
    /// Yellow.
    Warning(T),
    /// Green.
    Good(T),
    /// No style.
    Plain(T),
}

impl Colorizer {
    /// Whether this colorizer colors its messages (`Never` when it does not).
    pub closed spec fn mode(&self) -> ColorWhen {
        self.when
    }

    /// A colorizer for `option`, given whether its stream is an interactive
    /// terminal and whether the terminal is a dumb one. `Auto` colors only on
    /// an interactive terminal that is not dumb.
    pub fn new(option: ColorizerOption, is_a_tty: bool, is_term_dumb: bool) -> (r: Colorizer)
        ensures
            r.mode() == (match option.when {
                ColorWhen::Auto => if is_a_tty && !is_term_dumb {
                    ColorWhen::Auto
                } else {
                    ColorWhen::Never
                },
                when => when,
            }),
    {
        Colorizer {
            when: match option.when {
                ColorWhen::Auto => if is_a_tty && !is_term_dumb {
                    ColorWhen::Auto
                } else {
                    ColorWhen::Never
                },
                when => when,
            },
        }
    }

    /// `msg` in the style of good news, unless coloring is off.
    pub fn good<T>(&self, msg: T) -> (r: Format<T>)
        ensures
            r == (if self.mode() == ColorWhen::Never {
                Format::Plain(msg)
            } else {
                Format::Good(msg)
            }),
    {
        match self.when {
            ColorWhen::Auto => Format::Good(msg),
            ColorWhen::Always => Format::Good(msg),
            ColorWhen::Never => Format::Plain(msg),
        }
    }

    /// `msg` in the style of a warning, unless coloring is off.
    pub fn warning<T>(&self, msg: T) -> (r: Format<T>)
        ensures
            r == (if self.mode() == ColorWhen::Never {
                Format::Plain(msg)
            } else {
                Format::Warning(msg)
            }),
    {
        match self.when {
            ColorWhen::Auto => Format::Warning(msg),
            ColorWhen::Always => Format::Warning(msg),
            ColorWhen::Never => Format::Plain(msg),
        }
    }

    /// `msg` in the style of an error, unless coloring is off.
    pub fn error<T>(&self, msg: T) -> (r: Format<T>)
        ensures
            r == (if self.mode() == ColorWhen::Never {
                Format::Plain(msg)
            } else {
                Format::Error(msg)
            }),
    {
        match self.when {
            ColorWhen::Auto => Format::Error(msg),
            ColorWhen::Always => Format::Error(msg),
            ColorWhen::Never => Format::Plain(msg),
        }
    }

    /// `msg` with no style.
    pub fn none<T>(&self, msg: T) -> (r: Format<T>)
        ensures
            r == Format::Plain(msg),
    {
        Format::Plain(msg)
    }
}

/// The ANSI code that starts bold red text.
pub open spec fn bold_red_code() -> Seq<char> {
    "\x1B[1;31m"@
}

/// The ANSI code that starts yellow text.
pub open spec fn yellow_code() -> Seq<char> {
    "\x1B[33m"@
}

/// The ANSI code that starts green text.
pub open spec fn green_code() -> Seq<char> {
    "\x1B[32m"@
}

/// The ANSI code that ends styled text.
pub open spec fn reset_code() -> Seq<char> {
    "\x1B[0m"@
}

/// Relies on ansi_term's `Red.bold().paint`: its display is the text between
/// the bold red code and the reset code.
#[verifier::external_body]
fn paint_bold_red(s: &str) -> (r: String)
    ensures
        r@ == bold_red_code() + s@ + reset_code(),
{
    Red.bold().paint(s).to_string()
}

/// Relies on ansi_term's `Yellow.paint`: its display is the text between the
/// yellow code and the reset code.
#[verifier::external_body]
fn paint_yellow(s: &str) -> (r: String)
    ensures
        r@ == yellow_code() + s@ + reset_code(),
{
    Yellow.paint(s).to_string()
}

/// Relies on ansi_term's `Green.paint`: its display is the text between the
/// green code and the reset code.
#[verifier::external_body]
fn paint_green(s: &str) -> (r: String)
    ensures
        r@ == green_code() + s@ + reset_code(),
{
    Green.paint(s).to_string()
}

/// Relies on ansi_term's `ANSIString::from`: a string with the plain style
/// displays as the text alone.
#[verifier::external_body]
fn paint_plain(s: &str) -> (r: String)
    ensures
        r@ == s@,
{
    ANSIString::from(s).to_string()
}

impl<'a> Format<&'a str> {
    /// The message as shown on a terminal, with the ANSI codes of its style.
    pub fn format(&self) -> (r: String)
        ensures
            r@ == (match *self {
                Format::Error(m) => bold_red_code() + m@ + reset_code(),
                Format::Warning(m) => yellow_code() + m@ + reset_code(),
                Format::Good(m) => green_code() + m@ + reset_code(),
                Format::Plain(m) => m@,
            }),
    {
        match *self {
            Format::Error(e) => paint_bold_red(e),
            Format::Warning(e) => paint_yellow(e),
            Format::Good(e) => paint_green(e),
            Format::Plain(e) => paint_plain(e),
        }
    }
}

} // verus!
