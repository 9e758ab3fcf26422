use ansi_term::ANSIString;
use ansi_term::Colour::{Green, Red, Yellow};
use cliptools::colorize::{ColorWhen, Colorizer, ColorizerOption, Format};

#[test]
fn colored_output() {
    let err = Format::Error("error");
    assert_eq!(&*err.format(), &*format!("{}", Red.bold().paint("error")));
    let good = Format::Good("good");
    assert_eq!(&*good.format(), &*format!("{}", Green.paint("good")));
    let warn = Format::Warning("warn");
    assert_eq!(&*warn.format(), &*format!("{}", Yellow.paint("warn")));
    let none = Format::Plain("none");
    assert_eq!(&*none.format(), &*format!("{}", ANSIString::from("none")));
}

#[test]
fn styled_text_carries_escape_codes() {
    assert_eq!(Format::Error("x").format(), "\x1B[1;31mx\x1B[0m");
    assert_eq!(Format::Warning("x").format(), "\x1B[33mx\x1B[0m");
    assert_eq!(Format::Good("x").format(), "\x1B[32mx\x1B[0m");
    assert_eq!(Format::Plain("x").format(), "x");
}

fn option(when: ColorWhen) -> ColorizerOption {
    ColorizerOption { use_stderr: true, when }
}

#[test]
fn auto_colors_only_on_a_capable_terminal() {
    let c = Colorizer::new(option(ColorWhen::Auto), true, false);
    assert_eq!(c.error("e").format(), "\x1B[1;31me\x1B[0m");
    let c = Colorizer::new(option(ColorWhen::Auto), false, false);
    assert_eq!(c.error("e").format(), "e");
    let c = Colorizer::new(option(ColorWhen::Auto), true, true);
    assert_eq!(c.good("g").format(), "g");
}

#[test]
fn explicit_choice_overrides_the_terminal() {
    let c = Colorizer::new(option(ColorWhen::Always), false, true);
    assert_eq!(c.warning("w").format(), "\x1B[33mw\x1B[0m");
    assert_eq!(c.none("n").format(), "n");
    let c = Colorizer::new(option(ColorWhen::Never), true, false);
    assert_eq!(c.good("g").format(), "g");
    assert_eq!(c.warning("w").format(), "w");
}
