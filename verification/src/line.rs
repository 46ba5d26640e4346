//! What to do with one line of a file of alias definitions.

use crate::alias::{parsed, Alias, AliasView, ParseError, ParseErrorView};
use crate::shell::SupportedShells;
use crate::text::{is_blank, trim, trimmed};
use vstd::prelude::*;
use vstd::string::StringExecFns;

verus! {

/// What a line asks for.
#[derive(Debug, PartialEq, Eq)]
pub enum LineAction {
    /// Nothing: the line is blank, or its alias is not meant for the shell.
    Skip,
    /// Print this function definition.
    Print(String),
    /// Run this command line, the program first; where it succeeds, a
    /// command of the alias's name exists already: print the warning.
    Probe { command: Vec<String>, warning: String },
}

/// What a line asks for, as plain values.
pub enum LineActionView {
    Skip,
    Print(Seq<char>),
    Probe { command: Seq<Seq<char>>, warning: Seq<char> },
}

impl View for LineAction {
    type V = LineActionView;

    open spec fn view(&self) -> LineActionView {
        match self {
            LineAction::Skip => LineActionView::Skip,
            LineAction::Print(text) => LineActionView::Print(text@),
            LineAction::Probe { command, warning } => LineActionView::Probe {
                command: command.deep_view(),
                warning: warning@,
            },
        }
    }
}

/// The warning that a command named `name` exists already.
pub open spec fn warning_text(name: Seq<char>) -> Seq<char> {
    "Command "@ + name + " already defined"@
}

/// What the alias `alias` asks for: when checking, a probe for a command of
/// its name in `shell`; else its function definition for `shell`. An alias
/// that is not meant for `shell` asks for nothing.
pub open spec fn alias_action(alias: AliasView, shell: SupportedShells, check: bool)
    -> LineActionView {
    if !alias.supports(shell) {
        LineActionView::Skip
    } else if check {
        LineActionView::Probe {
            command: shell.probe_words(alias.name),
            warning: warning_text(alias.name),
        }
    } else {
        LineActionView::Print(alias.script(shell).unwrap())
    }
}

/// What the line `line` asks for. A blank line asks for nothing. Any other
/// line is read, without the white space around it, as an alias definition.
pub open spec fn line_action(line: Seq<char>, shell: SupportedShells, check: bool) -> Result<
    LineActionView,
    ParseErrorView,
> {
    if is_blank(line) {
        Ok(LineActionView::Skip)
    } else {
        match parsed(trimmed(line)) {
            Ok(alias) => Ok(alias_action(alias, shell, check)),
            Err(error) => Err(error),
        }
    }
}

/// What the line `line` asks for, for the shell `shell`: with `check`, a
/// probe for a command of the alias's name; without it, the alias's function
/// definition. A blank line asks for nothing, and a line that is neither
/// blank nor an alias definition is refused.
pub fn action(line: &str, shell: SupportedShells, check: bool) -> (outcome: Result<
    LineAction,
    ParseError,
>)
    ensures
        match outcome {
            Ok(action) => line_action(line@, shell, check) == Ok::<LineActionView, ParseErrorView>(
                action@,
            ),
            Err(error) => line_action(line@, shell, check) == Err::<LineActionView, ParseErrorView>(
                error@,
            ),
        },
        is_blank(line@) ==> outcome matches Ok(LineAction::Skip),
{
    let inner = trim(line);
    if inner.unicode_len() == 0 {
        return Ok(LineAction::Skip);
    }
    let alias = match Alias::from_str(inner) {
        Ok(alias) => alias,
        Err(error) => {
            return Err(error);
        },
    };
    if check {
        if alias.supports(shell) {
            let name = alias.name().as_str();
            Ok(
                LineAction::Probe {
                    command: shell.probe_command(name),
                    warning: String::from_str("Command ").concat(name).concat(" already defined"),
                },
            )
        } else {
            Ok(LineAction::Skip)
        }
    } else {
        match alias.to_script(shell) {
            Some(text) => Ok(LineAction::Print(text)),
            None => Ok(LineAction::Skip),
        }
    }
}

} // verus!
