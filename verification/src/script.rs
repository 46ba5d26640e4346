//! The text of a function definition, shell by shell.

use crate::pattern::{matches_replaced, rewrite_markers, PARAM_PATTERN};
use crate::shell::SupportedShells;
use crate::text::{char_replaced, replace_char};
use vstd::prelude::*;
use vstd::string::StringExecFns;

verus! {

/// What `shell` writes for all the arguments of a call together.
pub open spec fn variadic_text(shell: SupportedShells) -> Seq<char> {
    match shell {
        SupportedShells::Pwsh => "@args"@,
        SupportedShells::Bash => "$@"@,
        SupportedShells::Fish => "$argv"@,
    }
}

/// The body of the function that `shell` is given for the template `value`:
/// first every `@` becomes the shell's word for all arguments, then, except
/// for Bash, every positional marker of the outcome is rewritten.
pub open spec fn body_text(shell: SupportedShells, value: Seq<char>) -> Seq<char> {
    let forwarded = char_replaced(value, '@', variadic_text(shell));
    match shell {
        SupportedShells::Bash => forwarded,
        _ => matches_replaced(PARAM_PATTERN@, forwarded, shell),
    }
}

/// The definition of the function `name` with the body `body`, as `shell`
/// reads it. PowerShell first drops an alias of the same name.
pub open spec fn definition_text(shell: SupportedShells, name: Seq<char>, body: Seq<char>) -> Seq<
    char,
> {
    match shell {
        SupportedShells::Pwsh => "Remove-Alias "@ + name
            + " -ErrorAction SilentlyContinue -Force\nfunction "@ + name + " {\n    "@ + body
            + "\n}\n"@,
        SupportedShells::Bash => "function "@ + name + " {\n    "@ + body + "\n}\n"@,
        SupportedShells::Fish => "function "@ + name + " \n    "@ + body + "\nend\n"@,
    }
}

/// What `shell` writes for all the arguments of a call together.
pub fn variadic(shell: SupportedShells) -> (word: &'static str)
    ensures
        word@ == variadic_text(shell),
{
    match shell {
        SupportedShells::Pwsh => "@args",
        SupportedShells::Bash => "$@",
        SupportedShells::Fish => "$argv",
    }
}

/// The body of the function that `shell` is given for the template `value`.
pub fn body(shell: SupportedShells, value: &str) -> (out: String)
    ensures
        out@ == body_text(shell, value@),
{
    let forwarded = replace_char(value, '@', variadic(shell));
    match shell {
        SupportedShells::Bash => forwarded,
        _ => rewrite_markers(forwarded.as_str(), shell),
    }
}

/// The definition of the function `name` with the body `body`, as `shell`
/// reads it.
pub fn definition(shell: SupportedShells, name: &str, body: &str) -> (out: String)
    ensures
        out@ == definition_text(shell, name@, body@),
{
    match shell {
        SupportedShells::Pwsh => String::from_str("Remove-Alias ").concat(name).concat(
            " -ErrorAction SilentlyContinue -Force\nfunction ",
        ).concat(name).concat(" {\n    ").concat(body).concat("\n}\n"),
        SupportedShells::Bash => String::from_str("function ").concat(name).concat(
            " {\n    ",
        ).concat(body).concat("\n}\n"),
        SupportedShells::Fish => String::from_str("function ").concat(name).concat(
            " \n    ",
        ).concat(body).concat("\nend\n"),
    }
}

} // verus!
