//! The positional markers of a value: a dollar sign followed by digits. A
//! regular expression of the `regex` crate finds them, so a digit is what
//! that crate takes for one: a decimal digit of any script. What is written
//! in the place of each marker is decided here, shell by shell.

use crate::numeral::{
    is_numeral, lemma_numeral_value_of_numeral, numeral, numeral_value, successor,
};
use crate::shell::SupportedShells;
use vstd::prelude::*;
use vstd::string::StringExecFns;

verus! {

/// The regular expression of a positional marker: a dollar sign, then one or
/// more decimal digits, which are its group 1.
///
/// The expression is compiled at each search: a library without global
/// state has no place to keep the compiled form.
pub const PARAM_PATTERN: &'static str = "\\$(\\d+)";

/// What `regex::Regex::find` returns for the expression compiled from
/// `pattern` on the haystack `text`: the byte offsets at which the leftmost
/// match starts and ends, or `None` where nothing matches.
pub uninterp spec fn first_match(pattern: Seq<char>, text: Seq<char>) -> Option<(usize, usize)>;

/// What `regex::Regex::replace_all` returns for the expression compiled from
/// `pattern` on the haystack `text`, when every match is replaced by
/// `argument_text` of `shell` and of the match's group 1.
pub uninterp spec fn matches_replaced(
    pattern: Seq<char>,
    text: Seq<char>,
    shell: SupportedShells,
) -> Seq<char>;

/// Whether `text` holds a positional marker.
pub open spec fn has_marker(text: Seq<char>) -> bool {
    first_match(PARAM_PATTERN@, text) is Some
}

/// What `shell` writes for the positional marker whose digits are `digits`.
///
/// PowerShell indexes `$args` with the digits as they are. Bash keeps the
/// marker. Fish indexes `$argv` with the number one above the marker's,
/// whatever its length; digits that are not all among `0` to `9` are no
/// numeral and give nothing.
pub open spec fn argument_text(shell: SupportedShells, digits: Seq<char>) -> Seq<char> {
    match shell {
        SupportedShells::Pwsh => "$args["@ + digits + "]"@,
        SupportedShells::Bash => "$"@ + digits,
        SupportedShells::Fish => if is_numeral(digits) {
            "$argv["@ + numeral(numeral_value(digits) + 1) + "]"@
        } else {
            Seq::empty()
        },
    }
}

/// For a marker whose digits are a numeral, Fish is given the index that is
/// one above the numeral's value.
pub proof fn lemma_fish_adds_one(digits: Seq<char>)
    requires
        is_numeral(digits),
    ensures
        ({
            let index = numeral(numeral_value(digits) + 1);
            &&& argument_text(SupportedShells::Fish, digits) == "$argv["@ + index + "]"@
            &&& is_numeral(index)
            &&& numeral_value(index) == numeral_value(digits) + 1
        }),
{
    lemma_numeral_value_of_numeral(numeral_value(digits) + 1);
}

/// What `shell` writes for the positional marker whose digits are `digits`.
pub fn positional_argument(shell: SupportedShells, digits: &str) -> (out: String)
    ensures
        out@ == argument_text(shell, digits@),
{
    match shell {
        SupportedShells::Pwsh => String::from_str("$args[").concat(digits).concat("]"),
        SupportedShells::Bash => String::from_str("$").concat(digits),
        SupportedShells::Fish => match successor(digits) {
            Some(index) => String::from_str("$argv[").concat(index.as_str()).concat("]"),
            None => String::new(),
        },
    }
}

/// Calls `regex::Regex::find` on `text`, with the expression that
/// `regex::Regex::new` compiles from `pattern`, and hands back the offsets of
/// the match. The contract only names the result. `pattern` is held to the
/// one expression of this library, which compiles.
#[verifier::external_body]
fn regex_find(pattern: &str, text: &str) -> (span: Option<(usize, usize)>)
    requires
        pattern@ == PARAM_PATTERN@,
    ensures
        span == first_match(pattern@, text@),
{
    let re = regex::Regex::new(pattern).expect("the expression of a positional marker compiles");
    re.find(text).map(|m| (m.start(), m.end()))
}

/// Calls `regex::Regex::replace_all` on `text`, with the expression that
/// `regex::Regex::new` compiles from `pattern`, and with a replacement that
/// gives `positional_argument` of `shell` and of the match's group 1. The
/// contract only names the result. `pattern` is held to the one expression
/// of this library, which compiles and has a group 1 in every match.
#[verifier::external_body]
fn regex_replace_all(pattern: &str, text: &str, shell: SupportedShells) -> (out: String)
    requires
        pattern@ == PARAM_PATTERN@,
    ensures
        out@ == matches_replaced(pattern@, text@, shell),
{
    let re = regex::Regex::new(pattern).expect("the expression of a positional marker compiles");
    re.replace_all(text, |groups: &regex::Captures| positional_argument(shell, &groups[1]))
        .into_owned()
}

/// Whether `text` holds a positional marker.
pub fn contains_marker(text: &str) -> (found: bool)
    ensures
        found == has_marker(text@),
{
    regex_find(PARAM_PATTERN, text).is_some()
}

/// `text` with every positional marker rewritten for `shell`.
pub fn rewrite_markers(text: &str, shell: SupportedShells) -> (out: String)
    ensures
        out@ == matches_replaced(PARAM_PATTERN@, text@, shell),
{
    regex_replace_all(PARAM_PATTERN, text, shell)
}

} // verus!
