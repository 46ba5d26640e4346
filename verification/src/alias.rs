//! Alias definitions: reading one from a line of text, and writing it out as
//! a function definition for a shell.

use crate::pattern::{contains_marker, has_marker};
use crate::script::{body, body_text, definition, definition_text};
use crate::shell::{
    all_known, is_listed, lemma_distinct, parse_shells, shells_listed, shells_named,
    SupportedShells,
};
use crate::text::{
    after, before, contains_char, lemma_position, lemma_position_is, split, split_once,
};
use vstd::prelude::*;
use vstd::string::StringExecFns;

verus! {

/// An alias definition as plain values.
pub struct AliasView {
    /// The name of the alias.
    pub name: Seq<char>,
    /// What the alias stands for, with `@` for all arguments of a call and
    /// positional markers for single ones.
    pub value: Seq<char>,
    /// The shells that the alias is meant for; `None` where it is meant for
    /// all of them.
    pub supported_shells: Option<Seq<SupportedShells>>,
}

/// Why a line is no alias definition, as plain values.
pub enum ParseErrorView {
    MissingSeparator,
    UnknownShell(Seq<char>),
}

/// Whether `value` says where the arguments of a call go: it holds an `@` or
/// a positional marker. The empty text holds neither.
pub open spec fn has_argument_point(value: Seq<char>) -> bool {
    value.contains('@') || (value.len() > 0 && has_marker(value))
}

/// The template that stands for the value `raw`: `raw` itself where it says
/// where the arguments go, else `raw` followed by a space and an `@`.
pub open spec fn template(raw: Seq<char>) -> Seq<char> {
    if has_argument_point(raw) {
        raw
    } else {
        raw + " @"@
    }
}

/// What the line `line` defines.
///
/// The line is cut at its first `=`. What stands after it is the value. What
/// stands before it is the name, unless it holds a `:`: then the name ends
/// at the first `:`, and what follows is a list of shells.
pub open spec fn parsed(line: Seq<char>) -> Result<AliasView, ParseErrorView> {
    if !line.contains('=') {
        Err(ParseErrorView::MissingSeparator)
    } else {
        let left = before(line, '=');
        let value = template(after(line, '='));
        if !left.contains(':') {
            Ok(AliasView { name: left, value, supported_shells: None })
        } else {
            match shells_listed(after(left, ':')) {
                Ok(shells) => Ok(
                    AliasView { name: before(left, ':'), value, supported_shells: Some(shells) },
                ),
                Err(token) => Err(ParseErrorView::UnknownShell(token)),
            }
        }
    }
}

/// Whether `line` has a list of shells with an entry that names no shell.
pub open spec fn lists_unknown_shell(line: Seq<char>) -> bool {
    &&& line.contains('=')
    &&& before(line, '=').contains(':')
    &&& !all_known(split(after(before(line, '='), ':'), ','))
}

impl AliasView {
    /// Whether the name holds neither of the separators `=` and `:`, the
    /// value is not empty and says where the arguments of a call go, and no
    /// shell is listed twice.
    pub open spec fn well_formed(self) -> bool {
        &&& !self.name.contains('=')
        &&& !self.name.contains(':')
        &&& self.value.len() > 0
        &&& has_argument_point(self.value)
        &&& self.supported_shells matches Some(list) ==> list.no_duplicates()
    }

    /// Whether the alias is meant for `shell`.
    pub open spec fn supports(self, shell: SupportedShells) -> bool {
        match self.supported_shells {
            Some(list) => list.contains(shell),
            None => true,
        }
    }

    /// The function definition that `shell` is given for the alias, or `None`
    /// where the alias is not meant for `shell`.
    pub open spec fn script(self, shell: SupportedShells) -> Option<Seq<char>> {
        if self.supports(shell) {
            Some(definition_text(shell, self.name, body_text(shell, self.value)))
        } else {
            None
        }
    }

    /// The line that defines the alias for all shells.
    pub open spec fn line(self) -> Seq<char> {
        self.name + "="@ + self.value
    }
}

/// Why a line is no alias definition.
#[derive(Debug, PartialEq, Eq)]
pub enum ParseError {
    /// The line holds no `=`.
    MissingSeparator,
    /// The list of shells holds this entry, which names no shell.
    UnknownShell(String),
}

impl View for ParseError {
    type V = ParseErrorView;

    open spec fn view(&self) -> ParseErrorView {
        match self {
            ParseError::MissingSeparator => ParseErrorView::MissingSeparator,
            ParseError::UnknownShell(token) => ParseErrorView::UnknownShell(token@),
        }
    }
}

impl ParseErrorView {
    /// The error in words.
    pub open spec fn message(self) -> Seq<char> {
        match self {
            ParseErrorView::MissingSeparator => "No \"=\" in the input string"@,
            ParseErrorView::UnknownShell(token) => "invalid variant: "@ + token,
        }
    }
}

impl ParseError {
    /// The error in words.
    pub fn message(&self) -> (text: String)
        ensures
            text@ == self@.message(),
    {
        match self {
            ParseError::MissingSeparator => String::from_str("No \"=\" in the input string"),
            ParseError::UnknownShell(token) => String::from_str("invalid variant: ").concat(
                token.as_str(),
            ),
        }
    }
}

/// `raw` itself where `has_point` says that it tells where the arguments go,
/// else `raw` followed by a space and an `@`.
pub fn with_argument_point(raw: &str, has_point: bool) -> (value: String)
    ensures
        value@ == if has_point {
            raw@
        } else {
            raw@ + " @"@
        },
{
    if has_point {
        String::from_str(raw)
    } else {
        String::from_str(raw).concat(" @")
    }
}

/// An alias definition: a name, what it stands for, and the shells that it
/// is meant for.
#[derive(Debug)]
pub struct Alias {
    name: String,
    value: String,
    supported_shells: Option<Vec<SupportedShells>>,
}

impl View for Alias {
    type V = AliasView;

    closed spec fn view(&self) -> AliasView {
        AliasView {
            name: self.name@,
            value: self.value@,
            supported_shells: match self.supported_shells {
                Some(list) => Some(list@),
                None => None,
            },
        }
    }
}

impl Alias {
    #[verifier::type_invariant]
    spec fn holds_well_formed(&self) -> bool {
        self@.well_formed()
    }

    /// Reads the alias definition that the line `s` holds.
    ///
    /// A line without `=` is refused as `MissingSeparator`, and one whose
    /// list of shells has an entry that names no shell as `UnknownShell`,
    /// with the first such entry. Every other line is accepted. A value that
    /// does not say where the arguments of a call go has ` @` added.
    pub fn from_str(s: &str) -> (outcome: Result<Alias, ParseError>)
        ensures
            match outcome {
                Ok(alias) => parsed(s@) == Ok::<AliasView, ParseErrorView>(alias@),
                Err(error) => parsed(s@) == Err::<AliasView, ParseErrorView>(error@),
            },
            outcome matches Err(ParseError::MissingSeparator) <==> !s@.contains('='),
            outcome matches Err(ParseError::UnknownShell(_)) <==> lists_unknown_shell(s@),
            outcome is Ok <==> s@.contains('=') && !lists_unknown_shell(s@),
            outcome matches Ok(alias) ==> alias@.well_formed(),
            outcome matches Ok(alias) ==> alias@.value.len() > 0,
            outcome matches Ok(alias) ==> (!before(s@, '=').contains(':')
                <==> alias@.supported_shells is None),
            outcome matches Ok(alias) ==> (has_argument_point(after(s@, '=')) ==> alias@.value
                == after(s@, '=')),
            outcome matches Ok(alias) ==> (!has_argument_point(after(s@, '=')) ==> alias@.value
                == after(s@, '=') + " @"@),
    {
        let (left, raw) = match split_once(s, '=') {
            Some(parts) => parts,
            None => {
                return Err(ParseError::MissingSeparator);
            },
        };
        let (name, supported_shells) = match split_once(left, ':') {
            Some((name, list)) => match parse_shells(list) {
                Ok(shells) => (name, Some(shells)),
                Err(token) => {
                    proof {
                        lemma_parsed(s@);
                    }
                    return Err(ParseError::UnknownShell(token));
                },
            },
            None => (left, None),
        };
        let has_point = contains_char(raw, '@') || (!raw.is_empty() && contains_marker(
            raw,
        ));
        let value = with_argument_point(raw, has_point);
        proof {
            lemma_parsed(s@);
        }
        Ok(Alias { name: String::from_str(name), value, supported_shells })
    }

    /// The function definition that `lang` is given for the alias, or `None`
    /// where the alias is not meant for `lang`.
    pub fn to_script(&self, lang: SupportedShells) -> (script: Option<String>)
        ensures
            script is None <==> (self@.supported_shells matches Some(list) && !list.contains(
                lang,
            )),
            match script {
                Some(text) => self@.script(lang) == Some(text@),
                None => self@.script(lang) is None,
            },
    {
        if !self.supports(lang) {
            return None;
        }
        let body = body(lang, self.value.as_str());
        Some(definition(lang, self.name.as_str(), body.as_str()))
    }

    /// Whether the alias is meant for `shell`: it is where the alias names
    /// no shells at all, or `shell` among them.
    pub fn supports(&self, shell: SupportedShells) -> (supported: bool)
        ensures
            supported == self@.supports(shell),
    {
        match &self.supported_shells {
            Some(list) => is_listed(list, shell),
            None => true,
        }
    }

    /// The name of the alias. It holds neither `=` nor `:`.
    pub fn name(&self) -> (name: &String)
        ensures
            name@ == self@.name,
            !name@.contains('=') && !name@.contains(':'),
    {
        proof {
            use_type_invariant(self);
        }
        &self.name
    }

    /// What the alias stands for. It is not empty, and it says where the
    /// arguments of a call go.
    pub fn value(&self) -> (value: &String)
        ensures
            value@ == self@.value,
            value@.len() > 0,
            has_argument_point(value@),
    {
        proof {
            use_type_invariant(self);
        }
        &self.value
    }

    /// The shells that the alias is meant for, each once; `None` where it
    /// is meant for all of them.
    pub fn supported_shells(&self) -> (shells: &Option<Vec<SupportedShells>>)
        ensures
            match shells {
                Some(list) => self@.supported_shells == Some(list@) && list@.no_duplicates(),
                None => self@.supported_shells is None,
            },
    {
        proof {
            use_type_invariant(self);
        }
        &self.supported_shells
    }
}

/// What a line defines is well formed. A line is refused for want of a
/// separator exactly where it holds no `=`, and for an unknown shell exactly
/// where its list of shells has an entry that names none.
pub proof fn lemma_parsed(line: Seq<char>)
    ensures
        parsed(line) matches Ok(alias) ==> alias.well_formed(),
        parsed(line) matches Err(ParseErrorView::MissingSeparator) <==> !line.contains('='),
        parsed(line) matches Err(ParseErrorView::UnknownShell(_)) <==> lists_unknown_shell(line),
{
    if line.contains('=') {
        let left = before(line, '=');
        let raw = after(line, '=');
        lemma_position(line, '=');
        lemma_position(left, ':');
        lemma_template(raw);
        if left.contains(':') {
            if let Ok(shells) = shells_listed(after(left, ':')) {
                lemma_distinct(shells_named(split(after(left, ':'), ',')));
            }
        }
        let name = if left.contains(':') {
            before(left, ':')
        } else {
            left
        };
        if name.contains('=') {
            let k = choose|k: int| 0 <= k < name.len() && name[k] == '=';
            assert(line[k] == '=');
        }
        if name.contains(':') {
            let k = choose|k: int| 0 <= k < name.len() && name[k] == ':';
            assert(left[k] == ':');
        }
    }
}

/// A template is not empty and says where the arguments of a call go. Where
/// the value did not, the template ends with a space and an `@`.
pub proof fn lemma_template(raw: Seq<char>)
    ensures
        template(raw).len() > 0,
        has_argument_point(template(raw)),
        !raw.contains('@') && !has_marker(raw) ==> {
            let value = template(raw);
            &&& value.len() == raw.len() + 2
            &&& value.subrange(0, raw.len() as int) == raw
            &&& value[value.len() - 2] == ' '
            &&& value[value.len() - 1] == '@'
        },
{
    reveal_strlit(" @");
    if !has_argument_point(raw) {
        let value = template(raw);
        assert(value[raw.len() as int + 1] == '@');
    }
}

/// The line that defines an alias for all shells is read back as that alias
/// without a list of shells: same name, same value.
pub proof fn lemma_reparse(line: Seq<char>)
    ensures
        parsed(line) matches Ok(alias) ==> parsed(alias.line()) == Ok::<AliasView, ParseErrorView>(
            AliasView { name: alias.name, value: alias.value, supported_shells: None },
        ),
{
    if let Ok(alias) = parsed(line) {
        lemma_parsed(line);
        lemma_line_parsed(alias);
    }
}

/// The line of a well-formed alias is read back as that alias without a list
/// of shells.
pub proof fn lemma_line_parsed(alias: AliasView)
    requires
        alias.well_formed(),
    ensures
        parsed(alias.line()) == Ok::<AliasView, ParseErrorView>(
            AliasView { name: alias.name, value: alias.value, supported_shells: None },
        ),
{
    reveal_strlit("=");
    let text = alias.line();
    let at = alias.name.len() as int;
    assert(text[at] == '=');
    assert forall|j: int| 0 <= j < at implies text[j] != '=' by {
        assert(text[j] == alias.name[j]);
    }
    lemma_position_is(text, '=', at);
    assert(before(text, '=') == alias.name);
    assert(after(text, '=') == alias.value);
}

} // verus!
