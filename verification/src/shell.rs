//! The shells that a function definition can be written for, and the list of
//! shells that an alias is restricted to.

use crate::text::{eq_ignore_case, lemma_position, same_ignoring_case, split, split_once};
use vstd::prelude::*;
use vstd::string::StringExecFns;

verus! {

/// A shell that definitions can be written for.
#[derive(Clone, Copy, Debug, PartialEq, Eq, Structural)]
pub enum SupportedShells {
    Pwsh,
    Bash,
    Fish,
}

impl SupportedShells {
    /// The name that the shell is listed under, in lower case.
    pub open spec fn name(self) -> Seq<char> {
        match self {
            SupportedShells::Pwsh => "pwsh"@,
            SupportedShells::Bash => "bash"@,
            SupportedShells::Fish => "fish"@,
        }
    }

    /// The shell that `text` names, in whatever case it is written.
    pub open spec fn named(text: Seq<char>) -> Option<SupportedShells> {
        if same_ignoring_case(text, SupportedShells::Pwsh.name()) {
            Some(SupportedShells::Pwsh)
        } else if same_ignoring_case(text, SupportedShells::Bash.name()) {
            Some(SupportedShells::Bash)
        } else if same_ignoring_case(text, SupportedShells::Fish.name()) {
            Some(SupportedShells::Fish)
        } else {
            None
        }
    }

    /// The command line that asks the shell whether it knows a command
    /// `name`: the program, then its arguments. The command succeeds where
    /// the shell knows one.
    pub open spec fn probe_words(self, name: Seq<char>) -> Seq<Seq<char>> {
        match self {
            SupportedShells::Pwsh => seq![
                "pwsh"@,
                "--"@,
                "get-command"@,
                name,
                "-ErrorAction"@,
                "SilentlyContinue"@,
            ],
            SupportedShells::Bash => seq!["bash"@, "-c"@, "command -v "@ + name],
            SupportedShells::Fish => seq!["fish"@, "-c"@, "type -q "@ + name],
        }
    }

    /// The shell that `text` names, in whatever case it is written; `None`
    /// where it names none.
    pub fn from_name(text: &str) -> (shell: Option<SupportedShells>)
        ensures
            shell == Self::named(text@),
    {
        if eq_ignore_case(text, "pwsh") {
            Some(SupportedShells::Pwsh)
        } else if eq_ignore_case(text, "bash") {
            Some(SupportedShells::Bash)
        } else if eq_ignore_case(text, "fish") {
            Some(SupportedShells::Fish)
        } else {
            None
        }
    }

    /// The command line that asks the shell whether it knows a command
    /// `name`: the program, then its arguments.
    pub fn probe_command(self, name: &str) -> (words: Vec<String>)
        ensures
            words.deep_view() == self.probe_words(name@),
    {
        let mut words: Vec<String> = Vec::new();
        match self {
            SupportedShells::Pwsh => {
                words.push(String::from_str("pwsh"));
                words.push(String::from_str("--"));
                words.push(String::from_str("get-command"));
                words.push(String::from_str(name));
                words.push(String::from_str("-ErrorAction"));
                words.push(String::from_str("SilentlyContinue"));
            },
            SupportedShells::Bash => {
                words.push(String::from_str("bash"));
                words.push(String::from_str("-c"));
                words.push(String::from_str("command -v ").concat(name));
            },
            SupportedShells::Fish => {
                words.push(String::from_str("fish"));
                words.push(String::from_str("-c"));
                words.push(String::from_str("type -q ").concat(name));
            },
        }
        assert(words.deep_view() =~= self.probe_words(name@));
        words
    }
}

/// Whether every one of `tokens` names a shell.
pub open spec fn all_known(tokens: Seq<Seq<char>>) -> bool {
    forall|i: int| 0 <= i < tokens.len() ==> SupportedShells::named(#[trigger] tokens[i]) is Some
}

/// Whether `tokens[i]` names no shell while every token before it names one.
pub open spec fn is_first_unknown(tokens: Seq<Seq<char>>, i: int) -> bool {
    &&& 0 <= i < tokens.len()
    &&& SupportedShells::named(tokens[i]) is None
    &&& forall|j: int| 0 <= j < i ==> SupportedShells::named(#[trigger] tokens[j]) is Some
}

/// The shells that `tokens` name, one for each token and in their order.
pub open spec fn shells_named(tokens: Seq<Seq<char>>) -> Seq<SupportedShells>
    recommends
        all_known(tokens),
{
    tokens.map_values(|token: Seq<char>| SupportedShells::named(token).unwrap())
}

/// `shells` without repetitions: each shell stands where it first occurs.
pub open spec fn distinct(shells: Seq<SupportedShells>) -> Seq<SupportedShells>
    decreases shells.len(),
{
    if shells.len() == 0 {
        shells
    } else {
        let before = distinct(shells.drop_last());
        if before.contains(shells.last()) {
            before
        } else {
            before.push(shells.last())
        }
    }
}

/// The shells that the comma-separated `list` names, each once and in the
/// order in which the list first names them, or else the first of its
/// entries that names no shell. An empty entry names no shell.
pub open spec fn shells_listed(list: Seq<char>) -> Result<Seq<SupportedShells>, Seq<char>> {
    let tokens = split(list, ',');
    if all_known(tokens) {
        Ok(distinct(shells_named(tokens)))
    } else {
        Err(tokens[choose|i: int| is_first_unknown(tokens, i)])
    }
}

/// `distinct` holds the same shells, and none of them twice.
pub proof fn lemma_distinct(shells: Seq<SupportedShells>)
    ensures
        distinct(shells).no_duplicates(),
        forall|shell: SupportedShells| distinct(shells).contains(shell) <==> shells.contains(shell),
    decreases shells.len(),
{
    if shells.len() > 0 {
        let before = shells.drop_last();
        let last = shells.last();
        let kept = distinct(before);
        lemma_distinct(before);
        assert forall|shell: SupportedShells| distinct(shells).contains(shell) <==> shells.contains(
            shell,
        ) by {
            assert(kept.contains(shell) <==> before.contains(shell));
            if before.contains(shell) {
                let k = choose|k: int| 0 <= k < before.len() && before[k] == shell;
                assert(shells[k] == shell);
            }
            if kept.contains(shell) {
                let m = choose|m: int| 0 <= m < kept.len() && kept[m] == shell;
                assert(distinct(shells)[m] == shell);
            }
            if shell == last {
                assert(shells[shells.len() - 1] == shell);
                if !kept.contains(last) {
                    assert(distinct(shells)[kept.len() as int] == shell);
                }
            }
            if shells.contains(shell) && shell != last {
                let k = choose|k: int| 0 <= k < shells.len() && shells[k] == shell;
                assert(before[k] == shell);
            }
            if distinct(shells).contains(shell) && shell != last {
                let all = distinct(shells);
                let m = choose|m: int| 0 <= m < all.len() && all[m] == shell;
                assert(kept[m] == shell);
            }
        }
    }
}

/// An index at which the first unknown token stands is the one that
/// `shells_listed` reports.
proof fn lemma_first_unknown(tokens: Seq<Seq<char>>, i: int)
    requires
        is_first_unknown(tokens, i),
    ensures
        !all_known(tokens),
        (choose|k: int| is_first_unknown(tokens, k)) == i,
{
    let k = choose|k: int| is_first_unknown(tokens, k);
    assert(is_first_unknown(tokens, k));
    if k < i {
        assert(SupportedShells::named(tokens[k]) is Some);
    }
    if i < k {
        assert(SupportedShells::named(tokens[i]) is Some);
    }
}

/// Whether `shell` is one of `list`.
pub fn is_listed(list: &Vec<SupportedShells>, shell: SupportedShells) -> (listed: bool)
    ensures
        listed == list@.contains(shell),
{
    let mut i: usize = 0;
    while i < list.len()
        invariant
            i <= list@.len(),
            forall|j: int| 0 <= j < i ==> list@[j] != shell,
        decreases list@.len() - i,
    {
        if list[i] == shell {
            assert(list@[i as int] == shell);
            return true;
        }
        i = i + 1;
    }
    false
}

/// The shells that the comma-separated `list` names, each once and in the
/// order in which the list first names them, or else the first of its
/// entries that names no shell.
pub fn parse_shells(list: &str) -> (shells: Result<Vec<SupportedShells>, String>)
    ensures
        match shells {
            Ok(found) => shells_listed(list@) == Ok::<Seq<SupportedShells>, Seq<char>>(found@),
            Err(token) => shells_listed(list@) == Err::<Seq<SupportedShells>, Seq<char>>(token@),
        },
{
    let mut found: Vec<SupportedShells> = Vec::new();
    let mut rest: &str = list;
    let ghost mut done: Seq<Seq<char>> = Seq::empty();
    let ghost mut named: Seq<SupportedShells> = Seq::empty();
    loop
        invariant
            split(list@, ',') == done + split(rest@, ','),
            done.len() == named.len(),
            forall|i: int|
                0 <= i < done.len() ==> SupportedShells::named(#[trigger] done[i]) == Some(
                    named[i],
                ),
            found@ == distinct(named),
        decreases rest@.len(),
    {
        let ghost tokens = split(list@, ',');
        let ghost at = done.len() as int;
        let (token, more) = match split_once(rest, ',') {
            Some((token, more)) => (token, Some(more)),
            None => (rest, None),
        };
        assert(tokens[at] == token@ && at < tokens.len()) by {
            assert(split(rest@, ',')[0] == token@);
        }
        match SupportedShells::from_name(token) {
            Some(shell) => {
                proof {
                    assert(named.push(shell).drop_last() == named);
                    named = named.push(shell);
                }
                if !is_listed(&found, shell) {
                    found.push(shell);
                }
            },
            None => {
                proof {
                    assert forall|j: int| 0 <= j < at implies SupportedShells::named(
                        #[trigger] tokens[j],
                    ) is Some by {
                        assert(tokens[j] == done[j]);
                    }
                    lemma_first_unknown(tokens, at);
                }
                return Err(String::from_str(token));
            },
        }
        proof {
            done = done.push(token@);
        }
        match more {
            Some(more) => {
                proof {
                    lemma_position(rest@, ',');
                    assert(split(rest@, ',') == seq![token@] + split(more@, ','));
                    assert(tokens == done + split(more@, ','));
                }
                rest = more;
            },
            None => {
                proof {
                    assert(split(rest@, ',') == seq![token@]);
                    assert(tokens == done);
                    assert forall|j: int| 0 <= j < tokens.len() implies SupportedShells::named(
                        #[trigger] tokens[j],
                    ) is Some by {}
                    assert(shells_named(tokens) == named);
                }
                return Ok(found);
            },
        }
    }
}

/// Every shell is named by its own name.
pub proof fn lemma_name_names(shell: SupportedShells)
    ensures
        SupportedShells::named(shell.name()) == Some(shell),
{
    reveal_strlit("pwsh");
    reveal_strlit("bash");
    reveal_strlit("fish");
    let pwsh = SupportedShells::Pwsh.name();
    let bash = SupportedShells::Bash.name();
    let fish = SupportedShells::Fish.name();
    assert(pwsh[0] == 'p' && bash[0] == 'b' && fish[0] == 'f');
}

} // verus!
