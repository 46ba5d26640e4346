use shell_alias::shell::parse_shells;
use shell_alias::{Alias, ParseError, SupportedShells};

fn alias(line: &str) -> Alias {
    Alias::from_str(line).expect("the line defines an alias")
}

fn unknown(token: &str) -> ParseError {
    ParseError::UnknownShell(token.to_string())
}

#[test]
fn empty_line_has_no_separator() {
    assert_eq!(Alias::from_str("").unwrap_err(), ParseError::MissingSeparator);
}

#[test]
fn shell_list_without_separator_is_still_missing_separator() {
    assert_eq!(Alias::from_str("a:zsh").unwrap_err(), ParseError::MissingSeparator);
    assert_eq!(Alias::from_str("a:bash").unwrap_err(), ParseError::MissingSeparator);
}

#[test]
fn unknown_shell_is_reported_with_its_entry() {
    assert_eq!(Alias::from_str("a:zsh=x").unwrap_err(), unknown("zsh"));
}

#[test]
fn first_unknown_shell_is_the_one_reported() {
    assert_eq!(Alias::from_str("a:bash,zsh,ksh=x").unwrap_err(), unknown("zsh"));
    assert_eq!(Alias::from_str("a:ksh,zsh,bash=x").unwrap_err(), unknown("ksh"));
}

#[test]
fn empty_entry_names_no_shell() {
    assert_eq!(Alias::from_str("a:=x").unwrap_err(), unknown(""));
    assert_eq!(Alias::from_str("a:bash,=x").unwrap_err(), unknown(""));
    assert_eq!(Alias::from_str("a:,bash=x").unwrap_err(), unknown(""));
    assert_eq!(Alias::from_str("a:bash,,fish=x").unwrap_err(), unknown(""));
}

#[test]
fn entries_are_not_trimmed() {
    assert_eq!(Alias::from_str("a: bash=x").unwrap_err(), unknown(" bash"));
    assert_eq!(Alias::from_str("a:bash, fish=x").unwrap_err(), unknown(" fish"));
}

#[test]
fn second_colon_belongs_to_the_list() {
    assert_eq!(Alias::from_str("a:bash:fish=x").unwrap_err(), unknown("bash:fish"));
}

#[test]
fn shells_are_named_in_any_case() {
    let a = alias("a:BASH,Fish,pWsH=x");
    assert_eq!(
        a.supported_shells(),
        &Some(vec![SupportedShells::Bash, SupportedShells::Fish, SupportedShells::Pwsh])
    );
    assert_eq!(a.name(), "a");
}

#[test]
fn repeated_shells_are_listed_once() {
    let a = alias("a:bash,bash=x");
    assert_eq!(a.supported_shells(), &Some(vec![SupportedShells::Bash]));
    let b = alias("b:fish,bash,FISH,pwsh,Bash=x");
    assert_eq!(
        b.supported_shells(),
        &Some(vec![SupportedShells::Fish, SupportedShells::Bash, SupportedShells::Pwsh])
    );
}

#[test]
fn line_without_list_is_meant_for_all_shells() {
    let a = alias("ll=ls -la");
    assert_eq!(a.supported_shells(), &None);
    assert_eq!(a.name(), "ll");
}

#[test]
fn value_without_argument_point_gets_one() {
    assert_eq!(alias("ll=ls -la").value(), "ls -la @");
    assert_eq!(alias("x=").value(), " @");
    assert_eq!(alias("p=echo $HOME").value(), "echo $HOME @");
    assert_eq!(alias("p=echo $ 1").value(), "echo $ 1 @");
    assert_eq!(alias("p=echo 1$").value(), "echo 1$ @");
}

#[test]
fn value_with_variadic_marker_is_kept() {
    assert_eq!(alias("ll=ls @ -la").value(), "ls @ -la");
    assert_eq!(alias("ll=@").value(), "@");
}

#[test]
fn value_with_positional_marker_is_kept() {
    assert_eq!(alias("g=grep $1 -r .").value(), "grep $1 -r .");
    assert_eq!(alias("g=$0").value(), "$0");
    assert_eq!(alias("g=a$12b").value(), "a$12b");
}

#[test]
fn digits_of_other_scripts_make_a_positional_marker() {
    assert_eq!(alias("u=echo $\u{0663}").value(), "echo $\u{0663}");
}

#[test]
fn name_may_be_empty() {
    let a = alias("=ls");
    assert_eq!(a.name(), "");
    assert_eq!(a.value(), "ls @");
}

#[test]
fn name_is_taken_as_written() {
    assert_eq!(alias(" ll =ls").name(), " ll ");
    assert_eq!(alias(" ll :bash=ls").name(), " ll ");
}

#[test]
fn second_separator_belongs_to_the_value() {
    let a = alias("a=b=c");
    assert_eq!(a.name(), "a");
    assert_eq!(a.value(), "b=c @");
}

#[test]
fn colon_after_separator_belongs_to_the_value() {
    let a = alias("a=b:zsh");
    assert_eq!(a.name(), "a");
    assert_eq!(a.value(), "b:zsh @");
    assert_eq!(a.supported_shells(), &None);
}

#[test]
fn characters_beyond_ascii_are_counted_as_one() {
    let a = alias("h\u{e9}llo:fish=w\u{f6}rld \u{2192} @");
    assert_eq!(a.name(), "h\u{e9}llo");
    assert_eq!(a.value(), "w\u{f6}rld \u{2192} @");
    assert_eq!(a.supported_shells(), &Some(vec![SupportedShells::Fish]));
}

#[test]
fn line_of_an_alias_is_read_back_without_list() {
    for line in ["grep1:bash,fish=grep $1 -r .", "ll=ls -la", "=x", "a:pwsh=b=c:d"] {
        let first = alias(line);
        let again = alias(&format!("{}={}", first.name(), first.value()));
        assert_eq!(again.name(), first.name());
        assert_eq!(again.value(), first.value());
        assert_eq!(again.supported_shells(), &None);
    }
}

#[test]
fn errors_in_words() {
    assert_eq!(ParseError::MissingSeparator.message(), "No \"=\" in the input string");
    assert_eq!(unknown("zsh").message(), "invalid variant: zsh");
    assert_eq!(unknown("").message(), "invalid variant: ");
}

#[test]
fn list_of_shells() {
    assert_eq!(parse_shells("bash"), Ok(vec![SupportedShells::Bash]));
    assert_eq!(
        parse_shells("fish,PWSH,bash"),
        Ok(vec![SupportedShells::Fish, SupportedShells::Pwsh, SupportedShells::Bash])
    );
    assert_eq!(parse_shells(""), Err("".to_string()));
    assert_eq!(parse_shells("bash,sh"), Err("sh".to_string()));
    assert_eq!(parse_shells("bash;fish"), Err("bash;fish".to_string()));
    assert_eq!(
        parse_shells("bash,fish,bash,bash,fish"),
        Ok(vec![SupportedShells::Bash, SupportedShells::Fish])
    );
    assert_eq!(parse_shells("bash,bash,zsh"), Err("zsh".to_string()));
}

#[test]
fn value_is_never_empty() {
    for line in ["x=", "=", ":bash=", "a=@", "a=$1", "a= ", "a:fish,bash="] {
        let a = alias(line);
        assert!(!a.value().is_empty(), "{line}");
        assert!(a.value().contains('@') || a.value().contains('$'), "{line}");
    }
    assert_eq!(alias("=").value(), " @");
    assert_eq!(alias(":bash=").value(), " @");
}
