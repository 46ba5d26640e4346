use shell_alias::alias::with_argument_point;
use shell_alias::pattern::{contains_marker, positional_argument, rewrite_markers};
use shell_alias::script::{body, definition, variadic};
use shell_alias::{Alias, SupportedShells};

const SHELLS: [SupportedShells; 3] =
    [SupportedShells::Pwsh, SupportedShells::Bash, SupportedShells::Fish];

fn alias(line: &str) -> Alias {
    Alias::from_str(line).expect("the line defines an alias")
}

#[test]
fn alias_without_list_supports_every_shell() {
    let a = alias("ll=ls");
    for shell in SHELLS {
        assert!(a.supports(shell));
        assert!(a.to_script(shell).is_some());
    }
}

#[test]
fn alias_with_list_supports_the_listed_shells_only() {
    let a = alias("ll:bash,pwsh=ls");
    assert!(a.supports(SupportedShells::Bash));
    assert!(a.supports(SupportedShells::Pwsh));
    assert!(!a.supports(SupportedShells::Fish));
    for shell in SHELLS {
        assert_eq!(a.to_script(shell).is_none(), !a.supports(shell));
    }
}

#[test]
fn words_for_all_arguments() {
    assert_eq!(variadic(SupportedShells::Pwsh), "@args");
    assert_eq!(variadic(SupportedShells::Bash), "$@");
    assert_eq!(variadic(SupportedShells::Fish), "$argv");
}

#[test]
fn definitions_shell_by_shell() {
    assert_eq!(
        definition(SupportedShells::Pwsh, "n", "b"),
        "Remove-Alias n -ErrorAction SilentlyContinue -Force\nfunction n {\n    b\n}\n"
    );
    assert_eq!(definition(SupportedShells::Bash, "n", "b"), "function n {\n    b\n}\n");
    assert_eq!(definition(SupportedShells::Fish, "n", "b"), "function n \n    b\nend\n");
    assert_eq!(definition(SupportedShells::Fish, "", ""), "function  \n    \nend\n");
}

#[test]
fn arguments_shell_by_shell() {
    assert_eq!(positional_argument(SupportedShells::Pwsh, "12"), "$args[12]");
    assert_eq!(positional_argument(SupportedShells::Bash, "12"), "$12");
    assert_eq!(positional_argument(SupportedShells::Fish, "12"), "$argv[13]");
}

#[test]
fn fish_adds_one_to_the_number() {
    assert_eq!(positional_argument(SupportedShells::Fish, "0"), "$argv[1]");
    assert_eq!(positional_argument(SupportedShells::Fish, "1"), "$argv[2]");
    assert_eq!(positional_argument(SupportedShells::Fish, "9"), "$argv[10]");
    assert_eq!(positional_argument(SupportedShells::Fish, "007"), "$argv[8]");
    assert_eq!(positional_argument(SupportedShells::Fish, "99"), "$argv[100]");
    assert_eq!(
        positional_argument(SupportedShells::Fish, "18446744073709551615"),
        "$argv[18446744073709551616]"
    );
}

#[test]
fn fish_adds_one_to_numbers_of_any_length() {
    assert_eq!(
        positional_argument(SupportedShells::Fish, "18446744073709551616"),
        "$argv[18446744073709551617]"
    );
    assert_eq!(
        positional_argument(SupportedShells::Fish, "99999999999999999999999"),
        "$argv[100000000000000000000000]"
    );
    assert_eq!(
        positional_argument(SupportedShells::Fish, "340282366920938463463374607431768211455"),
        "$argv[340282366920938463463374607431768211456]"
    );
    assert_eq!(
        positional_argument(SupportedShells::Fish, "000000000000000000000000000000000000009"),
        "$argv[10]"
    );
}

#[test]
fn fish_drops_what_is_no_numeral() {
    assert_eq!(positional_argument(SupportedShells::Fish, "\u{0663}"), "");
    assert_eq!(positional_argument(SupportedShells::Fish, "1\u{0663}"), "");
    assert_eq!(positional_argument(SupportedShells::Fish, ""), "");
    assert_eq!(positional_argument(SupportedShells::Fish, "1a"), "");
}

#[test]
fn pwsh_keeps_the_digits_as_written() {
    assert_eq!(positional_argument(SupportedShells::Pwsh, "007"), "$args[007]");
    assert_eq!(positional_argument(SupportedShells::Pwsh, "\u{0663}"), "$args[\u{0663}]");
    assert_eq!(
        positional_argument(SupportedShells::Pwsh, "18446744073709551616"),
        "$args[18446744073709551616]"
    );
}

#[test]
fn markers_are_found() {
    assert!(contains_marker("$1"));
    assert!(contains_marker("a$12b"));
    assert!(contains_marker("$$0"));
    assert!(contains_marker("$\u{0661}"));
    assert!(!contains_marker(""));
    assert!(!contains_marker("$"));
    assert!(!contains_marker("$a1"));
    assert!(!contains_marker("1$"));
    assert!(!contains_marker("$ 1"));
    assert!(!contains_marker("$@"));
}

#[test]
fn markers_are_rewritten() {
    assert_eq!(
        rewrite_markers("a $1 b $22", SupportedShells::Fish),
        "a $argv[2] b $argv[23]"
    );
    assert_eq!(
        rewrite_markers("a $1 b $22", SupportedShells::Pwsh),
        "a $args[1] b $args[22]"
    );
    assert_eq!(rewrite_markers("a $1 b $22", SupportedShells::Bash), "a $1 b $22");
    assert_eq!(rewrite_markers("$1$2", SupportedShells::Fish), "$argv[2]$argv[3]");
    assert_eq!(rewrite_markers("$$1", SupportedShells::Fish), "$$argv[2]");
    assert_eq!(rewrite_markers("$1a", SupportedShells::Pwsh), "$args[1]a");
}

#[test]
fn text_without_markers_is_not_rewritten() {
    for shell in SHELLS {
        assert_eq!(rewrite_markers("", shell), "");
        assert_eq!(rewrite_markers("echo $HOME $ 1 $", shell), "echo $HOME $ 1 $");
    }
}

#[test]
fn bodies_shell_by_shell() {
    assert_eq!(body(SupportedShells::Bash, "echo $1 @"), "echo $1 $@");
    assert_eq!(body(SupportedShells::Pwsh, "echo $1 @"), "echo $args[1] @args");
    assert_eq!(body(SupportedShells::Fish, "echo $1 @"), "echo $argv[2] $argv");
}

#[test]
fn every_variadic_marker_is_rewritten() {
    assert_eq!(body(SupportedShells::Bash, "@ @@"), "$@ $@$@");
    assert_eq!(body(SupportedShells::Pwsh, "@ @@"), "@args @args@args");
    assert_eq!(body(SupportedShells::Fish, "@ @@"), "$argv $argv$argv");
}

#[test]
fn variadic_marker_next_to_digits_is_no_positional_marker() {
    assert_eq!(body(SupportedShells::Fish, "@1"), "$argv1");
    assert_eq!(body(SupportedShells::Pwsh, "@1"), "@args1");
    assert_eq!(body(SupportedShells::Bash, "@1"), "$@1");
}

#[test]
fn fish_drops_markers_that_are_no_number() {
    assert_eq!(
        alias("u=echo $\u{0663} x").to_script(SupportedShells::Fish),
        Some("function u \n    echo  x\nend\n".to_string())
    );
    assert_eq!(
        alias("u=echo $1\u{0663} x").to_script(SupportedShells::Fish),
        Some("function u \n    echo  x\nend\n".to_string())
    );
}

#[test]
fn fish_writes_large_positions() {
    assert_eq!(
        alias("u=echo $18446744073709551615").to_script(SupportedShells::Fish),
        Some("function u \n    echo $argv[18446744073709551616]\nend\n".to_string())
    );
    assert_eq!(
        alias("u=echo $18446744073709551616 x").to_script(SupportedShells::Fish),
        Some("function u \n    echo $argv[18446744073709551617] x\nend\n".to_string())
    );
    assert_eq!(
        alias("u=echo $99999999999999999999999999999999999999999").to_script(SupportedShells::Fish),
        Some(
            "function u \n    echo $argv[100000000000000000000000000000000000000000]\nend\n"
                .to_string()
        )
    );
    assert_eq!(
        alias("u=echo $10 $0099").to_script(SupportedShells::Fish),
        Some("function u \n    echo $argv[11] $argv[100]\nend\n".to_string())
    );
}

#[test]
fn name_is_written_as_read() {
    assert_eq!(
        alias(" my alias :bash=x @").to_script(SupportedShells::Bash),
        Some("function  my alias  {\n    x $@\n}\n".to_string())
    );
}

#[test]
fn argument_point_is_added_on_demand() {
    assert_eq!(with_argument_point("ls", false), "ls @");
    assert_eq!(with_argument_point("ls", true), "ls");
    assert_eq!(with_argument_point("", false), " @");
    assert_eq!(with_argument_point("", true), "");
}
