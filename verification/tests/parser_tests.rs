//! Tests of the segment lexer.

use xshe::convert::parser::{
    is_valid_shell_variable, parse_value, FatalKind, ParseWarning, ValuePart, ValuePartKind,
    WarningKind,
};

/// Shorthand to test the mapping of strings to their parsed representations.
fn assert_parses(value: &str, res_rep: Vec<(ValuePartKind, &str)>) {
    let expected: Vec<ValuePart> = res_rep
        .iter()
        .map(|(kind, value)| ValuePart {
            kind: *kind,
            value: value.to_string(),
        })
        .collect();
    let parsed = parse_value(value).expect("the value should parse");
    assert_eq!(parsed.parts, expected, "Check how {} parses", value);
}

#[test]
fn test_literal() {
    assert_parses("Hello World!", vec![(ValuePartKind::Literal, "Hello World!")])
}

#[test]
fn test_variable() {
    assert_parses("${PATH}", vec![(ValuePartKind::ShellVariable, "PATH")])
}

#[test]
fn test_command() {
    assert_parses("$(tty)", vec![(ValuePartKind::ShellCommand, "tty")])
}

#[test]
fn test_tilde_blank() {
    assert_parses(
        "~/.config/xshe.toml",
        vec![
            (ValuePartKind::Home, ""),
            (ValuePartKind::Literal, "/.config/xshe.toml"),
        ],
    )
}

#[test]
fn test_tilde_named() {
    assert_parses(
        "~superatomic/.config/xshe.toml",
        vec![
            (ValuePartKind::Home, "superatomic"),
            (ValuePartKind::Literal, "/.config/xshe.toml"),
        ],
    )
}

#[test]
fn test_multiple() {
    assert_parses(
        "The $(pwd) might be on the ${PATH}",
        vec![
            (ValuePartKind::Literal, "The "),
            (ValuePartKind::ShellCommand, "pwd"),
            (ValuePartKind::Literal, " might be on the "),
            (ValuePartKind::ShellVariable, "PATH"),
        ],
    )
}

#[test]
fn test_escape_dollar_sign() {
    assert_parses(r"\$(tty)", vec![(ValuePartKind::Literal, r"$(tty)")])
}

#[test]
fn test_escape_backslash() {
    assert_parses(r"$(echo '\\')", vec![(ValuePartKind::ShellCommand, r"echo '\'")])
}

#[test]
fn test_escape_bracket() {
    assert_parses(r"$(echo '\)')", vec![(ValuePartKind::ShellCommand, r"echo ')'")])
}

#[test]
fn test_escape_closing() {
    assert_parses(
        r"$(echo \)))",
        vec![
            (ValuePartKind::ShellCommand, "echo )"),
            (ValuePartKind::Literal, ")"),
        ],
    )
}

#[test]
fn test_nesting() {
    // You shouldn't be able to nest special modes.
    assert_parses(
        r"$(echo ${$\(\)})",
        vec![(ValuePartKind::ShellCommand, "echo ${$()}")],
    )
}

// ---------------------------------------------------------------------------
// The empty value and segment boundaries
// ---------------------------------------------------------------------------

#[test]
fn test_empty_value_is_one_empty_literal() {
    let parsed = parse_value("").expect("the empty value parses");
    assert_eq!(
        parsed.parts,
        vec![ValuePart {
            kind: ValuePartKind::Literal,
            value: String::new(),
        }]
    );
    assert!(parsed.warnings.is_empty());
}

#[test]
fn test_empty_braced_reference_yields_no_parts() {
    // An empty `${}` contributes nothing at all: this is the one shape of
    // input that parses to an empty sequence.
    let parsed = parse_value("${}").expect("an empty reference parses");
    assert!(parsed.parts.is_empty());
    let parsed = parse_value("${}$()").expect("empty references parse");
    assert!(parsed.parts.is_empty());
}

#[test]
fn test_bare_reference_boundary() {
    assert_parses(
        "$CARGO_HOME/bin",
        vec![
            (ValuePartKind::ShellVariable, "CARGO_HOME"),
            (ValuePartKind::Literal, "/bin"),
        ],
    )
}

#[test]
fn test_tilde_username_boundary() {
    assert_parses(
        "~alice/x",
        vec![(ValuePartKind::Home, "alice"), (ValuePartKind::Literal, "/x")],
    );
    assert_parses(
        "~/x",
        vec![(ValuePartKind::Home, ""), (ValuePartKind::Literal, "/x")],
    );
}

#[test]
fn test_bare_tilde_alone() {
    assert_parses("~", vec![(ValuePartKind::Home, "")])
}

#[test]
fn test_tilde_in_the_middle_is_literal() {
    assert_parses("a~b", vec![(ValuePartKind::Literal, "a~b")])
}

// ---------------------------------------------------------------------------
// Warnings
// ---------------------------------------------------------------------------

#[test]
fn test_valid_shell_variable_characters() {
    assert!(is_valid_shell_variable('a'));
    assert!(is_valid_shell_variable('Z'));
    assert!(is_valid_shell_variable('0'));
    assert!(is_valid_shell_variable('_'));
    assert!(is_valid_shell_variable('ž'));
    assert!(!is_valid_shell_variable('/'));
    assert!(!is_valid_shell_variable('$'));
    assert!(!is_valid_shell_variable('~'));
    assert!(!is_valid_shell_variable('-'));
}

#[test]
fn test_warning_invalid_shell_introducer() {
    let parsed = parse_value("$%x").expect("a stray dollar is recoverable");
    assert_eq!(
        parsed.parts,
        vec![ValuePart {
            kind: ValuePartKind::Literal,
            value: "$%x".to_string(),
        }]
    );
    assert_eq!(
        parsed.warnings,
        vec![ParseWarning {
            kind: WarningKind::InvalidShellIntroducer,
            start: 0,
            end: 1,
        }]
    );
}

#[test]
fn test_warning_invalid_escape() {
    let parsed = parse_value(r"a\b").expect("a stray backslash is recoverable");
    assert_eq!(
        parsed.parts,
        vec![ValuePart {
            kind: ValuePartKind::Literal,
            value: r"a\b".to_string(),
        }]
    );
    assert_eq!(
        parsed.warnings,
        vec![ParseWarning {
            kind: WarningKind::InvalidEscape,
            start: 1,
            end: 2,
        }]
    );
}

#[test]
fn test_warning_unneeded_escape() {
    // A `)` needs no escape inside literal text.
    let parsed = parse_value(r"a\)").expect("an unneeded escape is recoverable");
    assert_eq!(
        parsed.parts,
        vec![ValuePart {
            kind: ValuePartKind::Literal,
            value: r"a\)".to_string(),
        }]
    );
    assert_eq!(
        parsed.warnings,
        vec![ParseWarning {
            kind: WarningKind::UnneededEscape,
            start: 1,
            end: 2,
        }]
    );
}

#[test]
fn test_warning_trailing_backslash() {
    let parsed = parse_value(r"abc\").expect("a trailing backslash is recoverable");
    assert_eq!(
        parsed.parts,
        vec![ValuePart {
            kind: ValuePartKind::Literal,
            value: r"abc\".to_string(),
        }]
    );
    assert_eq!(
        parsed.warnings,
        vec![ParseWarning {
            kind: WarningKind::TrailingBackslash,
            start: 3,
            end: 3,
        }]
    );
}

#[test]
fn test_warning_trailing_dollar() {
    let parsed = parse_value("abc$").expect("a trailing dollar is recoverable");
    assert_eq!(
        parsed.parts,
        vec![ValuePart {
            kind: ValuePartKind::Literal,
            value: "abc$".to_string(),
        }]
    );
    assert_eq!(
        parsed.warnings,
        vec![ParseWarning {
            kind: WarningKind::TrailingDollar,
            start: 3,
            end: 3,
        }]
    );
}

// ---------------------------------------------------------------------------
// Fatal errors
// ---------------------------------------------------------------------------

#[test]
fn test_fatal_unclosed_command() {
    let err = parse_value("$(tty").expect_err("an unclosed command is fatal");
    assert_eq!(err.kind, FatalKind::UnclosedShellStatement);
    assert_eq!(err.start, 0);
    assert_eq!(err.end, 4);
}

#[test]
fn test_fatal_unclosed_variable() {
    let err = parse_value("${PATH").expect_err("an unclosed reference is fatal");
    assert_eq!(err.kind, FatalKind::UnclosedShellStatement);
    assert_eq!(err.start, 0);
    assert_eq!(err.end, 5);
}

#[test]
fn test_fatal_backslash_in_variable() {
    let err = parse_value(r"${A\B}").expect_err("a backslash in a reference is fatal");
    assert_eq!(err.kind, FatalKind::BackslashInShellVariable);
    assert_eq!(err.start, 3);
    assert_eq!(err.end, 3);
}

#[test]
fn test_fatal_invalid_variable_character() {
    let err = parse_value("${A!}").expect_err("a bad name character is fatal");
    assert_eq!(err.kind, FatalKind::InvalidShellVariableChar);
    assert_eq!(err.start, 3);
    assert_eq!(err.end, 3);
}
