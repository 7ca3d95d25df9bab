//! Tests of quoting, statement forms, value expansion, and the diagnostic
//! layer.

use xshe::cli::Shell;
use xshe::convert::parser::{format_parse_error, FatalKind, WarningKind};
use xshe::convert::{
    expand_value, process_variable, set_variable, single_quote, to_shell_source, unset_variable,
    Diagnostic,
};
use xshe::structure::{EnvVariableOption, EnvVariableValue};

// ---------------------------------------------------------------------------
// Quoting
// ---------------------------------------------------------------------------

#[test]
fn test_posix_quoting_splits_on_quotes() {
    assert_eq!(single_quote("it's", &Shell::Bash), r#"'it'"'"'s'"#);
    assert_eq!(single_quote("it's", &Shell::Zsh), r#"'it'"'"'s'"#);
}

#[test]
fn test_fish_quoting_escapes_in_place() {
    assert_eq!(single_quote("it's", &Shell::Fish), r"'it\'s'");
}

#[test]
fn test_posix_quoting_drops_empty_fragments() {
    // Quotes at a boundary or next to each other add no empty '' pair.
    assert_eq!(single_quote("'", &Shell::Bash), r#""'""#);
    assert_eq!(single_quote("''", &Shell::Bash), r#""'""'""#);
    assert_eq!(single_quote("'a'", &Shell::Bash), r#""'"'a'"'""#);
}

#[test]
fn test_fish_quoting_escapes_backslashes() {
    assert_eq!(single_quote(r"a\b", &Shell::Fish), r"'a\\b'");
    assert_eq!(single_quote("", &Shell::Fish), "''");
}

#[test]
fn test_posix_quoting_plain_text() {
    assert_eq!(single_quote("plain", &Shell::Bash), "'plain'");
    assert_eq!(single_quote("", &Shell::Bash), "");
}

// ---------------------------------------------------------------------------
// Statement forms
// ---------------------------------------------------------------------------

#[test]
fn test_set_variable_forms() {
    assert_eq!(set_variable(&Shell::Bash, "A", "'x'", false), "export A='x'");
    assert_eq!(set_variable(&Shell::Zsh, "A", "'x'", false), "export A='x'");
    assert_eq!(set_variable(&Shell::Fish, "A", "'x'", false), "set -gx A 'x'");
    assert_eq!(set_variable(&Shell::Fish, "A", "'x'", true), "set -gx --path A 'x'");
    // The POSIX-like family has no list flag.
    assert_eq!(set_variable(&Shell::Bash, "A", "'x'", true), "export A='x'");
}

#[test]
fn test_unset_variable_forms() {
    assert_eq!(unset_variable(&Shell::Bash, "A"), "unset A");
    assert_eq!(unset_variable(&Shell::Zsh, "A"), "unset A");
    assert_eq!(unset_variable(&Shell::Fish, "A"), "set -ge A");
}

#[test]
fn test_shell_names() {
    assert_eq!(Shell::Bash.name(), "bash");
    assert_eq!(Shell::Fish.name(), "fish");
    assert_eq!(Shell::Zsh.name(), "zsh");
}

// ---------------------------------------------------------------------------
// Expansion of one raw value
// ---------------------------------------------------------------------------

#[test]
fn test_expand_value_mixed_parts() {
    let mut diags = Vec::new();
    let expanded = expand_value("${HOME}less", &Shell::Bash, &mut diags).unwrap();
    assert_eq!(expanded, r#""$HOME"'less'"#);
    assert!(diags.is_empty());
}

#[test]
fn test_expand_value_returns_fatal_error() {
    let mut diags = Vec::new();
    let err = expand_value("$(tty", &Shell::Bash, &mut diags).unwrap_err();
    assert_eq!(err.kind, FatalKind::UnclosedShellStatement);
    assert_eq!((err.start, err.end), (0, 4));
    assert!(diags.is_empty());
}

#[test]
fn test_expand_value_records_warnings() {
    let mut diags = Vec::new();
    let expanded = expand_value("$%", &Shell::Bash, &mut diags).unwrap();
    assert_eq!(expanded, "'$%'");
    assert_eq!(
        diags,
        vec![Diagnostic {
            line: "$%".to_string(),
            kind: WarningKind::InvalidShellIntroducer,
            start: 0,
            end: 1,
        }]
    );
}

// ---------------------------------------------------------------------------
// One binding
// ---------------------------------------------------------------------------

#[test]
fn test_process_variable_boolean_bindings() {
    let mut diags = Vec::new();
    let set = process_variable(
        &Shell::Bash,
        "B",
        &EnvVariableValue::Flag(true),
        &mut diags,
    )
    .unwrap();
    assert_eq!(set, "export B=1");
    let unset = process_variable(
        &Shell::Fish,
        "B",
        &EnvVariableValue::Flag(false),
        &mut diags,
    )
    .unwrap();
    assert_eq!(unset, "set -ge B");
    assert!(diags.is_empty());
}

#[test]
fn test_process_variable_reports_failing_element() {
    let mut diags = Vec::new();
    let value = EnvVariableValue::Path(vec!["$%".to_string(), "$(oops".to_string()]);
    let err = process_variable(&Shell::Bash, "P", &value, &mut diags).unwrap_err();
    assert_eq!(err.line, "$(oops");
    assert_eq!(err.kind, FatalKind::UnclosedShellStatement);
    // The warning of the element before the failing one is still reported.
    assert_eq!(diags.len(), 1);
    assert_eq!(diags[0].line, "$%");
    assert_eq!(diags[0].kind, WarningKind::InvalidShellIntroducer);
}

// ---------------------------------------------------------------------------
// Whole mappings: errors and diagnostics
// ---------------------------------------------------------------------------

#[test]
fn test_to_shell_source_reports_fatal_error() {
    let map = vec![(
        "TTY".to_string(),
        EnvVariableOption::General(EnvVariableValue::String("$(tty".to_string())),
    )];
    let mut diags = Vec::new();
    let err = to_shell_source(&map, &Shell::Bash, &mut diags).unwrap_err();
    assert_eq!(err.line, "$(tty");
    assert_eq!(err.kind, FatalKind::UnclosedShellStatement);
    assert_eq!((err.start, err.end), (0, 4));
}

#[test]
fn test_to_shell_source_collects_diagnostics() {
    let map = vec![
        (
            "A".to_string(),
            EnvVariableOption::General(EnvVariableValue::String("$%".to_string())),
        ),
        (
            "B".to_string(),
            EnvVariableOption::General(EnvVariableValue::String("ok".to_string())),
        ),
    ];
    let mut diags = Vec::new();
    let out = to_shell_source(&map, &Shell::Bash, &mut diags).unwrap();
    assert_eq!(out, "export A='$%'\nexport B='ok'\n");
    assert_eq!(diags.len(), 1);
    assert_eq!(diags[0].line, "$%");
    assert_eq!(diags[0].kind, WarningKind::InvalidShellIntroducer);
}

// ---------------------------------------------------------------------------
// Diagnostic messages and layout
// ---------------------------------------------------------------------------

#[test]
fn test_diagnostic_messages() {
    assert_eq!(
        WarningKind::UnneededEscape.message(),
        "You don't need to escape this value here"
    );
    assert_eq!(WarningKind::InvalidEscape.message(), "Not a valid escape character");
    assert_eq!(
        WarningKind::InvalidShellIntroducer.message(),
        "Inline shell variables cannot begin with this character"
    );
    assert_eq!(WarningKind::TrailingBackslash.message(), "Backslash was not escaped");
    assert_eq!(
        WarningKind::TrailingDollar.message(),
        "Unused final \"$\". Use \"\\$\" instead"
    );
    assert_eq!(
        FatalKind::BackslashInShellVariable.message(),
        "Fatal: Shell variables cannot contain backslashes"
    );
    assert_eq!(
        FatalKind::InvalidShellVariableChar.message(),
        "Fatal: Shell variables cannot contain this character"
    );
    assert_eq!(
        FatalKind::UnclosedShellStatement.message(),
        "Fatal: Unclosed shell statement!"
    );
}

const ANNOTATED_LINE: &str = "SOME STRING THAT PARSED INCORRECTLY HERE";

#[test]
fn test_annotation_message_left_of_carets() {
    // The line is 40 characters; the range 36..=39 leaves room on the left.
    let annotation = format_parse_error(ANNOTATED_LINE, 36, 39, "SOME MESSAGE");
    assert_eq!(
        annotation,
        format!("{}SOME MESSAGE ^^^^", " ".repeat(23)),
    );
}

#[test]
fn test_annotation_message_right_of_carets() {
    // The message is too long for the left of the carets at 5..=8, but fits
    // to their right.
    let annotation = format_parse_error(ANNOTATED_LINE, 5, 8, "SOME MESSAGE");
    assert_eq!(
        annotation,
        format!("{}^^^^ SOME MESSAGE", " ".repeat(5)),
    );
}

#[test]
fn test_annotation_message_below_at_start() {
    // A 26-character message fits below, aligned with the carets' start.
    let message = "MESSAGE OF TWENTY-SIX CHRS";
    assert_eq!(message.len(), 26);
    let annotation = format_parse_error(ANNOTATED_LINE, 13, 16, message);
    assert_eq!(
        annotation,
        format!("{pad}^^^^\n{pad}{message}", pad = " ".repeat(13), message = message),
    );
}

#[test]
fn test_annotation_message_below_past_end() {
    // A 30-character message no longer fits beside or under the start, so it
    // ends where the carets end.
    let message = "A MESSAGE OF THIRTY CHARACTERS";
    assert_eq!(message.len(), 30);
    let annotation = format_parse_error(ANNOTATED_LINE, 13, 16, message);
    assert_eq!(
        annotation,
        format!("{}^^^^\n{}", " ".repeat(13), message),
    );
}
