//! The segment lexer: classifies a raw configuration value into typed parts.
//!
//! A raw value mixes literal text with shell constructs. The lexer walks the
//! value one character at a time, driven by a small state machine, and
//! produces an ordered sequence of [`ValuePart`]s. Recoverable malformations
//! are reported as warnings and the offending characters are kept literally;
//! where no segment boundary can be recovered the lexer stops with a fatal
//! [`ParseError`] that the surrounding driver turns into a process exit.
//!
//! The behaviour of the lexer is stated by the spec-level machine
//! ([`spec_lex_char`], [`spec_lex_upto`], [`spec_lex_finish`], [`spec_parse`])
//! and [`parse_value`] is proved to return exactly what that machine says.

use vstd::prelude::*;

verus! {

// ---------------------------------------------------------------------------
// Character classification
// ---------------------------------------------------------------------------

/// What `char::is_alphanumeric` returns for a character. The Unicode tables
/// behind the classification are not restated here; the result is a function
/// of the character alone.
pub uninterp spec fn char_is_alphanumeric(c: char) -> bool;

/// Relies on std's `char::is_alphanumeric`: a pure classification of one
/// character by the Unicode alphanumeric categories.
pub assume_specification[ char::is_alphanumeric ](c: char) -> (r: bool)
    ensures
        r == char_is_alphanumeric(c),
;

/// Relies on std's `String::push`: appends one character to the string.
pub assume_specification[ std::string::String::push ](s: &mut std::string::String, c: char)
    ensures
        final(s)@ == old(s)@.push(c),
;

/// The characters that may continue a bare shell variable name or a tilde
/// username: alphanumerics and the underscore.
pub open spec fn spec_is_valid_shell_variable(c: char) -> bool {
    char_is_alphanumeric(c) || c == '_'
}

/// A character is allowed inside a shell variable name if it is alphanumeric
/// or an underscore.
pub fn is_valid_shell_variable(c: char) -> (r: bool)
    ensures
        r == spec_is_valid_shell_variable(c),
{
    c.is_alphanumeric() || c == '_'
}

// ---------------------------------------------------------------------------
// Parts
// ---------------------------------------------------------------------------

/// The function of one part of a configuration value.
#[derive(Clone, Copy, Debug, PartialEq, Eq, Structural)]
pub enum ValuePartKind {
    /// Literal text.
    Literal,
    /// A shell variable reference, written `$name` or `${name}`.
    ShellVariable,
    /// A shell command substitution, written `$(command)`.
    ShellCommand,
    /// A home directory expansion, written `~` or `~name`.
    Home,
}

/// A part of an environment variable value with a specific function,
/// as determined by its kind.
#[derive(Clone, Debug, PartialEq, Eq)]
pub struct ValuePart {
    /// The function of this specific part.
    pub kind: ValuePartKind,
    /// The contents of the part.
    pub value: String,
}

/// The mathematical content of a [`ValuePart`].
pub ghost struct ValuePartView {
    pub kind: ValuePartKind,
    pub value: Seq<char>,
}

impl View for ValuePart {
    type V = ValuePartView;

    open spec fn view(&self) -> ValuePartView {
        ValuePartView { kind: self.kind, value: self.value@ }
    }
}

/// The views of a sequence of parts.
pub open spec fn spec_parts_view(parts: Seq<ValuePart>) -> Seq<ValuePartView> {
    parts.map_values(|p: ValuePart| p@)
}

// ---------------------------------------------------------------------------
// Diagnostics
// ---------------------------------------------------------------------------

/// The recoverable malformations: the lexer reports one and keeps the
/// offending characters literally.
#[derive(Clone, Copy, Debug, PartialEq, Eq, Structural)]
pub enum WarningKind {
    /// A `$`, `(` or `)` was escaped in a place where no escape is needed.
    UnneededEscape,
    /// A backslash escaped a character that has no escape meaning here.
    InvalidEscape,
    /// The character after a `$` can begin neither a variable nor a command.
    InvalidShellIntroducer,
    /// The raw value ended with an unescaped backslash.
    TrailingBackslash,
    /// The raw value ended with an unused `$`.
    TrailingDollar,
}

/// A recoverable diagnostic: what was wrong, and the inclusive character
/// range of the offending text within the raw value.
#[derive(Clone, Copy, Debug, PartialEq, Eq, Structural)]
pub struct ParseWarning {
    pub kind: WarningKind,
    pub start: usize,
    pub end: usize,
}

/// The mathematical content of a [`ParseWarning`].
pub ghost struct WarningView {
    pub kind: WarningKind,
    pub start: int,
    pub end: int,
}

impl View for ParseWarning {
    type V = WarningView;

    open spec fn view(&self) -> WarningView {
        WarningView { kind: self.kind, start: self.start as int, end: self.end as int }
    }
}

/// The views of a sequence of warnings.
pub open spec fn spec_warnings_view(warnings: Seq<ParseWarning>) -> Seq<WarningView> {
    warnings.map_values(|w: ParseWarning| w@)
}

/// The fatal malformations: no segment boundary can be recovered, so the
/// lexer stops. The driver is expected to report the error and abort with a
/// data-format exit status.
#[derive(Clone, Copy, Debug, PartialEq, Eq, Structural)]
pub enum FatalKind {
    /// A backslash escape inside an in-progress shell variable reference.
    BackslashInShellVariable,
    /// A character that cannot occur in a name, inside a `${…}` reference.
    InvalidShellVariableChar,
    /// The raw value ended inside `$(…)` or `${…}`.
    UnclosedShellStatement,
}

/// A fatal diagnostic: what was wrong, and the inclusive character range of
/// the offending text within the raw value.
#[derive(Clone, Copy, Debug, PartialEq, Eq, Structural)]
pub struct ParseError {
    pub kind: FatalKind,
    pub start: usize,
    pub end: usize,
}

/// The mathematical content of a [`ParseError`].
pub ghost struct FatalView {
    pub kind: FatalKind,
    pub start: int,
    pub end: int,
}

impl View for ParseError {
    type V = FatalView;

    open spec fn view(&self) -> FatalView {
        FatalView { kind: self.kind, start: self.start as int, end: self.end as int }
    }
}

impl WarningKind {
    /// The message text reported for this warning.
    pub open spec fn spec_message(self) -> Seq<char> {
        match self {
            WarningKind::UnneededEscape => "You don't need to escape this value here"@,
            WarningKind::InvalidEscape => "Not a valid escape character"@,
            WarningKind::InvalidShellIntroducer => "Inline shell variables cannot begin with this character"@,
            WarningKind::TrailingBackslash => "Backslash was not escaped"@,
            WarningKind::TrailingDollar => "Unused final \"$\". Use \"\\$\" instead"@,
        }
    }

    /// The message text reported for this warning.
    pub fn message(&self) -> (r: &'static str)
        ensures
            r@ == self.spec_message(),
    {
        match self {
            WarningKind::UnneededEscape => "You don't need to escape this value here",
            WarningKind::InvalidEscape => "Not a valid escape character",
            WarningKind::InvalidShellIntroducer => "Inline shell variables cannot begin with this character",
            WarningKind::TrailingBackslash => "Backslash was not escaped",
            WarningKind::TrailingDollar => "Unused final \"$\". Use \"\\$\" instead",
        }
    }
}

impl FatalKind {
    /// The message text reported for this fatal error.
    pub open spec fn spec_message(self) -> Seq<char> {
        match self {
            FatalKind::BackslashInShellVariable => "Fatal: Shell variables cannot contain backslashes"@,
            FatalKind::InvalidShellVariableChar => "Fatal: Shell variables cannot contain this character"@,
            FatalKind::UnclosedShellStatement => "Fatal: Unclosed shell statement!"@,
        }
    }

    /// The message text reported for this fatal error.
    pub fn message(&self) -> (r: &'static str)
        ensures
            r@ == self.spec_message(),
    {
        match self {
            FatalKind::BackslashInShellVariable => "Fatal: Shell variables cannot contain backslashes",
            FatalKind::InvalidShellVariableChar => "Fatal: Shell variables cannot contain this character",
            FatalKind::UnclosedShellStatement => "Fatal: Unclosed shell statement!",
        }
    }
}

// ---------------------------------------------------------------------------
// The spec-level lexer machine
// ---------------------------------------------------------------------------

/// The per-character mode of the lexer.
#[derive(Clone, Copy, Debug, PartialEq, Eq, Structural)]
pub enum ValueParsingState {
    /// Behave normally.
    Normal,
    /// The previous character was an unescaped backslash.
    Backslash,
    /// The previous character was an unescaped dollar sign.
    BeginShellStatement,
}

/// The whole state of the lexer between two characters.
pub ghost struct LexState {
    pub mode: ValueParsingState,
    /// Whether the current part has no closing delimiter and ends by itself
    /// at the first character that is not valid in a bare variable name.
    pub run_until_separator: bool,
    pub current_kind: ValuePartKind,
    pub current_value: Seq<char>,
    pub parts: Seq<ValuePartView>,
    /// Where the open `$` statement started; only read by diagnostics.
    pub statement_start: int,
    pub warnings: Seq<WarningView>,
}

/// The state the lexer starts a raw value in.
pub open spec fn initial_lex_state() -> LexState {
    LexState {
        mode: ValueParsingState::Normal,
        run_until_separator: false,
        current_kind: ValuePartKind::Literal,
        current_value: Seq::empty(),
        parts: Seq::empty(),
        statement_start: 0,
        warnings: Seq::empty(),
    }
}

/// A finished part joins the output only if it has content; a `Home` part
/// may legitimately be empty (a bare `~`).
pub open spec fn spec_push_part(
    parts: Seq<ValuePartView>,
    kind: ValuePartKind,
    value: Seq<char>,
) -> Seq<ValuePartView> {
    if value.len() > 0 || kind == ValuePartKind::Home {
        parts.push(ValuePartView { kind, value })
    } else {
        parts
    }
}

/// If the current part runs until a separator and `c` cannot continue it,
/// the part is finished before `c` itself is matched, so that `c` can still
/// begin a fresh part of any kind.
pub open spec fn spec_close_if_separator(st: LexState, c: char) -> LexState {
    if st.run_until_separator && !spec_is_valid_shell_variable(c) {
        LexState {
            run_until_separator: false,
            current_kind: ValuePartKind::Literal,
            current_value: Seq::empty(),
            parts: spec_push_part(st.parts, st.current_kind, st.current_value),
            ..st
        }
    } else {
        st
    }
}

/// One step of the lexer: the character `c` at position `i` is applied to the
/// state `st0`.
pub open spec fn spec_lex_char(st0: LexState, c: char, i: int) -> Result<LexState, FatalView> {
    let st = spec_close_if_separator(st0, c);
    match st.mode {
        ValueParsingState::Normal => {
            if c == '\\' {
                if st.current_kind == ValuePartKind::ShellVariable {
                    // Backslash escapes are not allowed inside shell variables.
                    Err(FatalView { kind: FatalKind::BackslashInShellVariable, start: i, end: i })
                } else {
                    Ok(LexState { mode: ValueParsingState::Backslash, ..st })
                }
            } else if c == '$' && st.current_kind == ValuePartKind::Literal {
                Ok(LexState { mode: ValueParsingState::BeginShellStatement, statement_start: i, ..st })
            } else if c == '~' && st.current_kind == ValuePartKind::Literal && st.parts.len() == 0
                && st.current_value.len() == 0 {
                // A tilde that begins the whole input begins a home part.
                Ok(LexState { current_kind: ValuePartKind::Home, run_until_separator: true, ..st })
            } else if ((c == ')' && st.current_kind == ValuePartKind::ShellCommand) || (c == '}'
                && st.current_kind == ValuePartKind::ShellVariable)) && !st.run_until_separator {
                // The matching closing delimiter finishes the part.
                Ok(LexState {
                    current_kind: ValuePartKind::Literal,
                    current_value: Seq::empty(),
                    parts: spec_push_part(st.parts, st.current_kind, st.current_value),
                    ..st
                })
            } else if st.current_kind == ValuePartKind::ShellVariable
                && !spec_is_valid_shell_variable(c) {
                // Only name characters may stand inside `${…}`.
                Err(FatalView { kind: FatalKind::InvalidShellVariableChar, start: i, end: i })
            } else {
                Ok(LexState { current_value: st.current_value.push(c), ..st })
            }
        },
        ValueParsingState::Backslash => {
            let valid_escape = c == '\\' || (st.current_kind == ValuePartKind::Literal && c == '$')
                || (st.current_kind == ValuePartKind::ShellCommand && (c == '(' || c == ')'));
            if valid_escape {
                Ok(LexState {
                    mode: ValueParsingState::Normal,
                    current_value: st.current_value.push(c),
                    ..st
                })
            } else {
                // The escape has no meaning here: keep both characters and warn.
                let kind = if c == '$' || c == '(' || c == ')' {
                    WarningKind::UnneededEscape
                } else {
                    WarningKind::InvalidEscape
                };
                Ok(LexState {
                    mode: ValueParsingState::Normal,
                    current_value: st.current_value.push('\\').push(c),
                    warnings: st.warnings.push(WarningView { kind, start: i - 1, end: i }),
                    ..st
                })
            }
        },
        ValueParsingState::BeginShellStatement => {
            if c == '(' {
                Ok(LexState {
                    mode: ValueParsingState::Normal,
                    current_kind: ValuePartKind::ShellCommand,
                    current_value: Seq::empty(),
                    parts: spec_push_part(st.parts, st.current_kind, st.current_value),
                    ..st
                })
            } else if c == '{' {
                Ok(LexState {
                    mode: ValueParsingState::Normal,
                    current_kind: ValuePartKind::ShellVariable,
                    current_value: Seq::empty(),
                    parts: spec_push_part(st.parts, st.current_kind, st.current_value),
                    ..st
                })
            } else if spec_is_valid_shell_variable(c) {
                // A bare variable reference: it ends at the first character
                // that is not valid in a name.
                Ok(LexState {
                    mode: ValueParsingState::Normal,
                    run_until_separator: true,
                    current_kind: ValuePartKind::ShellVariable,
                    current_value: Seq::empty().push(c),
                    parts: spec_push_part(st.parts, st.current_kind, st.current_value),
                    ..st
                })
            } else {
                // The `$` introduces nothing: keep both characters and warn.
                Ok(LexState {
                    mode: ValueParsingState::Normal,
                    current_value: st.current_value.push('$').push(c),
                    warnings: st.warnings.push(
                        WarningView { kind: WarningKind::InvalidShellIntroducer, start: i - 1, end: i },
                    ),
                    ..st
                })
            }
        },
    }
}

/// The lexer state after the first `n` characters of `input`, or the first
/// fatal error among them.
pub open spec fn spec_lex_upto(input: Seq<char>, n: int) -> Result<LexState, FatalView>
    decreases n,
{
    if n <= 0 {
        Ok(initial_lex_state())
    } else {
        match spec_lex_upto(input, n - 1) {
            Ok(st) => spec_lex_char(st, input[n - 1], n - 1),
            Err(e) => Err(e),
        }
    }
}

/// The end-of-input cleanup: a trailing backslash or `$` is kept literally
/// with a warning, an unterminated delimited construct is fatal, and the
/// terminal in-progress part is appended.
pub open spec fn spec_lex_finish(st: LexState, len: int) -> Result<
    (Seq<ValuePartView>, Seq<WarningView>),
    FatalView,
> {
    let st1 = match st.mode {
        ValueParsingState::Backslash => LexState {
            current_value: st.current_value.push('\\'),
            warnings: st.warnings.push(
                WarningView { kind: WarningKind::TrailingBackslash, start: len - 1, end: len - 1 },
            ),
            ..st
        },
        ValueParsingState::BeginShellStatement => LexState {
            current_value: st.current_value.push('$'),
            warnings: st.warnings.push(
                WarningView { kind: WarningKind::TrailingDollar, start: len - 1, end: len - 1 },
            ),
            ..st
        },
        ValueParsingState::Normal => st,
    };
    if st1.current_kind != ValuePartKind::Literal && !st1.run_until_separator {
        Err(FatalView {
            kind: FatalKind::UnclosedShellStatement,
            start: st1.statement_start,
            end: len - 1,
        })
    } else {
        Ok((spec_push_part(st1.parts, st1.current_kind, st1.current_value), st1.warnings))
    }
}

/// What parsing a whole raw value yields: its parts and its warnings, or its
/// first fatal error. The empty value yields one empty literal part, because
/// every consumer expects at least one part to serialize.
pub open spec fn spec_parse(input: Seq<char>) -> Result<
    (Seq<ValuePartView>, Seq<WarningView>),
    FatalView,
> {
    if input.len() == 0 {
        Ok(
            (
                seq![ValuePartView { kind: ValuePartKind::Literal, value: Seq::empty() }],
                Seq::<WarningView>::empty(),
            ),
        )
    } else {
        match spec_lex_upto(input, input.len() as int) {
            Ok(st) => spec_lex_finish(st, input.len() as int),
            Err(e) => Err(e),
        }
    }
}

/// The parts of a successfully parsed raw value.
pub open spec fn spec_parse_parts(input: Seq<char>) -> Seq<ValuePartView> {
    match spec_parse(input) {
        Ok(pw) => pw.0,
        Err(_) => Seq::empty(),
    }
}

/// The warnings of a successfully parsed raw value.
pub open spec fn spec_parse_warnings(input: Seq<char>) -> Seq<WarningView> {
    match spec_parse(input) {
        Ok(pw) => pw.1,
        Err(_) => Seq::empty(),
    }
}

// ---------------------------------------------------------------------------
// Laws of the lexer
// ---------------------------------------------------------------------------

/// Every part of the sequence has content unless it is a `Home` part.
pub open spec fn spec_parts_wellformed(parts: Seq<ValuePartView>) -> bool {
    forall|k: int|
        0 <= k < parts.len() ==> (#[trigger] parts[k].kind != ValuePartKind::Home ==> parts[
            k
        ].value.len() > 0)
}

proof fn lemma_lex_upto_wellformed(input: Seq<char>, n: int)
    requires
        0 <= n <= input.len(),
    ensures
        spec_lex_upto(input, n) matches Ok(st) ==> spec_parts_wellformed(st.parts),
    decreases n,
{
    if n > 0 {
        lemma_lex_upto_wellformed(input, n - 1);
    }
}

/// Law: a part that is not a home expansion is never emitted with empty
/// text; only a `Home` part (a bare `~`) may be empty. The one exception is
/// the empty raw value, whose single empty literal part stands in for a
/// value that has to exist.
pub proof fn lemma_parse_parts_wellformed(input: Seq<char>)
    ensures
        input.len() > 0 ==> spec_parts_wellformed(spec_parse_parts(input)),
{
    if input.len() > 0 {
        lemma_lex_upto_wellformed(input, input.len() as int);
    }
}

proof fn lemma_lex_upto_without_dollar(input: Seq<char>, n: int)
    requires
        0 <= n <= input.len(),
        forall|k: int| 0 <= k < input.len() ==> input[k] != '$',
    ensures
        spec_lex_upto(input, n) matches Ok(st) && st.mode != ValueParsingState::BeginShellStatement
            && (st.current_kind == ValuePartKind::Literal || st.current_kind
            == ValuePartKind::Home) && (st.current_kind == ValuePartKind::Home
            <==> st.run_until_separator) && (n > 0 ==> st.parts.len() > 0
            || st.current_value.len() > 0 || st.current_kind == ValuePartKind::Home || st.mode
            == ValueParsingState::Backslash),
    decreases n,
{
    if n > 0 {
        lemma_lex_upto_without_dollar(input, n - 1);
    }
}

/// A raw value that is nothing but empty delimited references: a
/// concatenation of `${}` and `$()` groups.
pub open spec fn spec_only_empty_references(input: Seq<char>) -> bool
    decreases input.len(),
{
    if input.len() == 0 {
        true
    } else {
        input.len() >= 3 && input[0] == '$' && ((input[1] == '{' && input[2] == '}') || (input[1]
            == '(' && input[2] == ')')) && spec_only_empty_references(input.skip(3))
    }
}

/// Appending one empty reference keeps a value made of empty references.
proof fn lemma_empty_references_append(a: Seq<char>, g: Seq<char>)
    requires
        spec_only_empty_references(a),
        g.len() == 3,
        g[0] == '$',
        (g[1] == '{' && g[2] == '}') || (g[1] == '(' && g[2] == ')'),
    ensures
        spec_only_empty_references(a + g),
    decreases a.len(),
{
    if a.len() == 0 {
        assert(spec_only_empty_references(Seq::<char>::empty()));
        assert(g.skip(3) =~= Seq::<char>::empty());
        assert(spec_only_empty_references(g));
        assert(a + g =~= g);
    } else {
        lemma_empty_references_append(a.skip(3), g);
        assert((a + g).skip(3) =~= a.skip(3) + g);
        assert((a + g)[0] == a[0]);
        assert((a + g)[1] == a[1]);
        assert((a + g)[2] == a[2]);
    }
}

/// The lexer states reachable on a prefix with no output yet: either some
/// content is already in hand, or the prefix consumed so far is nothing but
/// empty references, possibly followed by the opening characters of one
/// more.
spec fn spec_pending_state(input: Seq<char>, n: int, st: LexState) -> bool {
    ||| st.parts.len() > 0
    ||| st.current_value.len() > 0
    ||| st.current_kind == ValuePartKind::Home
    ||| st.mode == ValueParsingState::Backslash
    ||| (st.mode == ValueParsingState::Normal && st.current_kind == ValuePartKind::Literal
        && !st.run_until_separator && spec_only_empty_references(input.take(n)))
    ||| (st.mode == ValueParsingState::BeginShellStatement && st.current_kind
        == ValuePartKind::Literal && !st.run_until_separator && n >= 1 && input[n - 1] == '$'
        && spec_only_empty_references(input.take(n - 1)))
    ||| (st.mode == ValueParsingState::Normal && (st.current_kind == ValuePartKind::ShellVariable
        || st.current_kind == ValuePartKind::ShellCommand) && !st.run_until_separator && n >= 2
        && input[n - 2] == '$' && ((st.current_kind == ValuePartKind::ShellVariable && input[n - 1]
        == '{') || (st.current_kind == ValuePartKind::ShellCommand && input[n - 1] == '('))
        && spec_only_empty_references(input.take(n - 2)))
}

proof fn lemma_lex_upto_pending(input: Seq<char>, n: int)
    requires
        0 <= n <= input.len(),
    ensures
        spec_lex_upto(input, n) matches Ok(st) ==> spec_pending_state(input, n, st),
    decreases n,
{
    if n == 0 {
        assert(input.take(0) =~= Seq::<char>::empty());
    } else {
        lemma_lex_upto_pending(input, n - 1);
        if spec_lex_upto(input, n) is Ok {
            let st0 = spec_lex_state_of(spec_lex_upto(input, n - 1));
            let c = input[n - 1];
            // Closing an empty delimited reference extends the prefix of
            // empty references by one group.
            if st0.mode == ValueParsingState::Normal && st0.current_value.len() == 0
                && !st0.run_until_separator && st0.parts.len() == 0 && ((st0.current_kind
                == ValuePartKind::ShellVariable && c == '}') || (st0.current_kind
                == ValuePartKind::ShellCommand && c == ')')) && n >= 3 && input[n - 3] == '$'
                && spec_only_empty_references(input.take(n - 3)) {
                let g = seq![input[n - 3], input[n - 2], input[n - 1]];
                lemma_empty_references_append(input.take(n - 3), g);
                assert(input.take(n) =~= input.take(n - 3) + g);
            }
        }
    }
}

/// Law: parsing yields at least one part for every raw value except those
/// made of nothing but empty references (`${}`, `$()`), which contribute no
/// part at all; the empty value parses to exactly one empty literal part.
/// A raw value whose parse ends in a fatal error yields no sequence, so it
/// is not constrained here.
pub proof fn lemma_parse_nonempty(input: Seq<char>)
    requires
        input.len() > 0 ==> !spec_only_empty_references(input),
    ensures
        spec_parse(input) is Ok ==> spec_parse_parts(input).len() >= 1,
        input.len() == 0 ==> spec_parse_parts(input) =~= seq![
            ValuePartView { kind: ValuePartKind::Literal, value: Seq::empty() },
        ],
{
    if input.len() > 0 && spec_lex_upto(input, input.len() as int) is Ok {
        lemma_lex_upto_pending(input, input.len() as int);
        assert(input.take(input.len() as int) =~= input);
    }
}

/// A value of empty references has a length that is a multiple of three.
proof fn lemma_empty_references_len(input: Seq<char>)
    requires
        spec_only_empty_references(input),
    ensures
        input.len() % 3 == 0,
    decreases input.len(),
{
    if input.len() > 0 {
        lemma_empty_references_len(input.skip(3));
    }
}

/// The three characters of the empty reference that starts at position `p`.
proof fn lemma_empty_reference_group_at(input: Seq<char>, p: int)
    requires
        spec_only_empty_references(input),
        0 <= p,
        p % 3 == 0,
        p < input.len(),
    ensures
        p + 3 <= input.len(),
        input[p] == '$',
        (input[p + 1] == '{' && input[p + 2] == '}') || (input[p + 1] == '(' && input[p + 2]
            == ')'),
    decreases p,
{
    if p > 0 {
        lemma_empty_reference_group_at(input.skip(3), p - 3);
        assert(input.skip(3)[p - 3] == input[p]);
        assert(input.skip(3)[p - 2] == input[p + 1]);
        assert(input.skip(3)[p - 1] == input[p + 2]);
    }
}

proof fn lemma_empty_references_machine(input: Seq<char>, n: int)
    requires
        spec_only_empty_references(input),
        0 <= n <= input.len(),
        n % 3 == 0,
    ensures
        spec_lex_upto(input, n) matches Ok(st) && st.mode == ValueParsingState::Normal
            && st.current_kind == ValuePartKind::Literal && st.current_value.len() == 0
            && st.parts.len() == 0 && !st.run_until_separator && st.warnings.len() == 0,
    decreases n,
{
    if n > 0 {
        lemma_empty_references_machine(input, n - 3);
        lemma_empty_reference_group_at(input, n - 3);
        let st0 = spec_lex_state_of(spec_lex_upto(input, n - 3));
        assert(spec_lex_upto(input, n - 2) == spec_lex_char(st0, input[n - 3], n - 3));
        let st1 = spec_lex_state_of(spec_lex_upto(input, n - 2));
        assert(spec_lex_upto(input, n - 1) == spec_lex_char(st1, input[n - 2], n - 2));
        let st2 = spec_lex_state_of(spec_lex_upto(input, n - 1));
        assert(spec_lex_upto(input, n) == spec_lex_char(st2, input[n - 1], n - 1));
    }
}

/// Law (the converse boundary): a nonempty raw value of nothing but empty
/// references parses successfully to no parts and no warnings.
pub proof fn lemma_empty_references_parse_empty(input: Seq<char>)
    requires
        spec_only_empty_references(input),
        input.len() > 0,
    ensures
        spec_parse(input) == Ok::<(Seq<ValuePartView>, Seq<WarningView>), FatalView>(
            (Seq::empty(), Seq::empty()),
        ),
{
    lemma_empty_references_len(input);
    lemma_empty_references_machine(input, input.len() as int);
    let st = spec_lex_state_of(spec_lex_upto(input, input.len() as int));
    assert(st.parts =~= Seq::<ValuePartView>::empty());
    assert(st.warnings =~= Seq::<WarningView>::empty());
}

/// Law: a raw value without a dollar sign always parses, and parses to at
/// least one part; the empty value parses to exactly one empty literal part.
pub proof fn lemma_parse_without_dollar_nonempty(input: Seq<char>)
    requires
        forall|k: int| 0 <= k < input.len() ==> input[k] != '$',
    ensures
        spec_parse(input) is Ok,
        spec_parse_parts(input).len() >= 1,
        input.len() == 0 ==> spec_parse_parts(input) =~= seq![
            ValuePartView { kind: ValuePartKind::Literal, value: Seq::empty() },
        ],
{
    if input.len() > 0 {
        lemma_lex_upto_without_dollar(input, input.len() as int);
    }
}

// ---------------------------------------------------------------------------
// Rendering of pointer-annotated diagnostics
// ---------------------------------------------------------------------------

/// The character `c`, `n` times.
pub open spec fn spec_repeat_char(c: char, n: int) -> Seq<char>
    decreases n,
{
    if n <= 0 {
        Seq::empty()
    } else {
        spec_repeat_char(c, n - 1).push(c)
    }
}

/// The annotation printed under a malformed line: carets aligned under the
/// inclusive character range `start..=end`, with the message placed to the
/// left of the carets, to their right, or on a line of its own, whichever
/// keeps it clear of the annotated text.
pub open spec fn spec_error_annotation(
    line: Seq<char>,
    start: int,
    end: int,
    msg: Seq<char>,
) -> Seq<char> {
    let arrows = spec_repeat_char('^', end - start + 1);
    let pad_len = start;
    let error_len = end - start + 1;
    let msg_len = msg.len() as int;
    let line_len = line.len() as int;
    if pad_len > msg_len {
        // The message fits to the left of the carets.
        spec_repeat_char(' ', pad_len - 1 - msg_len) + msg + " "@ + arrows
    } else if pad_len + error_len + msg_len < line_len {
        // The message fits to the right of the carets.
        spec_repeat_char(' ', pad_len) + arrows + " "@ + msg
    } else if pad_len + msg_len <= line_len {
        // The message goes below, aligned with the carets' start.
        spec_repeat_char(' ', pad_len) + arrows + "\n"@ + spec_repeat_char(' ', pad_len) + msg
    } else {
        // The message goes below, ending where the carets end.
        spec_repeat_char(' ', pad_len) + arrows + "\n"@ + spec_repeat_char(
            ' ',
            pad_len + error_len - msg_len,
        ) + msg
    }
}

/// The character `c`, `n` times.
fn repeat_char(c: char, n: usize) -> (r: String)
    ensures
        r@ == spec_repeat_char(c, n as int),
{
    let mut out = String::new();
    let mut i: usize = 0;
    while i < n
        invariant
            i <= n,
            out@ == spec_repeat_char(c, i as int),
        decreases n - i,
    {
        out.push(c);
        i = i + 1;
    }
    out
}

/// Renders the pointer annotation for a diagnostic: a line of carets under
/// the inclusive character range `start..=end` of `line`, with the message
/// laid out so that it never overlaps the annotated text. The caller prints
/// `line` itself above this annotation.
pub fn format_parse_error(line: &str, start: usize, end: usize, description: &str) -> (r: String)
    requires
        start <= end,
        end < line@.len(),
        line@.len() < 0x1000_0000,
        description@.len() < 0x1000_0000,
    ensures
        r@ == spec_error_annotation(line@, start as int, end as int, description@),
{
    let arrows = repeat_char('^', end - start + 1);
    let msg_len = description.unicode_len();
    let line_len = line.unicode_len();
    let pad_len = start;
    let error_len = end - start + 1;
    if pad_len > msg_len {
        let mut out = repeat_char(' ', pad_len - 1 - msg_len);
        out.append(description);
        out.append(" ");
        out.append(arrows.as_str());
        out
    } else if pad_len + error_len + msg_len < line_len {
        let mut out = repeat_char(' ', pad_len);
        out.append(arrows.as_str());
        out.append(" ");
        out.append(description);
        out
    } else if pad_len + msg_len <= line_len {
        let mut out = repeat_char(' ', pad_len);
        out.append(arrows.as_str());
        out.append("\n");
        let pad = repeat_char(' ', pad_len);
        out.append(pad.as_str());
        out.append(description);
        out
    } else {
        let mut out = repeat_char(' ', pad_len);
        out.append(arrows.as_str());
        out.append("\n");
        let msg_pad = if pad_len + error_len > msg_len {
            repeat_char(' ', pad_len + error_len - msg_len)
        } else {
            String::new()
        };
        out.append(msg_pad.as_str());
        out.append(description);
        out
    }
}

// ---------------------------------------------------------------------------
// Helper lemmas
// ---------------------------------------------------------------------------

/// Mapping the view over a pushed sequence pushes the view.
proof fn lemma_warnings_view_push(warnings: Seq<ParseWarning>, w: ParseWarning)
    ensures
        spec_warnings_view(warnings.push(w)) == spec_warnings_view(warnings).push(w@),
{
    assert(spec_warnings_view(warnings.push(w)) =~= spec_warnings_view(warnings).push(w@));
}

/// Once the machine has failed, every longer prefix fails the same way.
proof fn lemma_lex_upto_error_persists(input: Seq<char>, i: int, j: int)
    requires
        0 <= i <= j,
        spec_lex_upto(input, i) is Err,
    ensures
        spec_lex_upto(input, j) == spec_lex_upto(input, i),
    decreases j - i,
{
    if j > i {
        lemma_lex_upto_error_persists(input, i, j - 1);
    }
}

// ---------------------------------------------------------------------------
// The executable lexer
// ---------------------------------------------------------------------------

impl ValuePart {
    /// A fresh, empty part of the given kind.
    pub fn new(kind: ValuePartKind) -> (r: Self)
        ensures
            r@.kind == kind,
            r@.value == Seq::<char>::empty(),
    {
        ValuePart { kind, value: String::new() }
    }

    /// Add a character to the value.
    pub fn push(&mut self, c: char)
        ensures
            final(self)@.kind == old(self)@.kind,
            final(self)@.value == old(self)@.value.push(c),
    {
        self.value.push(c);
    }

    /// Add this part to `res` if it has content; an empty `Home` part counts
    /// as content (a bare `~`).
    pub fn push_self_to(self, res: &mut Vec<Self>)
        ensures
            spec_parts_view(final(res)@) == spec_push_part(
                spec_parts_view(old(res)@),
                self@.kind,
                self@.value,
            ),
    {
        let ghost selfv = self@;
        let ghost old_res = res@;
        if !self.value.as_str().is_empty() || self.kind == ValuePartKind::Home {
            res.push(self);
            proof {
                assert(spec_parts_view(old_res.push(ValuePart { kind: selfv.kind, value: self.value }))
                    =~= spec_parts_view(old_res).push(selfv));
            }
        }
    }

    /// Add this part to `res` as `push_self_to` does, and hand back a fresh
    /// part of the given kind.
    pub fn push_self_and_new(self, res: &mut Vec<Self>, kind: ValuePartKind) -> (r: Self)
        ensures
            spec_parts_view(final(res)@) == spec_push_part(
                spec_parts_view(old(res)@),
                self@.kind,
                self@.value,
            ),
            r@.kind == kind,
            r@.value == Seq::<char>::empty(),
    {
        self.push_self_to(res);
        Self::new(kind)
    }
}

/// The parts and warnings of a successfully parsed raw value.
#[derive(Clone, Debug, PartialEq, Eq)]
pub struct ParseOutput {
    pub parts: Vec<ValuePart>,
    pub warnings: Vec<ParseWarning>,
}

/// The state that `spec_lex_upto` reached, where it reached one.
pub open spec fn spec_lex_state_of(r: Result<LexState, FatalView>) -> LexState {
    match r {
        Ok(st) => st,
        Err(_) => initial_lex_state(),
    }
}

/// Parses a raw configuration value into its ordered parts.
///
/// Recoverable malformations are returned as warnings beside the parts;
/// a malformation with no recoverable segment boundary is returned as the
/// fatal error that the driver is expected to abort on.
pub fn parse_value(raw_value: &str) -> (r: Result<ParseOutput, ParseError>)
    ensures
        (r matches Ok(out) ==> spec_parse(raw_value@) == Ok::<
            (Seq<ValuePartView>, Seq<WarningView>),
            FatalView,
        >((spec_parts_view(out.parts@), spec_warnings_view(out.warnings@)))),
        (r matches Err(e) ==> spec_parse(raw_value@) == Err::<
            (Seq<ValuePartView>, Seq<WarningView>),
            FatalView,
        >(e@)),
        raw_value@.len() == 0 ==> (r matches Ok(out) && out.parts@.len() == 1
            && out.parts@[0]@.kind == ValuePartKind::Literal && out.parts@[0]@.value.len() == 0
            && out.warnings@.len() == 0),
{
    let ghost input = raw_value@;
    let n = raw_value.unicode_len();

    // An empty raw value yields a single empty literal part, so that every
    // consumer has at least one part to serialize.
    if n == 0 {
        let mut parts: Vec<ValuePart> = Vec::new();
        parts.push(ValuePart::new(ValuePartKind::Literal));
        proof {
            assert(spec_parts_view(parts@) =~= seq![
                ValuePartView { kind: ValuePartKind::Literal, value: Seq::empty() },
            ]);
            assert(spec_warnings_view(Seq::<ParseWarning>::empty()) =~= Seq::<
                WarningView,
            >::empty());
        }
        return Ok(ParseOutput { parts, warnings: Vec::new() });
    }

    let mut res: Vec<ValuePart> = Vec::new();
    let mut warnings: Vec<ParseWarning> = Vec::new();
    let mut parsing_mode = ValueParsingState::Normal;
    let mut parse_until_shell_separator = false;
    let mut current_part = ValuePart::new(ValuePartKind::Literal);
    let mut shell_statement_starting_index: usize = 0;
    let mut index: usize = 0;

    while index < n
        invariant
            n as nat == input.len(),
            input == raw_value@,
            n >= 1,
            index <= n,
            spec_lex_upto(input, index as int) is Ok,
            ({
                let st = spec_lex_state_of(spec_lex_upto(input, index as int));
                &&& st.mode == parsing_mode
                &&& st.run_until_separator == parse_until_shell_separator
                &&& st.current_kind == current_part@.kind
                &&& st.current_value == current_part@.value
                &&& st.parts == spec_parts_view(res@)
                &&& st.statement_start == shell_statement_starting_index as int
                &&& st.warnings == spec_warnings_view(warnings@)
            }),
            (parsing_mode == ValueParsingState::Backslash || parsing_mode
                == ValueParsingState::BeginShellStatement) ==> index >= 1,
            shell_statement_starting_index < n,
        decreases n - index,
    {
        let ghost st0 = spec_lex_state_of(spec_lex_upto(input, index as int));
        let symbol = raw_value.get_char(index);
        let ghost stepped = spec_lex_char(st0, symbol, index as int);
        proof {
            assert(spec_lex_upto(input, index as int + 1) == stepped);
        }

        // A part that runs until a separator is finished before the
        // character that ends it is matched, so that this character can
        // still begin a fresh part.
        if parse_until_shell_separator && !is_valid_shell_variable(symbol) {
            current_part = current_part.push_self_and_new(&mut res, ValuePartKind::Literal);
            parse_until_shell_separator = false;
        }

        match parsing_mode {
            ValueParsingState::Normal => {
                if symbol == '\\' {
                    if current_part.kind == ValuePartKind::ShellVariable {
                        // Backslash escapes are not allowed inside shell variables.
                        let fatal = ParseError {
                            kind: FatalKind::BackslashInShellVariable,
                            start: index,
                            end: index,
                        };
                        proof {
                            lemma_lex_upto_error_persists(
                                input,
                                index as int + 1,
                                input.len() as int,
                            );
                        }
                        return Err(fatal);
                    }
                    parsing_mode = ValueParsingState::Backslash;
                } else if symbol == '$' && current_part.kind == ValuePartKind::Literal {
                    parsing_mode = ValueParsingState::BeginShellStatement;
                    shell_statement_starting_index = index;
                } else if symbol == '~' && current_part.kind == ValuePartKind::Literal
                    && res.len() == 0 && current_part.value.as_str().is_empty() {
                    // A tilde at the very start of the input begins a home part,
                    // which ends by itself at the first non-name character.
                    current_part = ValuePart::new(ValuePartKind::Home);
                    parse_until_shell_separator = true;
                } else if ((symbol == ')' && current_part.kind == ValuePartKind::ShellCommand) || (
                symbol == '}' && current_part.kind == ValuePartKind::ShellVariable))
                    && !parse_until_shell_separator {
                    // The matching closing delimiter finishes the part.
                    current_part = current_part.push_self_and_new(&mut res, ValuePartKind::Literal);
                } else if current_part.kind == ValuePartKind::ShellVariable
                    && !is_valid_shell_variable(symbol) {
                    // Only name characters may stand inside `${…}`.
                    let fatal = ParseError {
                        kind: FatalKind::InvalidShellVariableChar,
                        start: index,
                        end: index,
                    };
                    proof {
                        lemma_lex_upto_error_persists(input, index as int + 1, input.len() as int);
                    }
                    return Err(fatal);
                } else {
                    current_part.push(symbol);
                }
            },
            ValueParsingState::Backslash => {
                let valid_escape = symbol == '\\' || (current_part.kind == ValuePartKind::Literal
                    && symbol == '$') || (current_part.kind == ValuePartKind::ShellCommand && (
                symbol == '(' || symbol == ')'));
                if valid_escape {
                    current_part.push(symbol);
                } else {
                    // The escape has no meaning here: keep both characters and warn.
                    let kind = if symbol == '$' || symbol == '(' || symbol == ')' {
                        WarningKind::UnneededEscape
                    } else {
                        WarningKind::InvalidEscape
                    };
                    let ghost old_warnings = warnings@;
                    let w = ParseWarning { kind, start: index - 1, end: index };
                    warnings.push(w);
                    proof {
                        lemma_warnings_view_push(old_warnings, w);
                    }
                    current_part.push('\\');
                    current_part.push(symbol);
                }
                parsing_mode = ValueParsingState::Normal;
            },
            ValueParsingState::BeginShellStatement => {
                if symbol == '(' {
                    current_part = current_part.push_self_and_new(
                        &mut res,
                        ValuePartKind::ShellCommand,
                    );
                } else if symbol == '{' {
                    current_part = current_part.push_self_and_new(
                        &mut res,
                        ValuePartKind::ShellVariable,
                    );
                } else if is_valid_shell_variable(symbol) {
                    // A bare variable reference: it ends at the first
                    // character that is not valid in a name.
                    current_part = current_part.push_self_and_new(
                        &mut res,
                        ValuePartKind::ShellVariable,
                    );
                    current_part.push(symbol);
                    parse_until_shell_separator = true;
                } else {
                    // The `$` introduces nothing: keep both characters and warn.
                    let ghost old_warnings = warnings@;
                    let w = ParseWarning {
                        kind: WarningKind::InvalidShellIntroducer,
                        start: index - 1,
                        end: index,
                    };
                    warnings.push(w);
                    proof {
                        lemma_warnings_view_push(old_warnings, w);
                    }
                    current_part.push('$');
                    current_part.push(symbol);
                }
                parsing_mode = ValueParsingState::Normal;
            },
        }
        index = index + 1;
    }

    let ghost st_end = spec_lex_state_of(spec_lex_upto(input, n as int));

    // End-of-input cleanup: a trailing unescaped backslash or `$` is kept
    // literally, with a warning pointing at the final character.
    match parsing_mode {
        ValueParsingState::Backslash => {
            let ghost old_warnings = warnings@;
            let w = ParseWarning {
                kind: WarningKind::TrailingBackslash,
                start: n - 1,
                end: n - 1,
            };
            warnings.push(w);
            proof {
                lemma_warnings_view_push(old_warnings, w);
            }
            current_part.push('\\');
        },
        ValueParsingState::BeginShellStatement => {
            let ghost old_warnings = warnings@;
            let w = ParseWarning { kind: WarningKind::TrailingDollar, start: n - 1, end: n - 1 };
            warnings.push(w);
            proof {
                lemma_warnings_view_push(old_warnings, w);
            }
            current_part.push('$');
        },
        ValueParsingState::Normal => {},
    }

    // A delimited construct that is still open cannot be recovered.
    if current_part.kind != ValuePartKind::Literal && !parse_until_shell_separator {
        return Err(
            ParseError {
                kind: FatalKind::UnclosedShellStatement,
                start: shell_statement_starting_index,
                end: n - 1,
            },
        );
    }

    // Append the terminal in-progress part.
    current_part.push_self_to(&mut res);

    Ok(ParseOutput { parts: res, warnings })
}

} // verus!
