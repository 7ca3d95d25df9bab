//! The dialect serializer: renders classified configuration values and whole
//! variable bindings as correctly quoted script lines for a target shell.
//!
//! Each public function's result is pinned down by a spec function of the
//! same shape: [`spec_single_quote`] for the per-dialect quoting strategy,
//! [`spec_render_part`] for one classified part, [`spec_set_variable`] and
//! [`spec_unset_variable`] for the two statement forms, and
//! [`spec_to_shell_source`] for a whole ordered mapping of bindings.

pub mod parser;

use vstd::prelude::*;

use crate::cli::Shell;
use crate::convert::parser::{
    parse_value, spec_parse, spec_parse_warnings, spec_parts_view, spec_warnings_view, FatalKind,
    FatalView, ParseError, ValuePart, ValuePartKind, ValuePartView, WarningKind, WarningView,
};
use crate::structure::{EnvVariableOption, EnvVariableValue, EnvironmentVariables};

verus! {

// ---------------------------------------------------------------------------
// Quoting
// ---------------------------------------------------------------------------

/// A non-empty fragment between single quotes is wrapped in single quotes;
/// an empty fragment contributes nothing, so that no degenerate `''` pair is
/// emitted.
pub open spec fn spec_quote_fragment(fragment: Seq<char>) -> Seq<char> {
    if fragment.len() == 0 {
        Seq::empty()
    } else {
        "'"@ + fragment + "'"@
    }
}

/// The POSIX-like quoting pass over the first `n` characters: the finished
/// output so far and the fragment still being collected. Each single quote
/// in the text flushes the current fragment and joins with `"'"`, which
/// closes the quoted section, emits one literal quote inside double quotes,
/// and reopens a quoted section.
pub open spec fn spec_posix_quote_state(s: Seq<char>, n: int) -> (Seq<char>, Seq<char>)
    decreases n,
{
    if n <= 0 {
        (Seq::empty(), Seq::empty())
    } else {
        let prev = spec_posix_quote_state(s, n - 1);
        if s[n - 1] == '\'' {
            (prev.0 + spec_quote_fragment(prev.1) + "\"'\""@, Seq::empty())
        } else {
            (prev.0, prev.1.push(s[n - 1]))
        }
    }
}

/// Single-quoting for the POSIX-like family, which has no in-quote escape
/// for a single quote.
pub open spec fn spec_posix_quote(s: Seq<char>) -> Seq<char> {
    let st = spec_posix_quote_state(s, s.len() as int);
    st.0 + spec_quote_fragment(st.1)
}

/// One character under the structured family's quoting: backslashes and
/// single quotes get a leading backslash.
pub open spec fn spec_fish_escape_char(c: char) -> Seq<char> {
    if c == '\\' || c == '\'' {
        seq!['\\', c]
    } else {
        seq![c]
    }
}

/// The structured family's escaping pass over the first `n` characters.
pub open spec fn spec_fish_escaped(s: Seq<char>, n: int) -> Seq<char>
    decreases n,
{
    if n <= 0 {
        Seq::empty()
    } else {
        spec_fish_escaped(s, n - 1) + spec_fish_escape_char(s[n - 1])
    }
}

/// Single-quoting for the structured family, which supports in-quote
/// backslash escapes.
pub open spec fn spec_fish_quote(s: Seq<char>) -> Seq<char> {
    seq!['\''] + spec_fish_escaped(s, s.len() as int) + seq!['\'']
}

/// The quoting strategy of the shell's family.
pub open spec fn spec_single_quote(s: Seq<char>, shell: Shell) -> Seq<char> {
    if shell.spec_is_posix_family() {
        spec_posix_quote(s)
    } else {
        spec_fish_quote(s)
    }
}

/// Surrounds a string in single quotes in the way that is safe for the given
/// shell's family.
pub fn single_quote(string: &str, shell: &Shell) -> (r: String)
    ensures
        r@ == spec_single_quote(string@, *shell),
{
    let ghost s = string@;
    let n = string.unicode_len();
    if shell.is_posix_family() {
        let mut out = String::new();
        let mut fragment = String::new();
        let mut i: usize = 0;
        while i < n
            invariant
                n as nat == s.len(),
                s == string@,
                i <= n,
                out@ == spec_posix_quote_state(s, i as int).0,
                fragment@ == spec_posix_quote_state(s, i as int).1,
            decreases n - i,
        {
            let c = string.get_char(i);
            if c == '\'' {
                if !fragment.as_str().is_empty() {
                    out.append("'");
                    out.append(fragment.as_str());
                    out.append("'");
                }
                out.append("\"'\"");
                fragment = String::new();
                proof {
                    assert(out@ =~= spec_posix_quote_state(s, i as int + 1).0);
                }
            } else {
                fragment.push(c);
            }
            i = i + 1;
        }
        if !fragment.as_str().is_empty() {
            out.append("'");
            out.append(fragment.as_str());
            out.append("'");
        }
        proof {
            assert(out@ =~= spec_posix_quote(s));
        }
        out
    } else {
        let mut out = String::new();
        out.push('\'');
        let mut i: usize = 0;
        while i < n
            invariant
                n as nat == s.len(),
                s == string@,
                i <= n,
                out@ == seq!['\''] + spec_fish_escaped(s, i as int),
            decreases n - i,
        {
            let c = string.get_char(i);
            if c == '\\' || c == '\'' {
                out.push('\\');
                out.push(c);
            } else {
                out.push(c);
            }
            proof {
                assert(out@ =~= seq!['\''] + spec_fish_escaped(s, i as int + 1));
            }
            i = i + 1;
        }
        out.push('\'');
        proof {
            assert(out@ =~= spec_fish_quote(s));
        }
        out
    }
}

// ---------------------------------------------------------------------------
// Rendering of one part
// ---------------------------------------------------------------------------

/// How one classified part renders for the given shell: literal text is
/// single-quoted, a variable reference becomes a double-quoted interpolation,
/// and command substitutions and home expansions wrap an `eval`, with the
/// structured family dropping the leading `$` of the substitution.
pub open spec fn spec_render_part(kind: ValuePartKind, value: Seq<char>, shell: Shell) -> Seq<
    char,
> {
    match kind {
        ValuePartKind::Literal => spec_single_quote(value, shell),
        ValuePartKind::ShellVariable => "\"$"@ + value + "\""@,
        ValuePartKind::ShellCommand => if shell.spec_is_posix_family() {
            "$(eval "@ + spec_single_quote(value, shell) + ")"@
        } else {
            "(eval "@ + spec_single_quote(value, shell) + ")"@
        },
        ValuePartKind::Home => if shell.spec_is_posix_family() {
            "$(eval echo \"~"@ + value + "\")"@
        } else {
            "(eval echo \"~"@ + value + "\")"@
        },
    }
}

/// Renders one classified part for the given shell.
pub fn shell_format(kind: ValuePartKind, value: &str, shell: &Shell) -> (r: String)
    ensures
        r@ == spec_render_part(kind, value@, *shell),
{
    match kind {
        ValuePartKind::Literal => single_quote(value, shell),
        ValuePartKind::ShellVariable => {
            let mut out = String::new();
            out.append("\"$");
            out.append(value);
            out.append("\"");
            out
        },
        ValuePartKind::ShellCommand => {
            let quoted = single_quote(value, shell);
            let mut out = String::new();
            if shell.is_posix_family() {
                out.append("$(eval ");
            } else {
                out.append("(eval ");
            }
            out.append(quoted.as_str());
            out.append(")");
            out
        },
        ValuePartKind::Home => {
            let mut out = String::new();
            if shell.is_posix_family() {
                out.append("$(eval echo \"~");
            } else {
                out.append("(eval echo \"~");
            }
            out.append(value);
            out.append("\")");
            out
        },
    }
}

// ---------------------------------------------------------------------------
// Script statement forms
// ---------------------------------------------------------------------------

/// The one-line statement that sets `name` to the already rendered `value`:
/// `export` for the POSIX-like family, `set -gx` for the structured family,
/// which also takes `--path` when the value is list-typed.
pub open spec fn spec_set_variable(
    shell: Shell,
    name: Seq<char>,
    value: Seq<char>,
    is_path: bool,
) -> Seq<char> {
    if shell.spec_is_posix_family() {
        "export "@ + name + "="@ + value
    } else {
        "set -gx"@ + (if is_path {
            " --path"@
        } else {
            Seq::<char>::empty()
        }) + " "@ + name + " "@ + value
    }
}

/// The one-line statement that removes `name` from the environment.
pub open spec fn spec_unset_variable(shell: Shell, name: Seq<char>) -> Seq<char> {
    if shell.spec_is_posix_family() {
        "unset "@ + name
    } else {
        "set -ge "@ + name
    }
}

/// The script line that sets a variable to an already rendered value.
pub fn set_variable(shell: &Shell, name: &str, value: &str, is_path: bool) -> (r: String)
    ensures
        r@ == spec_set_variable(*shell, name@, value@, is_path),
{
    let mut out = String::new();
    match shell {
        Shell::Bash | Shell::Zsh => {
            out.append("export ");
            out.append(name);
            out.append("=");
            out.append(value);
        },
        Shell::Fish => {
            out.append("set -gx");
            if is_path {
                out.append(" --path");
            }
            out.append(" ");
            out.append(name);
            out.append(" ");
            out.append(value);
        },
    }
    proof {
        assert(out@ =~= spec_set_variable(*shell, name@, value@, is_path));
    }
    out
}

/// The script line that unsets a variable.
pub fn unset_variable(shell: &Shell, name: &str) -> (r: String)
    ensures
        r@ == spec_unset_variable(*shell, name@),
{
    let mut out = String::new();
    match shell {
        Shell::Bash | Shell::Zsh => {
            out.append("unset ");
            out.append(name);
        },
        Shell::Fish => {
            out.append("set -ge ");
            out.append(name);
        },
    }
    out
}

// ---------------------------------------------------------------------------
// Expansion of one raw value
// ---------------------------------------------------------------------------

/// A warning tied to the raw value it was found in, so that the driver can
/// print the annotated line.
#[derive(Clone, Debug, PartialEq, Eq)]
pub struct Diagnostic {
    /// The raw value the warning points into.
    pub line: String,
    pub kind: WarningKind,
    pub start: usize,
    pub end: usize,
}

/// The mathematical content of a [`Diagnostic`].
pub ghost struct DiagnosticView {
    pub line: Seq<char>,
    pub kind: WarningKind,
    pub start: int,
    pub end: int,
}

impl View for Diagnostic {
    type V = DiagnosticView;

    open spec fn view(&self) -> DiagnosticView {
        DiagnosticView {
            line: self.line@,
            kind: self.kind,
            start: self.start as int,
            end: self.end as int,
        }
    }
}

/// A fatal lexer error tied to the raw value it was found in.
#[derive(Clone, Debug, PartialEq, Eq)]
pub struct ConvertError {
    /// The raw value the error points into.
    pub line: String,
    pub kind: FatalKind,
    pub start: usize,
    pub end: usize,
}

/// The mathematical content of a [`ConvertError`].
pub ghost struct ConvertErrorView {
    pub line: Seq<char>,
    pub kind: FatalKind,
    pub start: int,
    pub end: int,
}

impl View for ConvertError {
    type V = ConvertErrorView;

    open spec fn view(&self) -> ConvertErrorView {
        ConvertErrorView {
            line: self.line@,
            kind: self.kind,
            start: self.start as int,
            end: self.end as int,
        }
    }
}

/// The views of a sequence of diagnostics.
pub open spec fn spec_diags_view(diags: Seq<Diagnostic>) -> Seq<DiagnosticView> {
    diags.map_values(|d: Diagnostic| d@)
}

/// The views of a sequence of strings.
pub open spec fn spec_strings_view(strings: Seq<String>) -> Seq<Seq<char>> {
    strings.map_values(|s: String| s@)
}

/// The diagnostics that lexing one raw value contributes: its warnings, each
/// tied to that value.
pub open spec fn spec_value_diags(value: Seq<char>) -> Seq<DiagnosticView> {
    spec_parse_warnings(value).map_values(
        |w: WarningView| DiagnosticView { line: value, kind: w.kind, start: w.start, end: w.end },
    )
}

/// The concatenated renderings of the first `n` parts.
pub open spec fn spec_expand_parts(parts: Seq<ValuePartView>, shell: Shell, n: int) -> Seq<char>
    decreases n,
{
    if n <= 0 {
        Seq::empty()
    } else {
        spec_expand_parts(parts, shell, n - 1) + spec_render_part(
            parts[n - 1].kind,
            parts[n - 1].value,
            shell,
        )
    }
}

/// What expanding one raw value yields for the given shell: every part
/// rendered and concatenated in order, or the lexer's fatal error.
pub open spec fn spec_expand_value(value: Seq<char>, shell: Shell) -> Result<Seq<char>, FatalView> {
    match spec_parse(value) {
        Ok(pw) => Ok(spec_expand_parts(pw.0, shell, pw.0.len() as int)),
        Err(e) => Err(e),
    }
}

/// Expands the literal representation of one raw value into syntax the given
/// shell can evaluate. Warnings are appended to `diags`; a fatal lexer error
/// is returned with `diags` untouched.
pub fn expand_value(value: &str, shell: &Shell, diags: &mut Vec<Diagnostic>) -> (r: Result<
    String,
    ParseError,
>)
    ensures
        (r matches Ok(s) ==> spec_expand_value(value@, *shell) == Ok::<Seq<char>, FatalView>(s@)
            && spec_diags_view(final(diags)@) == spec_diags_view(old(diags)@) + spec_value_diags(
            value@,
        )),
        (r matches Err(e) ==> spec_expand_value(value@, *shell) == Err::<Seq<char>, FatalView>(e@)
            && *final(diags) == *old(diags)),
{
    let parsed = match parse_value(value) {
        Ok(o) => o,
        Err(e) => {
            return Err(e);
        },
    };

    // Tie each warning to the raw value it points into.
    let ghost all_diags = spec_value_diags(value@);
    let mut wi: usize = 0;
    while wi < parsed.warnings.len()
        invariant
            spec_warnings_view(parsed.warnings@) == spec_parse_warnings(value@),
            wi <= parsed.warnings.len(),
            all_diags == spec_value_diags(value@),
            all_diags.len() == parsed.warnings@.len(),
            spec_diags_view(diags@) == spec_diags_view(old(diags)@) + all_diags.take(wi as int),
        decreases parsed.warnings.len() - wi,
    {
        let w = parsed.warnings[wi];
        let ghost before = diags@;
        let line_copy = value.to_owned();
        let d = Diagnostic { line: line_copy, kind: w.kind, start: w.start, end: w.end };
        diags.push(d);
        proof {
            let wv = spec_parse_warnings(value@);
            assert(wv[wi as int] == parsed.warnings@[wi as int]@);
            assert(all_diags[wi as int] == d@);
            assert(spec_diags_view(before.push(d)) =~= spec_diags_view(before).push(d@));
            assert(all_diags.take(wi as int + 1) =~= all_diags.take(wi as int).push(
                all_diags[wi as int],
            ));
            assert(spec_diags_view(diags@) =~= spec_diags_view(old(diags)@) + all_diags.take(
                wi as int + 1,
            ));
        }
        wi = wi + 1;
    }
    proof {
        assert(all_diags.take(all_diags.len() as int) =~= all_diags);
    }

    // Render every part for the chosen shell and concatenate in order.
    let ghost parts_v = spec_parts_view(parsed.parts@);
    let mut out = String::new();
    let mut i: usize = 0;
    while i < parsed.parts.len()
        invariant
            parts_v == spec_parts_view(parsed.parts@),
            i <= parsed.parts.len(),
            out@ == spec_expand_parts(parts_v, *shell, i as int),
        decreases parsed.parts.len() - i,
    {
        let part = &parsed.parts[i];
        let rendered = shell_format(part.kind, part.value.as_str(), shell);
        out.append(rendered.as_str());
        i = i + 1;
    }
    Ok(out)
}

// ---------------------------------------------------------------------------
// Expansion of a list of raw values
// ---------------------------------------------------------------------------

/// What expanding a list of raw values has produced so far: the colon-joined
/// expansions, the diagnostics of the values already lexed, and the first
/// fatal error together with the value it was found in. After an error the
/// remaining values are not touched.
pub ghost struct ListExpansion {
    pub joined: Seq<char>,
    pub diags: Seq<DiagnosticView>,
    pub error: Option<(Seq<char>, FatalView)>,
}

/// Expanding the first `n` raw values of `values`: each is expanded for the
/// shell and the results are joined with the path separator `:`, stopping at
/// the first value whose lexing fails.
pub open spec fn spec_expand_list(values: Seq<Seq<char>>, shell: Shell, n: int) -> ListExpansion
    decreases n,
{
    if n <= 0 {
        ListExpansion { joined: Seq::empty(), diags: Seq::empty(), error: None }
    } else {
        let prev = spec_expand_list(values, shell, n - 1);
        if prev.error is Some {
            prev
        } else {
            let v = values[n - 1];
            match spec_expand_value(v, shell) {
                Err(e) => ListExpansion { error: Some((v, e)), ..prev },
                Ok(rendered) => ListExpansion {
                    joined: if n == 1 {
                        rendered
                    } else {
                        prev.joined + ":"@ + rendered
                    },
                    diags: prev.diags + spec_value_diags(v),
                    error: None,
                },
            }
        }
    }
}

/// Once a value has failed, the later values change nothing.
proof fn lemma_expand_list_error_persists(values: Seq<Seq<char>>, shell: Shell, i: int, j: int)
    requires
        0 <= i <= j,
        spec_expand_list(values, shell, i).error is Some,
    ensures
        spec_expand_list(values, shell, j) == spec_expand_list(values, shell, i),
    decreases j - i,
{
    if j > i {
        lemma_expand_list_error_persists(values, shell, i, j - 1);
    }
}

/// Expands every raw value of `values` and joins the results with `:`.
/// Warnings of the values lexed so far are appended to `diags`; the first
/// fatal error is returned together with the value it was found in.
fn expand_join(values: &Vec<String>, shell: &Shell, diags: &mut Vec<Diagnostic>) -> (r: Result<
    String,
    ConvertError,
>)
    ensures
        ({
            let le = spec_expand_list(spec_strings_view(values@), *shell, values@.len() as int);
            &&& (r matches Ok(s) ==> le.error is None && s@ == le.joined && spec_diags_view(
                final(diags)@,
            ) == spec_diags_view(old(diags)@) + le.diags)
            &&& (r matches Err(e) ==> le.error matches Some(p) && p.0 == e@.line && p.1.kind
                == e@.kind && p.1.start == e@.start && p.1.end == e@.end && spec_diags_view(
                final(diags)@,
            ) == spec_diags_view(old(diags)@) + le.diags)
        }),
{
    let ghost vs = spec_strings_view(values@);
    let mut out = String::new();
    let mut i: usize = 0;
    while i < values.len()
        invariant
            vs == spec_strings_view(values@),
            i <= values.len(),
            spec_expand_list(vs, *shell, i as int).error is None,
            out@ == spec_expand_list(vs, *shell, i as int).joined,
            spec_diags_view(diags@) == spec_diags_view(old(diags)@) + spec_expand_list(
                vs,
                *shell,
                i as int,
            ).diags,
        decreases values.len() - i,
    {
        let v = &values[i];
        proof {
            assert(vs[i as int] == v@);
        }
        if i > 0 {
            out.append(":");
        }
        let ghost diags_before = spec_diags_view(diags@);
        match expand_value(v.as_str(), shell, diags) {
            Ok(rendered) => {
                out.append(rendered.as_str());
                proof {
                    assert(spec_diags_view(diags@) =~= spec_diags_view(old(diags)@)
                        + spec_expand_list(vs, *shell, i as int + 1).diags);
                }
            },
            Err(e) => {
                let err = ConvertError { line: v.clone(), kind: e.kind, start: e.start, end: e.end };
                proof {
                    lemma_expand_list_error_persists(
                        vs,
                        *shell,
                        i as int + 1,
                        values@.len() as int,
                    );
                }
                return Err(err);
            },
        }
        i = i + 1;
    }
    Ok(out)
}

// ---------------------------------------------------------------------------
// Choosing the value for a shell
// ---------------------------------------------------------------------------

/// Whether two strings hold the same characters.
fn str_eq(a: &str, b: &str) -> (r: bool)
    ensures
        r == (a@ == b@),
{
    let n = a.unicode_len();
    let m = b.unicode_len();
    if n != m {
        proof {
            assert(a@.len() != b@.len());
        }
        return false;
    }
    let mut i: usize = 0;
    while i < n
        invariant
            n as nat == a@.len(),
            n as nat == b@.len(),
            i <= n,
            forall|j: int| 0 <= j < i ==> a@[j] == b@[j],
        decreases n - i,
    {
        let ca = a.get_char(i);
        let cb = b.get_char(i);
        if ca != cb {
            proof {
                assert(a@[i as int] != b@[i as int]);
            }
            return false;
        }
        i = i + 1;
    }
    proof {
        assert(a@ =~= b@);
    }
    true
}

/// The value of the first entry whose key holds the characters of `key`,
/// among the first `n` entries.
pub open spec fn spec_lookup(
    entries: Seq<(String, EnvVariableValue)>,
    key: Seq<char>,
    n: int,
) -> Option<EnvVariableValue>
    decreases n,
{
    if n <= 0 {
        None
    } else {
        match spec_lookup(entries, key, n - 1) {
            Some(v) => Some(v),
            None => if entries[n - 1].0@ == key {
                Some(entries[n - 1].1)
            } else {
                None
            },
        }
    }
}

/// A found entry stays found when more entries are considered.
proof fn lemma_lookup_persists(
    entries: Seq<(String, EnvVariableValue)>,
    key: Seq<char>,
    i: int,
    j: int,
)
    requires
        0 <= i <= j,
        spec_lookup(entries, key, i) is Some,
    ensures
        spec_lookup(entries, key, j) == spec_lookup(entries, key, i),
    decreases j - i,
{
    if j > i {
        lemma_lookup_persists(entries, key, i, j - 1);
    }
}

/// The value of the first entry whose key equals `key`, if any.
fn find_entry<'a>(map: &'a Vec<(String, EnvVariableValue)>, key: &str) -> (r: Option<
    &'a EnvVariableValue,
>)
    ensures
        (r matches Some(v) ==> spec_lookup(map@, key@, map@.len() as int) == Some(*v)),
        (r is None ==> spec_lookup(map@, key@, map@.len() as int) is None),
{
    let mut i: usize = 0;
    while i < map.len()
        invariant
            i <= map.len(),
            spec_lookup(map@, key@, i as int) is None,
        decreases map.len() - i,
    {
        let entry = &map[i];
        if str_eq(entry.0.as_str(), key) {
            proof {
                lemma_lookup_persists(map@, key@, i as int + 1, map@.len() as int);
            }
            return Some(&map[i].1);
        }
        i = i + 1;
    }
    None
}

/// The value a table of shell-specific entries supplies for the given shell:
/// the entry under the shell's own name, or failing that the entry under the
/// fallback key `_`.
pub open spec fn spec_value_for_specific(
    shell: Shell,
    entries: Seq<(String, EnvVariableValue)>,
) -> Option<EnvVariableValue> {
    match spec_lookup(entries, shell.spec_name(), entries.len() as int) {
        Some(v) => Some(v),
        None => spec_lookup(entries, "_"@, entries.len() as int),
    }
}

/// Given a `shell` and a table of shell-specific entries, picks the value
/// for that shell: its own entry first, the `_` fallback second.
pub fn value_for_specific<'a>(shell: &Shell, map: &'a Vec<(String, EnvVariableValue)>) -> (r:
    Option<&'a EnvVariableValue>)
    ensures
        (r matches Some(v) ==> spec_value_for_specific(*shell, map@) == Some(*v)),
        (r is None ==> spec_value_for_specific(*shell, map@) is None),
{
    match find_entry(map, shell.name()) {
        Some(v) => Some(v),
        None => find_entry(map, "_"),
    }
}

// ---------------------------------------------------------------------------
// One variable binding
// ---------------------------------------------------------------------------

/// The views of a pushed sequence of strings.
proof fn lemma_strings_view_push(strings: Seq<String>, s: String)
    ensures
        spec_strings_view(strings.push(s)) == spec_strings_view(strings).push(s@),
{
    assert(spec_strings_view(strings.push(s)) =~= spec_strings_view(strings).push(s@));
}

/// The strings of the first `n` lists, concatenated in order.
pub open spec fn spec_concat_lists(lists: Seq<Vec<String>>, n: int) -> Seq<Seq<char>>
    decreases n,
{
    if n <= 0 {
        Seq::empty()
    } else {
        spec_concat_lists(lists, n - 1) + spec_strings_view(lists[n - 1]@)
    }
}

/// The raw strings a tagged value asks to have expanded, in order: one for a
/// plain string, the flattened lists for an array, the elements for a path,
/// and none for a boolean.
pub open spec fn spec_variable_values(value: EnvVariableValue) -> Seq<Seq<char>> {
    match value {
        EnvVariableValue::String(s) => seq![s@],
        EnvVariableValue::Array(a) => spec_concat_lists(a@, a@.len() as int),
        EnvVariableValue::Path(p) => spec_strings_view(p@),
        EnvVariableValue::Flag(_) => Seq::empty(),
    }
}

/// The script line for one binding: a boolean either sets the sentinel `1`
/// or unsets the variable; every other value has its raw strings expanded,
/// colon-joined, and set, with path values marked list-typed.
pub open spec fn spec_process_variable(
    shell: Shell,
    name: Seq<char>,
    value: EnvVariableValue,
) -> Result<Seq<char>, (Seq<char>, FatalView)> {
    match value {
        EnvVariableValue::Flag(b) => if b {
            Ok(spec_set_variable(shell, name, "1"@, false))
        } else {
            Ok(spec_unset_variable(shell, name))
        },
        _ => {
            let values = spec_variable_values(value);
            let le = spec_expand_list(values, shell, values.len() as int);
            match le.error {
                Some(p) => Err(p),
                None => Ok(
                    spec_set_variable(
                        shell,
                        name,
                        le.joined,
                        value matches EnvVariableValue::Path(_),
                    ),
                ),
            }
        },
    }
}

/// The diagnostics that processing one binding contributes.
pub open spec fn spec_variable_diags(value: EnvVariableValue, shell: Shell) -> Seq<
    DiagnosticView,
> {
    match value {
        EnvVariableValue::Flag(_) => Seq::empty(),
        _ => {
            let values = spec_variable_values(value);
            spec_expand_list(values, shell, values.len() as int).diags
        },
    }
}

/// Produces the one script line for a binding of `name` to `raw_value`, or
/// the first fatal error among the binding's raw strings. Warnings are
/// appended to `diags` either way.
pub fn process_variable(
    shell: &Shell,
    name: &str,
    raw_value: &EnvVariableValue,
    diags: &mut Vec<Diagnostic>,
) -> (r: Result<String, ConvertError>)
    ensures
        spec_diags_view(final(diags)@) == spec_diags_view(old(diags)@) + spec_variable_diags(
            *raw_value,
            *shell,
        ),
        (r matches Ok(line) ==> spec_process_variable(*shell, name@, *raw_value) == Ok::<
            Seq<char>,
            (Seq<char>, FatalView),
        >(line@)),
        (r matches Err(e) ==> spec_process_variable(*shell, name@, *raw_value) matches Err(p)
            && p.0 == e@.line && p.1.kind == e@.kind && p.1.start == e@.start && p.1.end
            == e@.end),
{
    match raw_value {
        EnvVariableValue::Flag(b) => {
            proof {
                assert(spec_diags_view(diags@) =~= spec_diags_view(diags@) + Seq::<
                    DiagnosticView,
                >::empty());
            }
            if *b {
                Ok(set_variable(shell, name, "1", false))
            } else {
                Ok(unset_variable(shell, name))
            }
        },
        EnvVariableValue::String(s) => {
            let mut values: Vec<String> = Vec::new();
            values.push(s.clone());
            proof {
                assert(spec_strings_view(values@) =~= spec_variable_values(*raw_value));
            }
            match expand_join(&values, shell, diags) {
                Ok(joined) => Ok(set_variable(shell, name, joined.as_str(), false)),
                Err(e) => Err(e),
            }
        },
        EnvVariableValue::Path(p) => {
            let mut values: Vec<String> = Vec::new();
            let mut i: usize = 0;
            while i < p.len()
                invariant
                    i <= p.len(),
                    spec_strings_view(values@) == spec_strings_view(p@).take(i as int),
                decreases p.len() - i,
            {
                let ghost before = values@;
                values.push(p[i].clone());
                proof {
                    lemma_strings_view_push(before, p@[i as int]);
                    assert(spec_strings_view(p@).take(i as int + 1) =~= spec_strings_view(
                        p@,
                    ).take(i as int).push(p@[i as int]@));
                }
                i = i + 1;
            }
            proof {
                assert(spec_strings_view(p@).take(p@.len() as int) =~= spec_strings_view(p@));
            }
            match expand_join(&values, shell, diags) {
                Ok(joined) => Ok(set_variable(shell, name, joined.as_str(), true)),
                Err(e) => Err(e),
            }
        },
        EnvVariableValue::Array(a) => {
            // The lists are flattened in order before being expanded.
            let mut values: Vec<String> = Vec::new();
            let mut i: usize = 0;
            while i < a.len()
                invariant
                    i <= a.len(),
                    spec_strings_view(values@) == spec_concat_lists(a@, i as int),
                decreases a.len() - i,
            {
                let inner = &a[i];
                let mut j: usize = 0;
                while j < inner.len()
                    invariant
                        i < a@.len(),
                        *inner == a@[i as int],
                        j <= inner.len(),
                        spec_strings_view(values@) == spec_concat_lists(a@, i as int)
                            + spec_strings_view(inner@).take(j as int),
                    decreases inner.len() - j,
                {
                    let ghost before = values@;
                    values.push(inner[j].clone());
                    proof {
                        lemma_strings_view_push(before, inner@[j as int]);
                        assert(spec_strings_view(inner@).take(j as int + 1) =~= spec_strings_view(
                            inner@,
                        ).take(j as int).push(inner@[j as int]@));
                        assert(spec_concat_lists(a@, i as int) + spec_strings_view(inner@).take(
                            j as int + 1,
                        ) =~= (spec_concat_lists(a@, i as int) + spec_strings_view(inner@).take(
                            j as int,
                        )).push(inner@[j as int]@));
                    }
                    j = j + 1;
                }
                proof {
                    assert(spec_strings_view(inner@).take(inner@.len() as int) =~= spec_strings_view(
                        inner@,
                    ));
                }
                i = i + 1;
            }
            match expand_join(&values, shell, diags) {
                Ok(joined) => Ok(set_variable(shell, name, joined.as_str(), false)),
                Err(e) => Err(e),
            }
        },
    }
}

// ---------------------------------------------------------------------------
// A whole mapping of bindings
// ---------------------------------------------------------------------------

/// What serializing the first `n` bindings has produced: the script lines in
/// order, the diagnostics, and the first fatal error. A shell-specific
/// binding with no entry for the shell contributes nothing; after an error
/// the remaining bindings are not touched.
pub ghost struct SourceState {
    pub lines: Seq<Seq<char>>,
    pub diags: Seq<DiagnosticView>,
    pub error: Option<(Seq<char>, FatalView)>,
}

/// Serializing the first `n` bindings of `vars` for `shell`.
pub open spec fn spec_shell_source_state(
    vars: Seq<(String, EnvVariableOption)>,
    shell: Shell,
    n: int,
) -> SourceState
    decreases n,
{
    if n <= 0 {
        SourceState { lines: Seq::empty(), diags: Seq::empty(), error: None }
    } else {
        let prev = spec_shell_source_state(vars, shell, n - 1);
        if prev.error is Some {
            prev
        } else {
            let selection = match vars[n - 1].1 {
                EnvVariableOption::General(v) => Some(v),
                EnvVariableOption::Specific(m) => spec_value_for_specific(shell, m@),
            };
            match selection {
                None => prev,
                Some(v) => {
                    let diags = prev.diags + spec_variable_diags(v, shell);
                    match spec_process_variable(shell, vars[n - 1].0@, v) {
                        Ok(line) => SourceState { lines: prev.lines.push(line), diags, ..prev },
                        Err(p) => SourceState { error: Some(p), diags, ..prev },
                    }
                },
            }
        }
    }
}

/// Once a binding has failed, the later bindings change nothing.
proof fn lemma_shell_source_error_persists(
    vars: Seq<(String, EnvVariableOption)>,
    shell: Shell,
    i: int,
    j: int,
)
    requires
        0 <= i <= j,
        spec_shell_source_state(vars, shell, i).error is Some,
    ensures
        spec_shell_source_state(vars, shell, j) == spec_shell_source_state(vars, shell, i),
    decreases j - i,
{
    if j > i {
        lemma_shell_source_error_persists(vars, shell, i, j - 1);
    }
}

/// The first `n` lines joined with a newline between each pair.
pub open spec fn spec_join_lines(lines: Seq<Seq<char>>, n: int) -> Seq<char>
    decreases n,
{
    if n <= 0 {
        Seq::empty()
    } else if n == 1 {
        lines[0]
    } else {
        spec_join_lines(lines, n - 1) + "\n"@ + lines[n - 1]
    }
}

/// What serializing a whole mapping yields: every binding's line joined with
/// newlines plus a trailing newline, or the first fatal error.
pub open spec fn spec_to_shell_source(
    vars: Seq<(String, EnvVariableOption)>,
    shell: Shell,
) -> Result<Seq<char>, (Seq<char>, FatalView)> {
    let st = spec_shell_source_state(vars, shell, vars.len() as int);
    match st.error {
        Some(p) => Err(p),
        None => Ok(spec_join_lines(st.lines, st.lines.len() as int) + "\n"@),
    }
}

/// The diagnostics that serializing a whole mapping contributes.
pub open spec fn spec_shell_source_diags(
    vars: Seq<(String, EnvVariableOption)>,
    shell: Shell,
) -> Seq<DiagnosticView> {
    spec_shell_source_state(vars, shell, vars.len() as int).diags
}

/// The views of a sequence of lines.
pub open spec fn spec_lines_view(lines: Seq<String>) -> Seq<Seq<char>> {
    lines.map_values(|s: String| s@)
}

/// Converts the ordered mapping of `vars` into a script for the given
/// `shell`: one line per binding that applies, joined by newlines, with a
/// trailing newline. Warnings are appended to `diags`; the first fatal
/// error aborts the conversion.
pub fn to_shell_source(vars: &EnvironmentVariables, shell: &Shell, diags: &mut Vec<Diagnostic>) -> (r:
    Result<String, ConvertError>)
    ensures
        spec_diags_view(final(diags)@) == spec_diags_view(old(diags)@) + spec_shell_source_diags(
            vars@,
            *shell,
        ),
        (r matches Ok(s) ==> spec_to_shell_source(vars@, *shell) == Ok::<
            Seq<char>,
            (Seq<char>, FatalView),
        >(s@)),
        (r matches Err(e) ==> spec_to_shell_source(vars@, *shell) matches Err(p) && p.0 == e@.line
            && p.1.kind == e@.kind && p.1.start == e@.start && p.1.end == e@.end),
{
    let mut lines: Vec<String> = Vec::new();
    let mut k: usize = 0;
    while k < vars.len()
        invariant
            k <= vars.len(),
            spec_shell_source_state(vars@, *shell, k as int).error is None,
            spec_lines_view(lines@) == spec_shell_source_state(vars@, *shell, k as int).lines,
            spec_diags_view(diags@) == spec_diags_view(old(diags)@) + spec_shell_source_state(
                vars@,
                *shell,
                k as int,
            ).diags,
        decreases vars.len() - k,
    {
        let entry = &vars[k];
        let selected: Option<&EnvVariableValue> = match &entry.1 {
            EnvVariableOption::General(v) => Some(v),
            EnvVariableOption::Specific(m) => value_for_specific(shell, m),
        };
        match selected {
            None => {},
            Some(v) => {
                let ghost lines_before = lines@;
                match process_variable(shell, entry.0.as_str(), v, diags) {
                    Ok(line) => {
                        lines.push(line);
                        proof {
                            assert(spec_lines_view(lines_before.push(line)) =~= spec_lines_view(
                                lines_before,
                            ).push(line@));
                            assert(spec_diags_view(diags@) =~= spec_diags_view(old(diags)@)
                                + spec_shell_source_state(vars@, *shell, k as int + 1).diags);
                        }
                    },
                    Err(e) => {
                        proof {
                            assert(spec_diags_view(diags@) =~= spec_diags_view(old(diags)@)
                                + spec_shell_source_state(vars@, *shell, k as int + 1).diags);
                            lemma_shell_source_error_persists(
                                vars@,
                                *shell,
                                k as int + 1,
                                vars@.len() as int,
                            );
                        }
                        return Err(e);
                    },
                }
            },
        }
        k = k + 1;
    }

    // Join the lines and end the script with a newline.
    let ghost lv = spec_lines_view(lines@);
    let mut out = String::new();
    let mut i: usize = 0;
    while i < lines.len()
        invariant
            lv == spec_lines_view(lines@),
            i <= lines.len(),
            out@ == spec_join_lines(lv, i as int),
        decreases lines.len() - i,
    {
        if i > 0 {
            out.append("\n");
        }
        out.append(lines[i].as_str());
        i = i + 1;
    }
    out.append("\n");
    Ok(out)
}

} // verus!
