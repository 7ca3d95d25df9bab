//! The shell dialects that scripts can be generated for.

use vstd::prelude::*;

verus! {

/// A target shell dialect.
///
/// Two serialization families exist: Bash and Zsh share the POSIX-like
/// quoting and statement forms, while Fish uses its own structured forms.
/// A new dialect only has to say which family it renders with.
#[derive(Clone, Copy, Debug, PartialEq, Eq, Hash, Structural)]
pub enum Shell {
    Bash,
    Fish,
    Zsh,
}

impl Shell {
    /// The lowercase name of the dialect, as it appears in shell-specific
    /// configuration keys such as `NAME.bash`.
    pub open spec fn spec_name(self) -> Seq<char> {
        match self {
            Shell::Bash => "bash"@,
            Shell::Fish => "fish"@,
            Shell::Zsh => "zsh"@,
        }
    }

    /// Whether the dialect renders with the POSIX-like family's forms
    /// (`export`/`unset`, `'…'` quoting with no in-quote escapes).
    pub open spec fn spec_is_posix_family(self) -> bool {
        match self {
            Shell::Bash => true,
            Shell::Zsh => true,
            Shell::Fish => false,
        }
    }

    /// The lowercase name of the dialect.
    pub fn name(&self) -> (r: &'static str)
        ensures
            r@ == self.spec_name(),
    {
        match self {
            Shell::Bash => "bash",
            Shell::Fish => "fish",
            Shell::Zsh => "zsh",
        }
    }

    /// Whether the dialect belongs to the POSIX-like serialization family.
    pub fn is_posix_family(&self) -> (r: bool)
        ensures
            r == self.spec_is_posix_family(),
    {
        match self {
            Shell::Bash => true,
            Shell::Zsh => true,
            Shell::Fish => false,
        }
    }
}

} // verus!
