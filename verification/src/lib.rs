//! Platform target triples as two build ecosystems spell them.
//!
//! A meta-build system may describe a platform with an OS name that the Rust
//! toolchain does not recognise (for example `nixos` or `drive_linux`). The
//! [`TargetTriple`] type wraps one such identifier string and derives, on
//! demand, the spelling each downstream consumer expects: the build system's
//! own spelling and the toolchain's canonical one.

use vstd::prelude::*;

pub mod strings;

verus! {

use crate::strings::{
    cmp_chars, contains_pat, contains_sub, lemma_lex_less_irreflexive, lex_less, replace_all,
    replace_pat,
};
use vstd::std_specs::cmp::{PartialEqSpec, PartialOrdSpec};

/// The alias OS substring rewritten with highest priority.
pub open spec fn nixos_alias() -> Seq<char> {
    "nixos"@
}

/// The alias OS substring considered only when the first one is absent.
pub open spec fn drive_linux_alias() -> Seq<char> {
    "drive_linux"@
}

/// The canonical OS substring that the toolchain understands.
pub open spec fn linux_canonical() -> Seq<char> {
    "linux"@
}

/// The toolchain spelling of a raw identifier: the first alias in priority
/// order that occurs anywhere in it is replaced at every occurrence and later
/// aliases are left alone; with no alias present the identifier is unchanged.
pub open spec fn cargo_form(s: Seq<char>) -> Seq<char> {
    if contains_sub(s, nixos_alias()) {
        replace_all(s, nixos_alias(), linux_canonical())
    } else if contains_sub(s, drive_linux_alias()) {
        replace_all(s, drive_linux_alias(), linux_canonical())
    } else {
        s
    }
}

/// The display spelling: the raw identifier alone when both consumers agree
/// on it, else the raw identifier with the toolchain spelling appended in a
/// parenthetical.
pub open spec fn render_form(s: Seq<char>) -> Seq<char> {
    if cargo_form(s) == s {
        s
    } else {
        s + " (cargo: "@ + cargo_form(s) + ")"@
    }
}

/// An immutable platform-identifier string in the build system's spelling.
///
/// Equality, ordering and hashing are structural over the raw string; every
/// other representation is derived on demand, never stored.
#[derive(Debug, Clone, Hash)]
pub struct TargetTriple {
    raw: String,
}

impl PartialEq for TargetTriple {
    fn eq(&self, other: &Self) -> (r: bool) {
        self.raw == other.raw
    }
}

impl Eq for TargetTriple {

}

impl vstd::std_specs::cmp::PartialEqSpecImpl for TargetTriple {
    open spec fn obeys_eq_spec() -> bool {
        true
    }

    open spec fn eq_spec(&self, other: &Self) -> bool {
        self@ == other@
    }
}

impl PartialOrd for TargetTriple {
    fn partial_cmp(&self, other: &Self) -> (r: Option<core::cmp::Ordering>) {
        Some(cmp_chars(self.raw.as_str(), other.raw.as_str()))
    }
}

impl vstd::std_specs::cmp::PartialOrdSpecImpl for TargetTriple {
    open spec fn obeys_partial_cmp_spec() -> bool {
        true
    }

    open spec fn partial_cmp_spec(&self, other: &Self) -> Option<core::cmp::Ordering> {
        if self@ == other@ {
            Some(core::cmp::Ordering::Equal)
        } else if lex_less(self@, other@) {
            Some(core::cmp::Ordering::Less)
        } else {
            Some(core::cmp::Ordering::Greater)
        }
    }
}

impl View for TargetTriple {
    type V = Seq<char>;

    closed spec fn view(&self) -> Seq<char> {
        self.raw@
    }
}

impl TargetTriple {
    /// Wraps the given string verbatim; no validation or normalisation.
    pub fn from_bazel(bazel: String) -> (r: Self)
        ensures
            r@ == bazel@,
    {
        TargetTriple { raw: bazel }
    }

    /// The build system's own spelling: the construction input, byte for byte.
    pub fn to_bazel(&self) -> (r: String)
        ensures
            r@ == self@,
    {
        self.raw.clone()
    }

    /// The toolchain's spelling, with build-system-only OS aliases remapped
    /// to `linux`: the first alias in priority order that occurs in the
    /// identifier is replaced at every occurrence, and no later alias is
    /// applied after that.
    pub fn to_cargo(&self) -> (r: String)
        ensures
            r@ == cargo_form(self@),
    {
        proof {
            reveal_strlit("nixos");
            reveal_strlit("drive_linux");
        }
        if contains_pat(self.raw.as_str(), "nixos") {
            replace_pat(self.raw.as_str(), "nixos", "linux")
        } else if contains_pat(self.raw.as_str(), "drive_linux") {
            replace_pat(self.raw.as_str(), "drive_linux", "linux")
        } else {
            self.raw.clone()
        }
    }

    /// The human-readable spelling: the raw identifier, and when the
    /// toolchain would spell it differently, that spelling appended as
    /// `" (cargo: ...)"`.
    pub fn render(&self) -> (r: String)
        ensures
            r@ == render_form(self@),
    {
        let bazel = self.to_bazel();
        let cargo = self.to_cargo();
        if bazel == cargo {
            bazel
        } else {
            let mut out = bazel;
            out.append(" (cargo: ");
            out.append(cargo.as_str());
            out.append(")");
            out
        }
    }
}

/// Law: a raw identifier containing neither alias is spelled identically for
/// the toolchain.
pub proof fn lemma_no_alias_unchanged(s: Seq<char>)
    requires
        !contains_sub(s, nixos_alias()),
        !contains_sub(s, drive_linux_alias()),
    ensures
        cargo_form(s) == s,
{
}

/// Law: when the highest-priority alias occurs in a raw identifier, the
/// toolchain spelling is exactly that alias replaced at every occurrence;
/// the lower-priority alias is never applied afterwards, even if it also
/// occurs.
pub proof fn lemma_first_alias_wins(s: Seq<char>)
    requires
        contains_sub(s, nixos_alias()),
    ensures
        cargo_form(s) == replace_all(s, nixos_alias(), linux_canonical()),
{
}

/// Law: two identifiers are equal exactly when their raw strings are equal.
pub proof fn lemma_eq_structural(a: &TargetTriple, b: &TargetTriple)
    ensures
        a.eq_spec(b) <==> a@ == b@,
{
}

/// Law: identifiers are ordered as their raw strings are, lexicographically
/// by character, with equality exactly on equal strings.
pub proof fn lemma_ord_lexicographic(a: &TargetTriple, b: &TargetTriple)
    ensures
        (a.partial_cmp_spec(b) == Some(core::cmp::Ordering::Equal)) <==> a@ == b@,
        (a.partial_cmp_spec(b) == Some(core::cmp::Ordering::Less)) <==> lex_less(a@, b@),
        (a.partial_cmp_spec(b) == Some(core::cmp::Ordering::Greater)) <==> (a@ != b@
            && !lex_less(a@, b@)),
{
    lemma_lex_less_irreflexive(a@);
}

} // verus!
