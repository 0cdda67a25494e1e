//! Names of environments and of grouped environments.
//!
//! A grouped-environment name is a durable identity handle that mirrors the
//! shape of the grouped environment it was taken from: either the name of a
//! solve group or the name of a standalone environment. It holds only
//! strings, so it can be stored, compared and hashed independently of the
//! workspace it came from. Both variants render as the bare name; callers
//! that need to tell them apart must match on the variant.

use vstd::prelude::*;

verus! {

/// The rendering holds the text itself, in one piece: styling may wrap a
/// name in escape codes but never alters or drops it.
pub open spec fn carries_text(rendered: Seq<char>, text: Seq<char>) -> bool {
    exists|i: int|
        0 <= i && i + text.len() <= rendered.len() && #[trigger] rendered.subrange(
            i,
            i + text.len() as int,
        ) == text
}

/// The name of an environment: the default environment or a named one.
#[derive(Debug, Hash)]
pub enum EnvironmentName {
    Default,
    Named(String),
}

impl EnvironmentName {
    /// The characters of the name; the default environment reads `default`.
    pub open spec fn chars(&self) -> Seq<char> {
        match self {
            EnvironmentName::Default => "default"@,
            EnvironmentName::Named(s) => s@,
        }
    }

    /// Returns the name as a string slice.
    pub fn as_str(&self) -> (r: &str)
        ensures
            r@ == self.chars(),
    {
        match self {
            EnvironmentName::Default => "default",
            EnvironmentName::Named(s) => s.as_str(),
        }
    }

    /// Returns a name equal to this one.
    pub fn duplicate(&self) -> (r: EnvironmentName)
        ensures
            r == *self,
    {
        match self {
            EnvironmentName::Default => EnvironmentName::Default,
            EnvironmentName::Named(s) => EnvironmentName::Named(s.clone()),
        }
    }
}

impl PartialEq for EnvironmentName {
    fn eq(&self, other: &Self) -> (r: bool) {
        match (self, other) {
            (EnvironmentName::Default, EnvironmentName::Default) => true,
            (EnvironmentName::Named(a), EnvironmentName::Named(b)) => <String as PartialEq>::eq(
                a,
                b,
            ),
            _ => false,
        }
    }
}

impl vstd::std_specs::cmp::PartialEqSpecImpl for EnvironmentName {
    open spec fn obeys_eq_spec() -> bool {
        true
    }

    open spec fn eq_spec(&self, other: &Self) -> bool {
        match (self, other) {
            (EnvironmentName::Default, EnvironmentName::Default) => true,
            (EnvironmentName::Named(a), EnvironmentName::Named(b)) => a@ == b@,
            _ => false,
        }
    }
}

/// The name of a grouped environment: a solve-group name or an environment
/// name, mirroring the variant of the grouped environment it was taken from.
#[derive(Debug, Hash)]
pub enum GroupedEnvironmentName {
    Group(String),
    Environment(EnvironmentName),
}

impl GroupedEnvironmentName {
    /// The characters of the underlying name, the same for both variants.
    pub open spec fn chars(&self) -> Seq<char> {
        match self {
            GroupedEnvironmentName::Group(s) => s@,
            GroupedEnvironmentName::Environment(n) => n.chars(),
        }
    }

    /// Returns the underlying name as a string slice, for display and lookup;
    /// the rendering does not distinguish the variants.
    pub fn as_str(&self) -> (r: &str)
        ensures
            r@ == self.chars(),
    {
        match self {
            GroupedEnvironmentName::Group(s) => s.as_str(),
            GroupedEnvironmentName::Environment(n) => n.as_str(),
        }
    }

    /// Returns a styled rendering of the name for console output, with a
    /// distinct style for solve-group names and for environment names. Purely
    /// presentational; whether escape codes surround the name depends on
    /// whether styling is enabled for the process, but the name itself always
    /// stands verbatim in the result.
    pub fn fancy_display(&self) -> (r: String)
        ensures
            carries_text(r@, self.chars()),
    {
        match self {
            GroupedEnvironmentName::Group(s) => style_solve_group_name(s.as_str()),
            GroupedEnvironmentName::Environment(n) => style_environment_name(n.as_str()),
        }
    }
}

impl PartialEq for GroupedEnvironmentName {
    fn eq(&self, other: &Self) -> (r: bool) {
        match (self, other) {
            (GroupedEnvironmentName::Group(a), GroupedEnvironmentName::Group(b)) => <String as PartialEq>::eq(
                a,
                b,
            ),
            (
                GroupedEnvironmentName::Environment(a),
                GroupedEnvironmentName::Environment(b),
            ) => a == b,
            _ => false,
        }
    }
}

impl vstd::std_specs::cmp::PartialEqSpecImpl for GroupedEnvironmentName {
    open spec fn obeys_eq_spec() -> bool {
        true
    }

    open spec fn eq_spec(&self, other: &Self) -> bool {
        match (self, other) {
            (GroupedEnvironmentName::Group(a), GroupedEnvironmentName::Group(b)) => a@ == b@,
            (
                GroupedEnvironmentName::Environment(a),
                GroupedEnvironmentName::Environment(b),
            ) => vstd::std_specs::cmp::PartialEqSpec::eq_spec(a, b),
            _ => false,
        }
    }
}

/// Relies on console::Style: rendering an `apply_to` result writes an escape
/// prefix when styling is enabled for the process, then the text verbatim,
/// then a reset — so the name always stands in one piece in the result.
/// Solve-group names are styled cyan.
#[verifier::external_body]
fn style_solve_group_name(name: &str) -> (r: String)
    ensures
        carries_text(r@, name@),
{
    console::Style::new().cyan().apply_to(name).to_string()
}

/// Relies on console::Style, as `style_solve_group_name` does; environment
/// names are styled magenta, so the two kinds are visually distinct.
#[verifier::external_body]
fn style_environment_name(name: &str) -> (r: String)
    ensures
        carries_text(r@, name@),
{
    console::Style::new().magenta().apply_to(name).to_string()
}

} // verus!
