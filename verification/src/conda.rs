//! The boundary to the conda type layer.
//!
//! The solver and installer consume channel configuration and virtual
//! packages in the representation of `rattler_conda_types`. Those types are
//! opaque here: this module declares them and wraps the single call that
//! builds a virtual-package record out of plain values.

use vstd::prelude::*;

use crate::version::VersionNumber;

verus! {

/// Relies on rattler_conda_types::ChannelConfig, carried opaquely: the
/// channel configuration of a workspace, handed through to consumers.
#[verifier::external_type_specification]
#[verifier::external_body]
pub struct ExChannelConfig(rattler_conda_types::ChannelConfig);

/// Relies on rattler_conda_types::GenericVirtualPackage, carried opaquely:
/// the record handed to the solver for one virtual package.
#[verifier::external_type_specification]
#[verifier::external_body]
pub struct ExGenericVirtualPackage(rattler_conda_types::GenericVirtualPackage);

/// The characters a conda package name may consist of.
pub open spec fn valid_name_char(c: char) -> bool {
    ('a' <= c && c <= 'z') || ('A' <= c && c <= 'Z') || ('0' <= c && c <= '9') || c == '-' || c
        == '_' || c == '.'
}

/// A valid conda package name: built from letters, digits, `-`, `_` and `.`.
pub open spec fn valid_package_name(s: Seq<char>) -> bool
    decreases s.len(),
{
    s.len() == 0 || (valid_name_char(s[0]) && valid_package_name(s.drop_first()))
}

/// The virtual-package record that the conda type layer builds from a name,
/// a version given by its numeric components, and a build string.
pub uninterp spec fn generic_virtual_package_of(
    name: Seq<char>,
    version: Seq<u64>,
    build: Seq<char>,
) -> rattler_conda_types::GenericVirtualPackage;

/// Relies on rattler_conda_types: `PackageName::try_from` accepts exactly the
/// strings built from `a-z A-Z 0-9 - _ .`, the version parser accepts a
/// dotted sequence of decimal numerals each fitting in a `u64`, and the
/// record assembled from their results depends on the arguments alone.
#[verifier::external_body]
pub fn make_generic_virtual_package(name: &str, version: &VersionNumber, build: &str) -> (r:
    Option<rattler_conda_types::GenericVirtualPackage>)
    ensures
        (r matches Some(g) ==> g == generic_virtual_package_of(name@, version@, build@)),
        valid_package_name(name@) && name@.len() >= 1 && version@.len() >= 1 ==> r is Some,
{
    let text = version.parts.iter().map(|p| p.to_string()).collect::<Vec<String>>().join(".");
    let parsed: rattler_conda_types::Version = text.parse().ok()?;
    let package_name = rattler_conda_types::PackageName::try_from(name.to_string()).ok()?;
    Some(
        rattler_conda_types::GenericVirtualPackage {
            name: package_name,
            version: parsed,
            build_string: build.to_string(),
        },
    )
}

} // verus!
