//! The parts of the consumers' manifests that the boundary checks read.
use vstd::prelude::*;
use crate::table::StringMap;

verus! {

/// A dependency entry of a TOML manifest, reduced to what the checks read:
/// the `path` it names when it is a table whose `path` is a string.
pub struct DependencySpec {
    pub path: Option<String>,
}

/// The TypeScript consumer's `package.json`.
pub struct NodeManifest {
    pub name: String,
    pub dependencies: StringMap<String>,
    pub dev_dependencies: StringMap<String>,
}

/// The `[package]` table of a `Cargo.toml`.
pub struct PackageSection {
    pub name: String,
}

/// The Rust consumer's `Cargo.toml`.
pub struct CargoManifest {
    pub package: PackageSection,
    pub dependencies: StringMap<DependencySpec>,
}

/// The Gleam consumer's `gleam.toml`.
pub struct GleamManifest {
    pub name: String,
    pub dependencies: StringMap<DependencySpec>,
}

/// The path that a dependency entry names, if it names one.
pub open spec fn spec_dependency_path(d: DependencySpec) -> Option<Seq<char>> {
    match d.path {
        Some(p) => Some(p@),
        None => None,
    }
}

} // verus!
