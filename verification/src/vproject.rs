//! The contents of a project descriptor.

use vstd::prelude::*;

verus! {

/// A project descriptor: the packages that make up one project.
#[derive(Debug)]
pub struct VProjectFile {
    pub packages: Vec<VProjectPackage>,
}

/// One package of a project descriptor.
#[derive(Debug)]
pub struct VProjectPackage {
    pub desc: PackageDesc,
    pub read_only: bool,
}

/// What a descriptor says of a package.
#[derive(Debug)]
pub struct PackageDesc {
    pub name: String,
    pub dir_path: String,
    pub settings: PackageSettings,
}

/// The settings of a package.
#[derive(Debug)]
pub struct PackageSettings {
    /// The logical import path of the package.
    pub verse_path: String,
    pub verse_scope: VerseScope,
    pub role: PackageRole,
    /// The language version, where the descriptor fixes one.
    pub verse_version: Option<u32>,
    pub treat_modules_as_implicit: bool,
    /// The names of the packages that this one depends on.
    pub dependency_packages: Vec<String>,
    /// The directory that generated native-interface code goes to.
    pub vni_dest_dir: Option<String>,
    pub allow_experimental: bool,
}

/// Who may see the definitions of a package.
#[derive(Clone, Copy, Debug, PartialEq, Eq, Structural)]
pub enum VerseScope {
    PublicAPI,
    InternalAPI,
    PublicUser,
    InternalUser,
}

/// What a package is to its project.
#[derive(Clone, Copy, Debug, PartialEq, Eq, Structural)]
pub enum PackageRole {
    Source,
    External,
    GenerateCompatConstraint,
    PersistenceCompatConstraint,
    PersistenceSoftCompatConstraint,
}

impl VerseScope {
    /// The number by which the analysis engine knows the scope: its place in
    /// the declaration.
    pub open spec fn code_of(self) -> u8 {
        match self {
            VerseScope::PublicAPI => 0,
            VerseScope::InternalAPI => 1,
            VerseScope::PublicUser => 2,
            VerseScope::InternalUser => 3,
        }
    }

    /// The number by which the analysis engine knows the scope.
    pub fn code(self) -> (code: u8)
        ensures
            code == self.code_of(),
    {
        match self {
            VerseScope::PublicAPI => 0,
            VerseScope::InternalAPI => 1,
            VerseScope::PublicUser => 2,
            VerseScope::InternalUser => 3,
        }
    }
}

impl PackageRole {
    /// The role of a package whose descriptor names none.
    pub fn source() -> (role: Self)
        ensures
            role == PackageRole::Source,
    {
        PackageRole::Source
    }

    /// The number by which the analysis engine knows the role: its place in
    /// the declaration.
    pub open spec fn code_of(self) -> u8 {
        match self {
            PackageRole::Source => 0,
            PackageRole::External => 1,
            PackageRole::GenerateCompatConstraint => 2,
            PackageRole::PersistenceCompatConstraint => 3,
            PackageRole::PersistenceSoftCompatConstraint => 4,
        }
    }

    /// The number by which the analysis engine knows the role.
    pub fn code(self) -> (code: u8)
        ensures
            code == self.code_of(),
    {
        match self {
            PackageRole::Source => 0,
            PackageRole::External => 1,
            PackageRole::GenerateCompatConstraint => 2,
            PackageRole::PersistenceCompatConstraint => 3,
            PackageRole::PersistenceSoftCompatConstraint => 4,
        }
    }
}

} // verus!
