//! Values in the form in which they cross to the analysis engine.

use crate::vproject::PackageSettings;
use vstd::prelude::*;

verus! {

/// The settings of a package as the analysis engine takes them.
#[derive(Debug)]
pub struct SPackageSettings {
    pub verse_path: String,
    pub verse_scope: u8,
    pub role: u8,
    /// Whether `verse_version` was fixed by the descriptor.
    pub explicit_verse_version: bool,
    pub verse_version: u32,
    /// The version of the game that the package is analysed for.
    pub fortnite_version: u32,
    pub treat_modules_as_implicit: bool,
    pub dependency_packages: Vec<String>,
    pub vni_dest_dir: Option<String>,
    pub allow_experimental: bool,
}

/// A copy of `names`.
pub fn clone_names(names: &Vec<String>) -> (copy: Vec<String>)
    ensures
        copy@ == names@,
{
    let mut copy: Vec<String> = Vec::new();
    let mut i: usize = 0;
    while i < names.len()
        invariant
            i <= names.len(),
            copy@ == names@.take(i as int),
        decreases names.len() - i,
    {
        copy.push(names[i].clone());
        assert(names@.take(i + 1) == names@.take(i as int).push(names@[i as int]));
        i += 1;
    }
    assert(names@.take(i as int) == names@);
    copy
}

impl PackageSettings {
    /// Whether `lowered` says what `self` says for the game version
    /// `fortnite_version`: scope and role by their numbers, and a language
    /// version of zero, marked as not explicit, where the descriptor fixes
    /// none.
    pub open spec fn lowers_to(&self, lowered: SPackageSettings, fortnite_version: u32) -> bool {
        &&& lowered.verse_path == self.verse_path
        &&& lowered.fortnite_version == fortnite_version
        &&& lowered.verse_scope == self.verse_scope.code_of()
        &&& lowered.role == self.role.code_of()
        &&& lowered.explicit_verse_version == self.verse_version.is_some()
        &&& lowered.verse_version == match self.verse_version {
            Some(version) => version,
            None => 0,
        }
        &&& lowered.treat_modules_as_implicit == self.treat_modules_as_implicit
        &&& lowered.dependency_packages@ == self.dependency_packages@
        &&& lowered.vni_dest_dir == self.vni_dest_dir
        &&& lowered.allow_experimental == self.allow_experimental
    }

    /// The settings as the analysis engine takes them, for the game version
    /// `fortnite_version`.
    pub fn lower(&self, fortnite_version: u32) -> (lowered: SPackageSettings)
        ensures
            self.lowers_to(lowered, fortnite_version),
    {
        SPackageSettings {
            verse_path: self.verse_path.clone(),
            verse_scope: self.verse_scope.code(),
            role: self.role.code(),
            explicit_verse_version: self.verse_version.is_some(),
            verse_version: match self.verse_version {
                Some(version) => version,
                None => 0,
            },
            fortnite_version,
            treat_modules_as_implicit: self.treat_modules_as_implicit,
            dependency_packages: clone_names(&self.dependency_packages),
            vni_dest_dir: match &self.vni_dest_dir {
                Some(dir) => Some(dir.clone()),
                None => None,
            },
            allow_experimental: self.allow_experimental,
        }
    }
}

} // verus!
