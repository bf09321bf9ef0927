//! What to do with the entries of a directory walk.

use vstd::prelude::*;

verus! {

/// Whether the two strings hold the same text.
pub fn same_text(a: &str, b: &str) -> (same: bool)
    ensures
        same == (a@ == b@),
{
    a.to_owned() == b.to_owned()
}

/// Whether `name` is the name of a directory that holds no source of a
/// project: version-control metadata, or a cache of outside assets.
pub open spec fn is_noise_directory(name: Seq<char>) -> bool {
    name == ".git"@ || name == ".urc"@ || name == "__ExternalActors__"@ || name
        == "__ExternalObjects__"@
}

/// What a walk does with one entry.
#[derive(Debug, Clone, Copy, PartialEq, Eq, Structural)]
pub enum WalkDecision {
    /// Leave the entry out, and everything below it.
    Skip,
    /// Take the entry as a result, and go on.
    Collect,
    /// Go on.
    Continue,
}

/// What a walk that looks for files with the extension `wanted` does with an
/// entry of this name and this extension. A name that is noise is skipped
/// whatever its extension.
pub open spec fn decision_for(
    file_name: Option<Seq<char>>,
    extension: Option<Seq<char>>,
    wanted: Seq<char>,
) -> WalkDecision {
    if file_name is Some && is_noise_directory(file_name.unwrap()) {
        WalkDecision::Skip
    } else if extension == Some(wanted) {
        WalkDecision::Collect
    } else {
        WalkDecision::Continue
    }
}

/// What a walk that looks for files with the extension `wanted` does with an
/// entry of this name and this extension.
pub fn walk_decision(file_name: Option<&str>, extension: Option<&str>, wanted: &str) -> (decision:
    WalkDecision)
    ensures
        decision == decision_for(
            match file_name {
                Some(name) => Some(name@),
                None => None,
            },
            match extension {
                Some(extension) => Some(extension@),
                None => None,
            },
            wanted@,
        ),
{
    if let Some(name) = file_name {
        if same_text(name, ".git") || same_text(name, ".urc") || same_text(
            name,
            "__ExternalActors__",
        ) || same_text(name, "__ExternalObjects__") {
            return WalkDecision::Skip;
        }
    }
    if let Some(extension) = extension {
        if same_text(extension, wanted) {
            return WalkDecision::Collect;
        }
    }
    WalkDecision::Continue
}

} // verus!
