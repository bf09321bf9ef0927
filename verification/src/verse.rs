//! Project containers: what the server keeps of one project.

use crate::diagnostics::{Diagnostic, DiagnosticAccumulator};
use crate::paths::{
    file_path_uri, module_path_of, module_path_to_root, path_has_prefix, path_starts_with,
    uri_from_file_path,
};
use crate::protocol::WorkspaceFolder;
use crate::span::{newline_offsets, FileState, SpanSource};
use crate::uri_map::{UriMap, UriSet};
use crate::vproject::{VProjectFile, VProjectPackage};
use vstd::prelude::*;
use vstd::string::StringSliceAdditionalSpecFns;

verus! {

/// The analysis engine's handle of a project. It is handed on, never read.
#[derive(Debug)]
pub struct CProjectContainer(pub usize);

/// The analysis engine's handle of a package. It is handed on, never read.
#[derive(Debug)]
pub struct CSourcePackage(pub usize);

/// One package of a project, with the directory that holds its sources.
#[derive(Debug)]
pub struct SourcePackage {
    pub name: String,
    /// The logical import path of the package.
    pub verse_path: String,
    /// The directory of the package, in canonical form.
    pub dir_path: String,
    pub c_package: CSourcePackage,
}

impl SourcePackage {
    /// The package that a descriptor declares as `declared`, with its
    /// directory in canonical form and the analysis engine's handle of it.
    pub fn from_descriptor(
        declared: &VProjectPackage,
        dir_path: String,
        c_package: CSourcePackage,
    ) -> (package: Self)
        ensures
            package.name == declared.desc.name,
            package.verse_path == declared.desc.settings.verse_path,
            package.dir_path == dir_path,
            package.c_package == c_package,
    {
        SourcePackage {
            name: declared.desc.name.clone(),
            verse_path: declared.desc.settings.verse_path.clone(),
            dir_path,
            c_package,
        }
    }
}

/// A source text for the analysis engine to take in.
#[derive(Debug)]
pub struct UpsertSource {
    /// The index of the package among its container's packages.
    pub package: usize,
    pub path: String,
    /// The directory of the file, relative to the root of the package.
    pub module_path_to_root: String,
    pub contents: String,
}

/// The indices of the packages whose directory is a prefix of `path`, in
/// increasing order.
pub open spec fn owning_packages(packages: Seq<SourcePackage>, path: Seq<char>) -> Seq<int>
    decreases packages.len(),
{
    if packages.len() == 0 {
        Seq::empty()
    } else if path_has_prefix(path, packages.last().dir_path@) {
        owning_packages(packages.drop_last(), path).push(packages.len() - 1)
    } else {
        owning_packages(packages.drop_last(), path)
    }
}

/// Every index of `owning_packages` is the index of a package whose
/// directory is a prefix of `path`.
pub proof fn lemma_owning_packages(packages: Seq<SourcePackage>, path: Seq<char>)
    ensures
        forall|k: int|
            0 <= k < owning_packages(packages, path).len() ==> 0 <= #[trigger] owning_packages(
                packages,
                path,
            )[k] < packages.len() && path_has_prefix(
                path,
                packages[owning_packages(packages, path)[k]].dir_path@,
            ),
        owning_packages(packages, path).len() == 0 <==> forall|p: int|
            0 <= p < packages.len() ==> !path_has_prefix(path, (#[trigger] packages[p]).dir_path@),
    decreases packages.len(),
{
    if packages.len() > 0 {
        let front = packages.drop_last();
        lemma_owning_packages(front, path);
        if owning_packages(packages, path).len() == 0 {
            assert forall|p: int| 0 <= p < packages.len() implies !path_has_prefix(
                path,
                (#[trigger] packages[p]).dir_path@,
            ) by {
                if p < front.len() {
                    assert(front[p] == packages[p]);
                }
            }
        }
    }
}

/// Whether `upsert` is the text `contents` of the file at `path` for the
/// package at index `package`.
pub open spec fn upsert_for(
    upsert: UpsertSource,
    packages: Seq<SourcePackage>,
    package: int,
    path: Seq<char>,
    contents: Seq<char>,
) -> bool {
    &&& upsert.package == package
    &&& upsert.path@ == path
    &&& upsert.module_path_to_root@ == module_path_of(path, packages[package].dir_path@)
    &&& upsert.contents@ == contents
}

/// Whether `upserts` holds the text `contents` of the file at `path` once
/// for each index of `expected`, in that order.
pub open spec fn upserts_for(
    upserts: Seq<UpsertSource>,
    packages: Seq<SourcePackage>,
    expected: Seq<int>,
    path: Seq<char>,
    contents: Seq<char>,
) -> bool {
    &&& upserts.len() == expected.len()
    &&& forall|k: int|
        0 <= k < upserts.len() ==> upsert_for(
            #[trigger] upserts[k],
            packages,
            expected[k],
            path,
            contents,
        )
}

/// The packages that take in a new text of the file at `path`: those whose
/// directory is a prefix of it, and none where the path has no URI.
pub open spec fn packages_to_update(packages: Seq<SourcePackage>, path: Seq<char>) -> Seq<int> {
    if file_path_uri(path) is Some {
        owning_packages(packages, path)
    } else {
        Seq::empty()
    }
}

/// All that the server keeps of the project of one descriptor.
pub struct ProjectContainer {
    /// The workspace folder under which the descriptor was found.
    pub workspace_folder: WorkspaceFolder,
    /// The URI of the descriptor.
    pub vproject_uri: String,
    /// The descriptor's contents.
    pub vproject_file: VProjectFile,
    pub c_container: CProjectContainer,
    pub packages: Vec<SourcePackage>,
    /// The diagnostics of the last build, by document.
    pub diagnostics: UriMap<Vec<Diagnostic>>,
    /// The documents that had diagnostics and have none now, and of which
    /// the client has not been told yet.
    pub stale_diagnostic_uris: UriSet,
    /// What is known of each document's text.
    pub file_cache: UriMap<FileState>,
    /// Whether a source has changed since the last build.
    pub needs_build: bool,
}

impl ProjectContainer {
    /// A container that has seen no source and no build.
    pub fn new(
        workspace_folder: WorkspaceFolder,
        vproject_uri: String,
        vproject_file: VProjectFile,
        c_container: CProjectContainer,
        packages: Vec<SourcePackage>,
    ) -> (container: Self)
        ensures
            container.workspace_folder == workspace_folder,
            container.vproject_uri == vproject_uri,
            container.vproject_file == vproject_file,
            container.c_container == c_container,
            container.packages == packages,
            container.diagnostics.keys() == Seq::<Seq<char>>::empty(),
            container.stale_diagnostic_uris.uris() == Seq::<Seq<char>>::empty(),
            container.file_cache.keys() == Seq::<Seq<char>>::empty(),
            !container.needs_build,
    {
        ProjectContainer {
            workspace_folder,
            vproject_uri,
            vproject_file,
            c_container,
            packages,
            diagnostics: UriMap::new(),
            stale_diagnostic_uris: UriSet::new(),
            file_cache: UriMap::new(),
            needs_build: false,
        }
    }

    /// Whether `after` is `self` but for the fields that a build sets.
    pub open spec fn same_project(&self, after: &ProjectContainer) -> bool {
        &&& after.workspace_folder == self.workspace_folder
        &&& after.vproject_uri == self.vproject_uri
        &&& after.vproject_file == self.vproject_file
        &&& after.c_container == self.c_container
        &&& after.packages == self.packages
        &&& after.file_cache == self.file_cache
    }

    /// Whether a build that reported `acc` lists a diagnostic under `uri`.
    pub open spec fn reports(&self, acc: &DiagnosticAccumulator, uri: Seq<char>) -> bool {
        acc.diagnostics.contains_key(uri) || (acc.global_diagnostics@.len() > 0 && uri
            == self.vproject_uri@)
    }

    /// What a build that reported `acc` lists under `uri`: the diagnostics of
    /// the document, and behind them, under the descriptor's URI, those of
    /// the project as a whole.
    pub open spec fn reported(&self, acc: &DiagnosticAccumulator, uri: Seq<char>) -> Seq<
        Diagnostic,
    > {
        if acc.global_diagnostics@.len() > 0 && uri == self.vproject_uri@ {
            acc.diagnostics.list_of(uri) + acc.global_diagnostics@
        } else {
            acc.diagnostics.list_of(uri)
        }
    }

    /// Takes in what a build reported. The documents that had diagnostics and
    /// have none now become stale.
    pub fn build(&mut self, diagnostic_acc: DiagnosticAccumulator)
        ensures
            old(self).same_project(final(self)),
            !final(self).needs_build,
            forall|uri: Seq<char>| #[trigger]
                final(self).diagnostics.contains_key(uri) <==> old(self).reports(
                    &diagnostic_acc,
                    uri,
                ),
            forall|uri: Seq<char>| #[trigger]
                final(self).diagnostics.list_of(uri) == old(self).reported(&diagnostic_acc, uri),
            forall|uri: Seq<char>| #[trigger]
                final(self).stale_diagnostic_uris.contains(uri) <==> old(
                    self,
                ).stale_diagnostic_uris.contains(uri) || (old(self).diagnostics.contains_key(uri)
                    && !old(self).reports(&diagnostic_acc, uri)),
    {
        let DiagnosticAccumulator { global_diagnostics, diagnostics } = diagnostic_acc;
        let mut diagnostics = diagnostics;
        let ghost reported_keys = diagnostics.keys();
        proof {
            use_type_invariant(&diagnostics);
            diagnostics.lemma_wf();
        }
        if global_diagnostics.len() > 0 {
            diagnostics.append_all(self.vproject_uri.clone(), global_diagnostics);
            assert forall|uri: Seq<char>| #[trigger]
                diagnostics.contains_key(uri) <==> old(self).reports(&diagnostic_acc, uri) by {
                let pushed = reported_keys.push(self.vproject_uri@);
                if reported_keys.contains(uri) {
                    let j = reported_keys.index_of(uri);
                    assert(reported_keys[j] == uri);
                    assert(pushed[j] == uri);
                }
                if uri == self.vproject_uri@ {
                    assert(pushed[pushed.len() - 1] == uri);
                }
            }
        }
        let mut i: usize = 0;
        while i < self.diagnostics.len()
            invariant
                i <= self.diagnostics.keys().len(),
                self.diagnostics == old(self).diagnostics,
                old(self).same_project(self),
                self.needs_build == old(self).needs_build,
                forall|uri: Seq<char>| #[trigger]
                    diagnostics.contains_key(uri) <==> old(self).reports(&diagnostic_acc, uri),
                forall|uri: Seq<char>| #[trigger]
                    self.stale_diagnostic_uris.contains(uri) <==> old(
                        self,
                    ).stale_diagnostic_uris.contains(uri) || (self.diagnostics.keys().take(
                        i as int,
                    ).contains(uri) && !old(self).reports(&diagnostic_acc, uri)),
            decreases self.diagnostics.keys().len() - i,
        {
            let uri = self.diagnostics.key_at(i);
            let ghost stale_before = self.stale_diagnostic_uris;
            let reported = diagnostics.find(uri).is_some();
            assert(reported == old(self).reports(&diagnostic_acc, uri@)) by {
                assert(diagnostics.contains_key(uri@) <==> old(self).reports(
                    &diagnostic_acc,
                    uri@,
                ));
            }
            if !reported {
                self.stale_diagnostic_uris.insert(uri.clone());
            }
            proof {
                let keys = self.diagnostics.keys();
                assert(keys.take(i + 1) == keys.take(i as int).push(keys[i as int]));
                assert forall|u: Seq<char>| #[trigger]
                    self.stale_diagnostic_uris.contains(u) <==> old(
                        self,
                    ).stale_diagnostic_uris.contains(u) || (keys.take(i + 1).contains(u) && !old(
                        self,
                    ).reports(&diagnostic_acc, u)) by {
                    vstd::seq_lib::lemma_seq_contains_after_push(
                        keys.take(i as int),
                        keys[i as int],
                        u,
                    );
                    assert(stale_before.contains(u) <==> old(self).stale_diagnostic_uris.contains(
                        u,
                    ) || (keys.take(i as int).contains(u) && !old(self).reports(
                        &diagnostic_acc,
                        u,
                    )));
                    if reported {
                        assert(self.stale_diagnostic_uris == stale_before);
                    } else {
                        assert(self.stale_diagnostic_uris.contains(u) <==> stale_before.contains(u)
                            || u == uri@);
                    }
                }
            }
            i += 1;
        }
        proof {
            assert forall|uri: Seq<char>| #[trigger]
                self.stale_diagnostic_uris.contains(uri) <==> old(
                    self,
                ).stale_diagnostic_uris.contains(uri) || (old(self).diagnostics.contains_key(uri)
                    && !old(self).reports(&diagnostic_acc, uri)) by {
                assert(old(self).diagnostics.keys().take(i as int) == old(
                    self,
                ).diagnostics.keys());
            }
        }
        self.diagnostics = diagnostics;
        self.needs_build = false;
    }

    /// Whether `after` is `self` but for the file states and the build flag.
    pub open spec fn same_but_files(&self, after: &ProjectContainer) -> bool {
        &&& after.workspace_folder == self.workspace_folder
        &&& after.vproject_uri == self.vproject_uri
        &&& after.vproject_file == self.vproject_file
        &&& after.c_container == self.c_container
        &&& after.packages == self.packages
        &&& after.diagnostics == self.diagnostics
        &&& after.stale_diagnostic_uris == self.stale_diagnostic_uris
    }

    /// Whether the file states of `after` are those of `self` with the line
    /// breaks of `contents` stored under `uri`, in place of what was stored
    /// there.
    pub open spec fn files_cached(
        &self,
        after: &ProjectContainer,
        uri: Seq<char>,
        contents: Seq<u8>,
    ) -> bool {
        &&& after.file_cache.keys() == if self.file_cache.contains_key(uri) {
            self.file_cache.keys()
        } else {
            self.file_cache.keys().push(uri)
        }
        &&& after.file_cache.contains_key(uri)
        &&& after.file_cache.value_of(uri).span_source@ == newline_offsets(contents)
        &&& forall|k: Seq<char>|
            k != uri && self.file_cache.contains_key(k) ==> #[trigger] after.file_cache.value_of(k)
                == self.file_cache.value_of(k)
    }

    /// Whether `after` is `self` with the line breaks of `contents` stored
    /// under `uri`, in place of what was stored there.
    pub open spec fn cached(&self, after: &ProjectContainer, uri: Seq<char>, contents: Seq<u8>) -> bool {
        &&& self.same_but_files(after)
        &&& after.needs_build == self.needs_build
        &&& self.files_cached(after, uri, contents)
    }

    /// The latest text alone decides what is stored of a document: what an
    /// earlier text left there is gone.
    pub proof fn lemma_latest_text_wins(
        &self,
        mid: &ProjectContainer,
        after: &ProjectContainer,
        uri: Seq<char>,
        first: Seq<u8>,
        second: Seq<u8>,
    )
        requires
            self.files_cached(mid, uri, first),
            mid.files_cached(after, uri, second),
        ensures
            self.files_cached(after, uri, second),
            after.file_cache.value_of(uri).span_source@ == newline_offsets(second),
            after.file_cache.keys() == mid.file_cache.keys(),
    {
        assert forall|k: Seq<char>| k != uri && self.file_cache.contains_key(k) implies
            #[trigger] after.file_cache.value_of(k) == self.file_cache.value_of(k) by {
            vstd::seq_lib::lemma_seq_contains_after_push(self.file_cache.keys(), uri, k);
            assert(mid.file_cache.contains_key(k));
            assert(mid.file_cache.value_of(k) == self.file_cache.value_of(k));
        }
    }

    /// Stores the line breaks of `contents` as the state of the document
    /// `uri`, in place of any earlier state.
    pub fn cache_file_state(&mut self, uri: String, contents: &str)
        ensures
            old(self).cached(final(self), uri@, contents.spec_bytes()),
    {
        let state = FileState { span_source: SpanSource::new(contents) };
        self.file_cache.insert(uri, state);
    }

    /// Takes the new text of the file at `path`, which belongs to the package
    /// at index `package`: stores its line breaks under the file's URI and
    /// says what the analysis engine is to take in. A path that has no URI
    /// changes nothing.
    pub fn update_source(&mut self, package: usize, path: &str, contents: &str) -> (upsert: Option<
        UpsertSource,
    >)
        requires
            package < old(self).packages.len(),
        ensures
            match file_path_uri(path@) {
                None => upsert is None && *final(self) == *old(self),
                Some(uri) => {
                    &&& old(self).cached(final(self), uri, contents.spec_bytes())
                    &&& upsert is Some
                    &&& upsert.unwrap().package == package
                    &&& upsert.unwrap().path@ == path@
                    &&& upsert.unwrap().module_path_to_root@ == module_path_of(
                        path@,
                        old(self).packages[package as int].dir_path@,
                    )
                    &&& upsert.unwrap().contents@ == contents@
                },
            },
    {
        let uri = match uri_from_file_path(path) {
            Some(uri) => uri,
            None => {
                return None;
            },
        };
        self.cache_file_state(uri, contents);
        let module_path_to_root = module_path_to_root(path, self.packages[package].dir_path.as_str());
        Some(
            UpsertSource {
                package,
                path: path.to_owned(),
                module_path_to_root,
                contents: contents.to_owned(),
            },
        )
    }

    /// Whether `after` is `self` after a new text `contents` of the file at
    /// `path`: a build is needed, and the line breaks of the text are stored
    /// under the file's URI where a package of the container holds the file.
    pub open spec fn edited(
        &self,
        after: &ProjectContainer,
        path: Seq<char>,
        contents: Seq<u8>,
    ) -> bool {
        &&& self.same_but_files(after)
        &&& after.needs_build
        &&& if packages_to_update(self.packages@, path).len() > 0 {
            self.files_cached(after, file_path_uri(path).unwrap(), contents)
        } else {
            after.file_cache == self.file_cache
        }
    }

    /// Takes the new text of the file at `path` for every package whose
    /// directory holds the file, and marks the container as in need of a
    /// build. The result says what the analysis engine is to take in, package
    /// by package.
    pub fn update_sources(&mut self, path: &str, contents: &str) -> (upserts: Vec<UpsertSource>)
        ensures
            old(self).edited(final(self), path@, contents.spec_bytes()),
            upserts_for(
                upserts@,
                old(self).packages@,
                packages_to_update(old(self).packages@, path@),
                path@,
                contents@,
            ),
    {
        let mut upserts: Vec<UpsertSource> = Vec::new();
        let ghost packages = self.packages@;
        let ghost bytes = contents.spec_bytes();
        let mut p: usize = 0;
        proof {
            assert(packages.take(0) == Seq::<SourcePackage>::empty());
        }
        while p < self.packages.len()
            invariant
                p <= packages.len(),
                packages == self.packages@,
                packages == old(self).packages@,
                bytes == contents.spec_bytes(),
                old(self).same_but_files(self),
                self.needs_build == old(self).needs_build,
                if packages_to_update(packages.take(p as int), path@).len() > 0 {
                    old(self).files_cached(self, file_path_uri(path@).unwrap(), bytes)
                } else {
                    self.file_cache == old(self).file_cache
                },
                upserts_for(
                    upserts@,
                    packages,
                    packages_to_update(packages.take(p as int), path@),
                    path@,
                    contents@,
                ),
            decreases packages.len() - p,
        {
            let ghost mid = *self;
            let ghost listed = upserts@;
            proof {
                assert(packages.take(p + 1).drop_last() == packages.take(p as int));
                assert(packages.take(p + 1).last() == packages[p as int]);
            }
            let owned = path_starts_with(path, self.packages[p].dir_path.as_str());
            if owned {
                match self.update_source(p, path, contents) {
                    Some(upsert) => {
                        upserts.push(upsert);
                        proof {
                            let uri = file_path_uri(path@).unwrap();
                            if packages_to_update(packages.take(p as int), path@).len() > 0 {
                                old(self).lemma_latest_text_wins(&mid, self, uri, bytes, bytes);
                            }
                            assert forall|k: int| 0 <= k < upserts@.len() implies upsert_for(
                                #[trigger] upserts@[k],
                                packages,
                                packages_to_update(packages.take(p + 1), path@)[k],
                                path@,
                                contents@,
                            ) by {
                                if k < listed.len() {
                                    assert(upserts@[k] == listed[k]);
                                }
                            }
                        }
                    },
                    None => {},
                }
            }
            p += 1;
        }
        proof {
            assert(packages.take(p as int) == packages);
        }
        self.needs_build = true;
        upserts
    }
}

} // verus!
