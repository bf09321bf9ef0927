//! Workspace folders, text changes, and the diagnostics that are published.

use crate::diagnostics::{clone_diagnostics, Diagnostic};
use crate::protocol::{
    DidChangeTextDocumentParams, DidChangeWorkspaceFoldersParams, PublishDiagnosticsParams,
    WorkspaceFolder,
};
use crate::server::{LanguageServer, ServerError};
use crate::uri_map::{UriEntry, UriMap};
use crate::verse::{
    packages_to_update, upserts_for, CProjectContainer, ProjectContainer, SourcePackage,
    UpsertSource,
};
use crate::vproject::VProjectFile;
use vstd::prelude::*;
use vstd::utf8::encode_utf8;

verus! {

/// Whether `container` has something to tell of the document `uri`: that it
/// has diagnostics, or that it has none any more.
pub open spec fn reported_by(container: ProjectContainer, uri: Seq<char>) -> bool {
    container.stale_diagnostic_uris.contains(uri) || container.diagnostics.contains_key(uri)
}

/// Whether one of `containers` has something to tell of the document `uri`.
pub open spec fn reported_somewhere(containers: Seq<ProjectContainer>, uri: Seq<char>) -> bool
    decreases containers.len(),
{
    if containers.len() == 0 {
        false
    } else {
        reported_somewhere(containers.drop_last(), uri) || reported_by(containers.last(), uri)
    }
}

/// The diagnostics of the document `uri` in all of `containers`: those of
/// the first container first, and none left out for being there twice.
pub open spec fn merged(containers: Seq<ProjectContainer>, uri: Seq<char>) -> Seq<Diagnostic>
    decreases containers.len(),
{
    if containers.len() == 0 {
        Seq::empty()
    } else {
        merged(containers.drop_last(), uri) + containers.last().diagnostics.list_of(uri)
    }
}

/// Whether `after` is `before` with its stale documents forgotten.
pub open spec fn published(before: ProjectContainer, after: ProjectContainer) -> bool {
    &&& after.stale_diagnostic_uris.uris() == Seq::<Seq<char>>::empty()
    &&& after.workspace_folder == before.workspace_folder
    &&& after.vproject_uri == before.vproject_uri
    &&& after.vproject_file == before.vproject_file
    &&& after.c_container == before.c_container
    &&& after.packages == before.packages
    &&& after.diagnostics == before.diagnostics
    &&& after.file_cache == before.file_cache
    &&& after.needs_build == before.needs_build
}

/// Whether `events` is what is published of `before`, and `after` what is
/// left of it: one event for each document that a container reports on and
/// none for any other, each with the merged diagnostics of its document, and
/// every container with its stale documents forgotten.
pub open spec fn publishes(
    before: Seq<ProjectContainer>,
    after: Seq<ProjectContainer>,
    events: Seq<PublishDiagnosticsParams>,
) -> bool {
    &&& after.len() == before.len()
    &&& forall|i: int| 0 <= i < before.len() ==> published(before[i], #[trigger] after[i])
    &&& forall|i: int, j: int| 0 <= i < j < events.len() ==> events[i].uri@ != events[j].uri@
    &&& forall|uri: Seq<char>|
        (exists|i: int| 0 <= i < events.len() && (#[trigger] events[i]).uri@ == uri)
            <==> #[trigger] reported_somewhere(before, uri)
    &&& forall|i: int|
        0 <= i < events.len() ==> (#[trigger] events[i]).diagnostics@ == merged(
            before,
            events[i].uri@,
        )
}

/// A document that has become stale, and of which no container holds a
/// diagnostic, is told to the client once, with an empty list: the events
/// that are published hold one event for it and no second, that event is
/// empty, and what is published next holds none for it.
pub proof fn lemma_stale_is_cleared_once(
    before: Seq<ProjectContainer>,
    after: Seq<ProjectContainer>,
    events: Seq<PublishDiagnosticsParams>,
    later: Seq<ProjectContainer>,
    next_events: Seq<PublishDiagnosticsParams>,
    uri: Seq<char>,
    at: int,
)
    requires
        0 <= at < before.len(),
        before[at].stale_diagnostic_uris.contains(uri),
        forall|i: int|
            0 <= i < before.len() ==> !(#[trigger] before[i]).diagnostics.contains_key(uri),
        publishes(before, after, events),
        publishes(after, later, next_events),
    ensures
        exists|k: int|
            0 <= k < events.len() && (#[trigger] events[k]).uri@ == uri
                && events[k].diagnostics@.len() == 0 && forall|j: int|
                0 <= j < events.len() && j != k ==> (#[trigger] events[j]).uri@ != uri,
        forall|k: int| 0 <= k < next_events.len() ==> (#[trigger] next_events[k]).uri@ != uri,
{
    lemma_reported_somewhere(before, uri);
    assert(reported_by(before[at], uri));
    assert(reported_somewhere(before, uri));
    let k = choose|k: int| 0 <= k < events.len() && (#[trigger] events[k]).uri@ == uri;
    lemma_merged_empty(before, uri);
    assert(events[k].diagnostics@ == merged(before, events[k].uri@));
    assert forall|j: int| 0 <= j < events.len() && j != k implies (#[trigger] events[j]).uri@
        != uri by {
        if j < k {
            assert(events[j].uri@ != events[k].uri@);
        } else {
            assert(events[k].uri@ != events[j].uri@);
        }
    }
    lemma_reported_somewhere(after, uri);
    assert forall|i: int| 0 <= i < after.len() implies !reported_by(#[trigger] after[i], uri) by {
        assert(published(before[i], after[i]));
        assert(!before[i].diagnostics.contains_key(uri));
        assert(after[i].stale_diagnostic_uris.uris() == Seq::<Seq<char>>::empty());
    }
    assert(!reported_somewhere(after, uri));
    assert forall|k: int| 0 <= k < next_events.len() implies (#[trigger] next_events[k]).uri@
        != uri by {
        if next_events[k].uri@ == uri {
            assert(exists|i: int|
                0 <= i < next_events.len() && (#[trigger] next_events[i]).uri@ == uri);
        }
    }
}

/// A container that is registered after its folder was removed is the only
/// container under that folder, and it holds nothing of what the containers
/// that left had: no diagnostics, no stale document and no file state.
pub proof fn lemma_registration_after_removal(
    containers: Seq<ProjectContainer>,
    removed: Seq<WorkspaceFolder>,
    registered: ProjectContainer,
    uri: Seq<char>,
)
    requires
        registered.diagnostics.keys() == Seq::<Seq<char>>::empty(),
        registered.stale_diagnostic_uris.uris() == Seq::<Seq<char>>::empty(),
        registered.file_cache.keys() == Seq::<Seq<char>>::empty(),
    ensures
        forall|k: int|
            0 <= k < containers_kept(containers, removed).push(registered).len() && names_folder(
                removed,
                (#[trigger] containers_kept(containers, removed).push(
                    registered,
                )[k]).workspace_folder,
            ) ==> containers_kept(containers, removed).push(registered)[k] == registered,
        !reported_by(registered, uri),
        !registered.file_cache.contains_key(uri),
{
    lemma_containers_kept(containers, removed);
    let kept = containers_kept(containers, removed);
    let after = kept.push(registered);
    assert forall|k: int|
        0 <= k < after.len() && names_folder(
            removed,
            (#[trigger] after[k]).workspace_folder,
        ) implies after[k] == registered by {
        if k < kept.len() {
            assert(after[k] == kept[k]);
            assert(!names_folder(removed, kept[k].workspace_folder));
        }
    }
}

/// A document is reported somewhere exactly if one of the containers
/// lists it as stale or holds diagnostics of it.
pub proof fn lemma_reported_somewhere(containers: Seq<ProjectContainer>, uri: Seq<char>)
    ensures
        reported_somewhere(containers, uri) <==> exists|i: int|
            0 <= i < containers.len() && reported_by(#[trigger] containers[i], uri),
    decreases containers.len(),
{
    if containers.len() > 0 {
        let front = containers.drop_last();
        lemma_reported_somewhere(front, uri);
        if reported_somewhere(containers, uri) {
            if reported_by(containers.last(), uri) {
                assert(reported_by(containers[containers.len() - 1], uri));
            } else {
                let i = choose|i: int| 0 <= i < front.len() && reported_by(#[trigger] front[i], uri);
                assert(reported_by(containers[i], uri));
            }
        }
        if exists|i: int| 0 <= i < containers.len() && reported_by(#[trigger] containers[i], uri) {
            let i = choose|i: int|
                0 <= i < containers.len() && reported_by(#[trigger] containers[i], uri);
            if i < front.len() {
                assert(reported_by(front[i], uri));
            }
        }
    }
}

/// Where no container holds diagnostics of a document, the merge holds none.
pub proof fn lemma_merged_empty(containers: Seq<ProjectContainer>, uri: Seq<char>)
    requires
        forall|i: int|
            0 <= i < containers.len() ==> !(#[trigger] containers[i]).diagnostics.contains_key(uri),
    ensures
        merged(containers, uri) == Seq::<Diagnostic>::empty(),
    decreases containers.len(),
{
    if containers.len() > 0 {
        lemma_merged_empty(containers.drop_last(), uri);
    }
}

/// What the server tells its client of its handling of workspace folders.
#[derive(Debug, Clone, Copy, PartialEq, Eq, Structural)]
pub struct WorkspaceServerCapabilities {
    /// Whether the server works with workspace folders.
    pub supported: bool,
    /// Whether the server wants to be told when the folders change.
    pub change_notifications: bool,
}

/// What the server tells its client of its handling of workspace folders: it
/// works with them, and wants to be told when they change.
pub fn capabilities_workspace_folders() -> (capabilities: WorkspaceServerCapabilities)
    ensures
        capabilities.supported,
        capabilities.change_notifications,
{
    WorkspaceServerCapabilities { supported: true, change_notifications: true }
}

/// Whether `folder` is one of `folders`, by URI and by name.
pub open spec fn names_folder(folders: Seq<WorkspaceFolder>, folder: WorkspaceFolder) -> bool {
    exists|i: int| 0 <= i < folders.len() && (#[trigger] folders[i]).same(&folder)
}

/// Whether one of `folders` has the URI of `folder`.
pub open spec fn names_uri(folders: Seq<WorkspaceFolder>, folder: WorkspaceFolder) -> bool {
    exists|i: int| 0 <= i < folders.len() && (#[trigger] folders[i]).uri@ == folder.uri@
}

/// The containers that stay when the folders `removed` go: those that were
/// found under another folder, in their order.
pub open spec fn containers_kept(
    containers: Seq<ProjectContainer>,
    removed: Seq<WorkspaceFolder>,
) -> Seq<ProjectContainer>
    decreases containers.len(),
{
    if containers.len() == 0 {
        Seq::empty()
    } else if names_folder(removed, containers.last().workspace_folder) {
        containers_kept(containers.drop_last(), removed)
    } else {
        containers_kept(containers.drop_last(), removed).push(containers.last())
    }
}

/// The containers that go with the folders `removed`: those that were found
/// under one of them, in their order.
pub open spec fn containers_dropped(
    containers: Seq<ProjectContainer>,
    removed: Seq<WorkspaceFolder>,
) -> Seq<ProjectContainer>
    decreases containers.len(),
{
    if containers.len() == 0 {
        Seq::empty()
    } else if names_folder(removed, containers.last().workspace_folder) {
        containers_dropped(containers.drop_last(), removed).push(containers.last())
    } else {
        containers_dropped(containers.drop_last(), removed)
    }
}

/// The folders that stay when the folders `removed` go: those whose URI is
/// not the URI of one that goes, in their order.
pub open spec fn folders_kept(folders: Seq<WorkspaceFolder>, removed: Seq<WorkspaceFolder>) -> Seq<
    WorkspaceFolder,
>
    decreases folders.len(),
{
    if folders.len() == 0 {
        Seq::empty()
    } else if names_uri(removed, folders.last()) {
        folders_kept(folders.drop_last(), removed)
    } else {
        folders_kept(folders.drop_last(), removed).push(folders.last())
    }
}

/// Every container that stays was there before, and none that stays was
/// found under a folder that goes.
pub proof fn lemma_containers_kept(containers: Seq<ProjectContainer>, removed: Seq<WorkspaceFolder>)
    ensures
        forall|i: int|
            0 <= i < containers_kept(containers, removed).len() ==> containers.contains(
                #[trigger] containers_kept(containers, removed)[i],
            ) && !names_folder(removed, containers_kept(containers, removed)[i].workspace_folder),
    decreases containers.len(),
{
    if containers.len() > 0 {
        let front = containers.drop_last();
        lemma_containers_kept(front, removed);
        let kept = containers_kept(containers, removed);
        assert forall|i: int| 0 <= i < kept.len() implies containers.contains(#[trigger] kept[i])
            && !names_folder(removed, kept[i].workspace_folder) by {
            if i < containers_kept(front, removed).len() {
                let before = containers_kept(front, removed)[i];
                assert(front.contains(before));
                let j = front.index_of(before);
                assert(front[j] == before);
                assert(containers[j] == before);
            } else {
                assert(kept[i] == containers[containers.len() - 1]);
            }
        }
    }
}

/// Where no two containers belong to one descriptor, no two of those that
/// stay do.
pub proof fn lemma_kept_distinct(containers: Seq<ProjectContainer>, removed: Seq<WorkspaceFolder>)
    requires
        forall|i: int, j: int|
            0 <= i < j < containers.len() ==> containers[i].vproject_uri@
                != containers[j].vproject_uri@,
    ensures
        forall|i: int, j: int|
            0 <= i < j < containers_kept(containers, removed).len() ==> containers_kept(
                containers,
                removed,
            )[i].vproject_uri@ != containers_kept(containers, removed)[j].vproject_uri@,
        forall|i: int|
            0 <= i < containers_kept(containers, removed).len() ==> exists|k: int|
                0 <= k < containers.len() && containers[k] == #[trigger] containers_kept(
                    containers,
                    removed,
                )[i],
    decreases containers.len(),
{
    if containers.len() > 0 {
        let front = containers.drop_last();
        let last = containers.last();
        lemma_kept_distinct(front, removed);
        let kept_front = containers_kept(front, removed);
        let kept = containers_kept(containers, removed);
        assert forall|i: int| 0 <= i < kept.len() implies exists|k: int|
            0 <= k < containers.len() && containers[k] == #[trigger] kept[i] by {
            if i < kept_front.len() {
                let k = choose|k: int| 0 <= k < front.len() && front[k] == kept_front[i];
                assert(containers[k] == kept[i]);
            } else {
                assert(containers[containers.len() - 1] == kept[i]);
            }
        }
        assert forall|i: int, j: int| 0 <= i < j < kept.len() implies kept[i].vproject_uri@
            != kept[j].vproject_uri@ by {
            if j >= kept_front.len() {
                let k = choose|k: int| 0 <= k < front.len() && front[k] == kept_front[i];
                assert(containers[k] == kept[i]);
                assert(kept[j] == containers[containers.len() - 1]);
            }
        }
    }
}

/// Whether `container` is a container that has seen no source and no build,
/// made of these parts.
pub open spec fn fresh(
    container: ProjectContainer,
    vproject_uri: String,
    workspace_folder: WorkspaceFolder,
    vproject_file: VProjectFile,
    c_container: CProjectContainer,
    packages: Vec<SourcePackage>,
) -> bool {
    &&& container.vproject_uri == vproject_uri
    &&& container.workspace_folder == workspace_folder
    &&& container.vproject_file == vproject_file
    &&& container.c_container == c_container
    &&& container.packages == packages
    &&& container.diagnostics.keys() == Seq::<Seq<char>>::empty()
    &&& container.stale_diagnostic_uris.uris() == Seq::<Seq<char>>::empty()
    &&& container.file_cache.keys() == Seq::<Seq<char>>::empty()
    &&& !container.needs_build
}

/// What a change of the workspace folders leaves for the caller to do.
pub struct WorkspaceFoldersChange {
    /// The containers that left the server, for the analysis engine to
    /// release.
    pub removed_containers: Vec<ProjectContainer>,
    /// The folders that came, to be searched for descriptors.
    pub added_folders: Vec<WorkspaceFolder>,
}

/// Whether `folder` is one of `folders`, by URI and by name.
pub fn folder_is_named(folders: &Vec<WorkspaceFolder>, folder: &WorkspaceFolder) -> (named: bool)
    ensures
        named == names_folder(folders@, *folder),
{
    let mut i: usize = 0;
    while i < folders.len()
        invariant
            i <= folders.len(),
            forall|j: int| 0 <= j < i ==> !(#[trigger] folders@[j]).same(folder),
        decreases folders.len() - i,
    {
        if folders[i].is_same(folder) {
            return true;
        }
        i += 1;
    }
    false
}

/// Whether one of `folders` has the URI of `folder`.
pub fn folder_uri_is_named(folders: &Vec<WorkspaceFolder>, folder: &WorkspaceFolder) -> (named:
    bool)
    ensures
        named == names_uri(folders@, *folder),
{
    let mut i: usize = 0;
    while i < folders.len()
        invariant
            i <= folders.len(),
            forall|j: int| 0 <= j < i ==> (#[trigger] folders@[j]).uri@ != folder.uri@,
        decreases folders.len() - i,
    {
        if folders[i].uri == folder.uri {
            return true;
        }
        i += 1;
    }
    false
}

/// A copy of `folders`.
pub fn clone_folders(folders: &Vec<WorkspaceFolder>) -> (copy: Vec<WorkspaceFolder>)
    ensures
        copy@ == folders@,
{
    let mut copy: Vec<WorkspaceFolder> = Vec::new();
    let mut i: usize = 0;
    while i < folders.len()
        invariant
            i <= folders.len(),
            copy@ == folders@.take(i as int),
        decreases folders.len() - i,
    {
        copy.push(folders[i].clone());
        assert(folders@.take(i + 1) == folders@.take(i as int).push(folders@[i as int]));
        i += 1;
    }
    assert(folders@.take(i as int) == folders@);
    copy
}

impl DidChangeTextDocumentParams {
    /// The whole new text of the document: the text of the first change,
    /// where that change has no range. None where there is no change, or
    /// where the first change is one of a part of the document.
    pub open spec fn full_text(&self) -> Option<Seq<char>> {
        if self.content_changes@.len() > 0 && self.content_changes@[0].range is None {
            Some(self.content_changes@[0].text@)
        } else {
            None
        }
    }
}

impl LanguageServer {
    /// Whether a container belongs to the descriptor `vproject_uri`.
    pub open spec fn has_descriptor(&self, vproject_uri: Seq<char>) -> bool {
        exists|i: int|
            0 <= i < self.project_containers@.len() && (
            #[trigger] self.project_containers@[i]).vproject_uri@ == vproject_uri
    }

    /// The index of the container that belongs to the descriptor
    /// `vproject_uri`.
    pub fn find_container(&self, vproject_uri: &String) -> (index: Option<usize>)
        ensures
            match index {
                Some(i) => i < self.project_containers@.len()
                    && self.project_containers@[i as int].vproject_uri@ == vproject_uri@,
                None => !self.has_descriptor(vproject_uri@),
            },
    {
        let mut i: usize = 0;
        while i < self.project_containers.len()
            invariant
                i <= self.project_containers@.len(),
                forall|j: int|
                    0 <= j < i ==> (#[trigger] self.project_containers@[j]).vproject_uri@
                        != vproject_uri@,
            decreases self.project_containers@.len() - i,
        {
            if self.project_containers[i].vproject_uri == *vproject_uri {
                return Some(i);
            }
            i += 1;
        }
        None
    }

    /// Registers the project of a descriptor: a container that has seen no
    /// source and no build goes behind the others, and its index is the
    /// result. A descriptor that has a container already gets no second one:
    /// the server stays as it was, and the container that was made of the
    /// parts comes back, for the analysis engine to release.
    pub fn register_project_container(
        &mut self,
        vproject_uri: String,
        workspace_folder: WorkspaceFolder,
        vproject_file: VProjectFile,
        c_container: CProjectContainer,
        packages: Vec<SourcePackage>,
    ) -> (registered: Result<usize, ProjectContainer>)
        ensures
            old(self).wf() ==> final(self).wf(),
            match registered {
                Ok(index) => {
                    &&& !old(self).has_descriptor(vproject_uri@)
                    &&& index == old(self).project_containers@.len()
                    &&& final(self).settings == old(self).settings
                    &&& final(self).workspace_folders == old(self).workspace_folders
                    &&& final(self).project_containers@.len() == index + 1
                    &&& final(self).project_containers@.drop_last() == old(
                        self,
                    ).project_containers@
                    &&& fresh(
                        final(self).project_containers@[index as int],
                        vproject_uri,
                        workspace_folder,
                        vproject_file,
                        c_container,
                        packages,
                    )
                },
                Err(container) => {
                    &&& old(self).has_descriptor(vproject_uri@)
                    &&& *final(self) == *old(self)
                    &&& fresh(
                        container,
                        vproject_uri,
                        workspace_folder,
                        vproject_file,
                        c_container,
                        packages,
                    )
                },
            },
    {
        let known = self.find_container(&vproject_uri);
        let container = ProjectContainer::new(
            workspace_folder,
            vproject_uri,
            vproject_file,
            c_container,
            packages,
        );
        match known {
            Some(_) => Err(container),
            None => {
                let index = self.project_containers.len();
                self.project_containers.push(container);
                assert(self.project_containers@.drop_last() == old(self).project_containers@);
                Ok(index)
            },
        }
    }

    /// Takes a change of the workspace folders. The containers that were
    /// found under a folder that goes leave the server, and so does every
    /// folder that has the URI of one that goes; the folders that come go
    /// behind those that stay. The result holds the containers that left and
    /// the folders that came. No descriptor is searched for here.
    pub fn handle_notif_workspace_folders_change(
        &mut self,
        params: DidChangeWorkspaceFoldersParams,
    ) -> (change: WorkspaceFoldersChange)
        ensures
            old(self).wf() ==> final(self).wf(),
            final(self).settings == old(self).settings,
            final(self).project_containers@ == containers_kept(
                old(self).project_containers@,
                params.event.removed@,
            ),
            change.removed_containers@ == containers_dropped(
                old(self).project_containers@,
                params.event.removed@,
            ),
            final(self).workspace_folders@ == folders_kept(
                old(self).workspace_folders@,
                params.event.removed@,
            ) + params.event.added@,
            change.added_folders == params.event.added,
    {
        let removed = params.event.removed;
        let added = params.event.added;
        let mut containers: Vec<ProjectContainer> = Vec::new();
        std::mem::swap(&mut containers, &mut self.project_containers);
        let ghost all = containers@;
        let mut kept: Vec<ProjectContainer> = Vec::new();
        let mut dropped: Vec<ProjectContainer> = Vec::new();
        assert(all.take(0) == Seq::<ProjectContainer>::empty());
        for container in it: containers
            invariant
                it.seq() == all,
                kept@ == containers_kept(all.take(it.index() as int), removed@),
                dropped@ == containers_dropped(all.take(it.index() as int), removed@),
        {
            proof {
                let i = it.index() as int;
                assert(all.take(i + 1).drop_last() == all.take(i));
                assert(all.take(i + 1).last() == all[i]);
            }
            if folder_is_named(&removed, &container.workspace_folder) {
                dropped.push(container);
            } else {
                kept.push(container);
            }
        }
        assert(all.take(all.len() as int) == all);
        self.project_containers = kept;
        let mut folders: Vec<WorkspaceFolder> = Vec::new();
        std::mem::swap(&mut folders, &mut self.workspace_folders);
        let ghost known = folders@;
        let mut staying: Vec<WorkspaceFolder> = Vec::new();
        assert(known.take(0) == Seq::<WorkspaceFolder>::empty());
        for folder in it: folders
            invariant
                it.seq() == known,
                staying@ == folders_kept(known.take(it.index() as int), removed@),
        {
            proof {
                let i = it.index() as int;
                assert(known.take(i + 1).drop_last() == known.take(i));
                assert(known.take(i + 1).last() == known[i]);
            }
            if !folder_uri_is_named(&removed, &folder) {
                staying.push(folder);
            }
        }
        assert(known.take(known.len() as int) == known);
        let mut coming = clone_folders(&added);
        staying.append(&mut coming);
        self.workspace_folders = staying;
        proof {
            if old(self).wf() {
                lemma_kept_distinct(all, removed@);
            }
        }
        WorkspaceFoldersChange { removed_containers: dropped, added_folders: added }
    }

    /// Takes the new text of a document, whose file lies at `path`. Every
    /// container takes the text in for the packages that hold the file, and
    /// every container needs a build afterwards; none is built here. The
    /// result lists, container by container, what the analysis engine is to
    /// take in. A change that does not carry the whole text is an error and
    /// changes nothing.
    pub fn handle_notif_document_change(
        &mut self,
        params: DidChangeTextDocumentParams,
        path: &str,
    ) -> (updates: Result<Vec<Vec<UpsertSource>>, ServerError>)
        ensures
            old(self).wf() ==> final(self).wf(),
            match params.full_text() {
                None => updates matches Err(ServerError::FullSyncExpected) && *final(self) == *old(
                    self,
                ),
                Some(text) => {
                    &&& updates is Ok
                    &&& final(self).settings == old(self).settings
                    &&& final(self).workspace_folders == old(self).workspace_folders
                    &&& final(self).project_containers@.len() == old(self).project_containers@.len()
                    &&& updates.unwrap()@.len() == old(self).project_containers@.len()
                    &&& forall|c: int|
                        0 <= c < old(self).project_containers@.len() ==> old(
                            self,
                        ).project_containers@[c].edited(
                            &#[trigger] final(self).project_containers@[c],
                            path@,
                            encode_utf8(text),
                        )
                    &&& forall|c: int|
                        0 <= c < old(self).project_containers@.len() ==> upserts_for(
                            (#[trigger] updates.unwrap()@[c])@,
                            old(self).project_containers@[c].packages@,
                            packages_to_update(old(self).project_containers@[c].packages@, path@),
                            path@,
                            text,
                        )
                },
            },
    {
        if params.content_changes.len() == 0 || params.content_changes[0].range.is_some() {
            return Err(ServerError::FullSyncExpected);
        }
        let contents = params.content_changes[0].text.as_str();
        let ghost before = self.project_containers@;
        let ghost text = params.full_text().unwrap();
        let mut updates: Vec<Vec<UpsertSource>> = Vec::new();
        let count = self.project_containers.len();
        let mut c: usize = 0;
        while c < count
            invariant
                c <= count,
                count == before.len(),
                self.project_containers@.len() == count,
                self.settings == old(self).settings,
                self.workspace_folders == old(self).workspace_folders,
                contents@ == text,
                updates@.len() == c,
                forall|i: int|
                    0 <= i < c ==> before[i].edited(
                        &#[trigger] self.project_containers@[i],
                        path@,
                        encode_utf8(text),
                    ),
                forall|i: int| c <= i < count ==> #[trigger] self.project_containers@[i] == before[i],
                forall|i: int|
                    0 <= i < c ==> upserts_for(
                        (#[trigger] updates@[i])@,
                        before[i].packages@,
                        packages_to_update(before[i].packages@, path@),
                        path@,
                        text,
                    ),
            decreases count - c,
        {
            let ghost containers_before = self.project_containers@;
            let ghost listed = updates@;
            let upserts = self.project_containers[c].update_sources(path, contents);
            updates.push(upserts);
            proof {
                assert forall|i: int| 0 <= i < c implies before[i].edited(
                    &#[trigger] self.project_containers@[i],
                    path@,
                    encode_utf8(text),
                ) by {
                    assert(self.project_containers@[i] == containers_before[i]);
                }
                assert forall|i: int| c + 1 <= i < count implies #[trigger]
                    self.project_containers@[i] == before[i] by {
                    assert(self.project_containers@[i] == containers_before[i]);
                }
                assert forall|i: int| 0 <= i < c + 1 implies upserts_for(
                    (#[trigger] updates@[i])@,
                    before[i].packages@,
                    packages_to_update(before[i].packages@, path@),
                    path@,
                    text,
                ) by {
                    if i < c {
                        assert(updates@[i] == listed[i]);
                    }
                }
            }
            c += 1;
        }
        proof {
            assert forall|i: int| 0 <= i < count implies (#[trigger] self.project_containers@[i]).vproject_uri
                == before[i].vproject_uri by {
                assert(before[i].edited(&self.project_containers@[i], path@, encode_utf8(text)));
            }
        }
        Ok(updates)
    }

    /// Merges the diagnostics of all containers into one event for each
    /// document that a container reports on: a document that is stale somewhere
    /// and has diagnostics nowhere gets an event with an empty list. The
    /// stale documents are then forgotten, so that each is told once.
    pub fn publish_diagnostics(&mut self) -> (events: Vec<PublishDiagnosticsParams>)
        ensures
            final(self).settings == old(self).settings,
            final(self).workspace_folders == old(self).workspace_folders,
            publishes(old(self).project_containers@, final(self).project_containers@, events@),
            old(self).wf() ==> final(self).wf(),
    {
        let ghost before = self.project_containers@;
        let mut all: UriMap<Vec<Diagnostic>> = UriMap::new();
        let count = self.project_containers.len();
        let mut c: usize = 0;
        proof {
            assert(before.take(0) == Seq::<ProjectContainer>::empty());
        }
        while c < count
            invariant
                c <= count,
                count == before.len(),
                self.project_containers@.len() == count,
                self.settings == old(self).settings,
                self.workspace_folders == old(self).workspace_folders,
                forall|i: int|
                    0 <= i < c ==> published(before[i], #[trigger] self.project_containers@[i]),
                forall|i: int| c <= i < count ==> #[trigger] self.project_containers@[i] == before[i],
                forall|uri: Seq<char>| #[trigger]
                    all.contains_key(uri) <==> reported_somewhere(before.take(c as int), uri),
                forall|uri: Seq<char>| #[trigger]
                    all.list_of(uri) == merged(before.take(c as int), uri),
            decreases count - c,
        {
            let container = &self.project_containers[c];
            let ghost stale = container.stale_diagnostic_uris.uris();
            let ghost keys = container.diagnostics.keys();
            proof {
                use_type_invariant(&container.diagnostics);
                container.diagnostics.lemma_wf();
                assert(*container == before[c as int]);
                assert(stale.take(0) == Seq::<Seq<char>>::empty());
            }
            let mut s: usize = 0;
            while s < container.stale_diagnostic_uris.len()
                invariant
                    s <= stale.len(),
                    stale == container.stale_diagnostic_uris.uris(),
                    forall|uri: Seq<char>| #[trigger]
                        all.contains_key(uri) <==> reported_somewhere(before.take(c as int), uri)
                            || stale.take(s as int).contains(uri),
                    forall|uri: Seq<char>| #[trigger]
                        all.list_of(uri) == merged(before.take(c as int), uri),
                decreases stale.len() - s,
            {
                let uri = container.stale_diagnostic_uris.uri_at(s).clone();
                let ghost all_before = all;
                all.append_all(uri, Vec::new());
                proof {
                    assert(stale.take(s + 1) == stale.take(s as int).push(stale[s as int]));
                    assert forall|k: Seq<char>| #[trigger]
                        all.contains_key(k) <==> reported_somewhere(before.take(c as int), k) || stale.take(
                            s + 1,
                        ).contains(k) by {
                        vstd::seq_lib::lemma_seq_contains_after_push(
                            stale.take(s as int),
                            stale[s as int],
                            k,
                        );
                        assert(all_before.contains_key(k) <==> reported_somewhere(before.take(c as int), k)
                            || stale.take(s as int).contains(k));
                    }
                    assert forall|k: Seq<char>| #[trigger]
                        all.list_of(k) == merged(before.take(c as int), k) by {
                        assert(all_before.list_of(k) == merged(before.take(c as int), k));
                        assert(all_before.list_of(k) + Seq::<Diagnostic>::empty()
                            == all_before.list_of(k));
                    }
                }
                s += 1;
            }
            proof {
                assert(stale.take(s as int) == stale);
                assert(keys.take(0) == Seq::<Seq<char>>::empty());
                assert forall|k: Seq<char>| #[trigger]
                    all.list_of(k) == merged(before.take(c as int), k) + (if keys.take(
                        0,
                    ).contains(k) {
                        container.diagnostics.list_of(k)
                    } else {
                        Seq::<Diagnostic>::empty()
                    }) by {
                    assert(merged(before.take(c as int), k) + Seq::<Diagnostic>::empty() == merged(
                        before.take(c as int),
                        k,
                    ));
                }
            }
            let mut d: usize = 0;
            while d < container.diagnostics.len()
                invariant
                    d <= keys.len(),
                    keys == container.diagnostics.keys(),
                    keys.no_duplicates(),
                    container.diagnostics.wf(),
                    stale == container.stale_diagnostic_uris.uris(),
                    forall|uri: Seq<char>| #[trigger]
                        all.contains_key(uri) <==> reported_somewhere(before.take(c as int), uri)
                            || stale.contains(uri) || keys.take(d as int).contains(uri),
                    forall|uri: Seq<char>| #[trigger]
                        all.list_of(uri) == merged(before.take(c as int), uri) + (if keys.take(
                            d as int,
                        ).contains(uri) {
                            container.diagnostics.list_of(uri)
                        } else {
                            Seq::<Diagnostic>::empty()
                        }),
                decreases keys.len() - d,
            {
                let uri = container.diagnostics.key_at(d).clone();
                let items = clone_diagnostics(container.diagnostics.value_at(d));
                let ghost all_before = all;
                all.append_all(uri, items);
                proof {
                    container.diagnostics.lemma_value_at(d as int);
                    assert(keys.take(d + 1) == keys.take(d as int).push(keys[d as int]));
                    assert(!keys.take(d as int).contains(keys[d as int])) by {
                        if keys.take(d as int).contains(keys[d as int]) {
                            let j = keys.take(d as int).index_of(keys[d as int]);
                            assert(keys.take(d as int)[j] == keys[d as int]);
                            assert(keys[j] == keys[d as int]);
                        }
                    }
                    assert forall|k: Seq<char>| #[trigger]
                        all.contains_key(k) <==> reported_somewhere(before.take(c as int), k)
                            || stale.contains(k) || keys.take(d + 1).contains(k) by {
                        vstd::seq_lib::lemma_seq_contains_after_push(
                            keys.take(d as int),
                            keys[d as int],
                            k,
                        );
                        assert(all_before.contains_key(k) <==> reported_somewhere(before.take(c as int), k)
                            || stale.contains(k) || keys.take(d as int).contains(k));
                    }
                    assert forall|k: Seq<char>| #[trigger]
                        all.list_of(k) == merged(before.take(c as int), k) + (if keys.take(
                            d + 1,
                        ).contains(k) {
                            container.diagnostics.list_of(k)
                        } else {
                            Seq::<Diagnostic>::empty()
                        }) by {
                        vstd::seq_lib::lemma_seq_contains_after_push(
                            keys.take(d as int),
                            keys[d as int],
                            k,
                        );
                        let base = merged(before.take(c as int), k);
                        assert(all_before.list_of(k) == base + (if keys.take(d as int).contains(
                            k,
                        ) {
                            container.diagnostics.list_of(k)
                        } else {
                            Seq::<Diagnostic>::empty()
                        }));
                        if k == keys[d as int] {
                            assert(base + Seq::<Diagnostic>::empty() == base);
                        }
                    }
                }
                d += 1;
            }
            proof {
                assert(keys.take(d as int) == keys);
                assert(before.take(c + 1).drop_last() == before.take(c as int));
                assert(before.take(c + 1).last() == before[c as int]);
                assert forall|k: Seq<char>| #[trigger]
                    all.list_of(k) == merged(before.take(c + 1), k) by {
                    let base = merged(before.take(c as int), k);
                    assert(all.list_of(k) == base + (if keys.contains(k) {
                        container.diagnostics.list_of(k)
                    } else {
                        Seq::<Diagnostic>::empty()
                    }));
                }
                assert forall|k: Seq<char>| #[trigger]
                    all.contains_key(k) <==> reported_somewhere(before.take(c + 1), k) by {
                    assert(all.contains_key(k) <==> reported_somewhere(before.take(c as int), k)
                        || stale.contains(k) || keys.contains(k));
                }
            }
            let ghost containers_before = self.project_containers@;
            self.project_containers[c].stale_diagnostic_uris.clear();
            proof {
                assert(published(before[c as int], self.project_containers@[c as int]));
                assert forall|i: int| 0 <= i < c implies published(
                    before[i],
                    #[trigger] self.project_containers@[i],
                ) by {
                    assert(self.project_containers@[i] == containers_before[i]);
                }
                assert forall|i: int| c + 1 <= i < count implies #[trigger]
                    self.project_containers@[i] == before[i] by {
                    assert(self.project_containers@[i] == containers_before[i]);
                }
            }
            c += 1;
        }
        proof {
            assert(before.take(c as int) == before);
        }
        let mut entries = all.into_entries();
        let ghost listed = entries@;
        let ghost keys = listed.map_values(|e: UriEntry<Vec<Diagnostic>>| e.uri@);
        let ghost values = listed.map_values(|e: UriEntry<Vec<Diagnostic>>| e.value);
        let mut events: Vec<PublishDiagnosticsParams> = Vec::new();
        while entries.len() > 0
            invariant
                entries@.len() + events@.len() == listed.len(),
                entries@ == listed.take(entries@.len() as int),
                forall|i: int|
                    0 <= i < events@.len() ==> (#[trigger] events@[i]).uri@ == listed[listed.len()
                        - 1 - i].uri@ && events@[i].diagnostics == listed[listed.len() - 1
                        - i].value,
            decreases entries@.len(),
        {
            let ghost rest = entries@.len() - 1;
            match entries.pop() {
                Some(entry) => {
                    assert(entry == listed[rest]);
                    events.push(PublishDiagnosticsParams { uri: entry.uri, diagnostics: entry.value });
                    assert(entries@ == listed.take(rest));
                },
                None => {},
            }
        }
        proof {
            let total = listed.len() as int;
            assert(keys == all.keys());
            assert(values == all.values());
            assert forall|i: int, j: int| 0 <= i < j < events@.len() implies events@[i].uri@
                != events@[j].uri@ by {
                assert(keys[total - 1 - i] == events@[i].uri@);
                assert(keys[total - 1 - j] == events@[j].uri@);
            }
            assert forall|uri: Seq<char>|
                (exists|i: int| 0 <= i < events@.len() && (#[trigger] events@[i]).uri@ == uri)
                    <==> #[trigger] reported_somewhere(before, uri) by {
                assert(all.contains_key(uri) <==> reported_somewhere(before, uri));
                if exists|i: int| 0 <= i < events@.len() && (#[trigger] events@[i]).uri@ == uri {
                    let i = choose|i: int|
                        0 <= i < events@.len() && (#[trigger] events@[i]).uri@ == uri;
                    assert(keys[total - 1 - i] == uri);
                }
                if all.contains_key(uri) {
                    let j = keys.index_of(uri);
                    assert(keys[j] == uri);
                    assert(events@[total - 1 - j].uri@ == uri);
                }
            }
            assert forall|i: int| 0 <= i < events@.len() implies (#[trigger] events@[i]).diagnostics@
                == merged(before, events@[i].uri@) by {
                let j = total - 1 - i;
                let uri = keys[j];
                assert(events@[i].uri@ == uri);
                all.lemma_value_at(j);
                assert(all.list_of(uri) == merged(before, uri));
            }
        }
        events
    }
}

} // verus!
