//! The state of one server, and the errors of its handlers.

use crate::protocol::WorkspaceFolder;
use crate::verse::ProjectContainer;
use vstd::prelude::*;

pub mod messages;

verus! {

/// What a handler reports when it cannot do its work.
#[derive(Debug)]
pub enum ServerError {
    /// The parameters of a message could not be decoded; the text says why.
    MalformedParams(String),
    /// The parameters of a cancellation could not be decoded; the text says
    /// why. The reading thread cannot go on behind such a message.
    MalformedCancellation(String),
    /// A text change that does not carry the whole text of its document.
    FullSyncExpected,
    /// A request that reached the worker without an identifier.
    MissingRequestId,
}

impl ServerError {
    /// The text that the error is reported with.
    pub open spec fn text(&self) -> Seq<char> {
        match self {
            ServerError::MalformedParams(reason) => reason@,
            ServerError::MalformedCancellation(reason) => reason@,
            ServerError::FullSyncExpected => "full document sync expected"@,
            ServerError::MissingRequestId => "request must have an ID"@,
        }
    }

    /// The text that the error is reported with.
    pub fn message(&self) -> (message: String)
        ensures
            message@ == self.text(),
    {
        match self {
            ServerError::MalformedParams(reason) => reason.clone(),
            ServerError::MalformedCancellation(reason) => reason.clone(),
            ServerError::FullSyncExpected => "full document sync expected".to_owned(),
            ServerError::MissingRequestId => "request must have an ID".to_owned(),
        }
    }
}

/// The game version that stands for the latest, where the client names none.
pub const LATEST_FORTNITE_VERSION: u32 = 3811;

/// What the client has set for the server.
#[derive(Debug, Clone, Copy)]
pub struct VerseLspCESettings {
    /// The version of the game that the packages are analysed for.
    pub fortnite_version: Option<u32>,
}

impl Default for VerseLspCESettings {
    fn default() -> (settings: Self)
        ensures
            settings.fortnite_version is None,
    {
        VerseLspCESettings { fortnite_version: None }
    }
}

impl VerseLspCESettings {
    /// The game version that the packages are analysed for: the one that the
    /// client has set, and the latest where it has set none.
    pub fn fortnite_version_or_latest(&self) -> (version: u32)
        ensures
            version == match self.fortnite_version {
                Some(version) => version,
                None => LATEST_FORTNITE_VERSION,
            },
    {
        match self.fortnite_version {
            Some(version) => version,
            None => LATEST_FORTNITE_VERSION,
        }
    }
}

/// All that one server keeps between messages.
pub struct LanguageServer {
    /// What the client has set.
    pub settings: VerseLspCESettings,
    /// The folders that the client has declared. They are roots to search
    /// for descriptors, not projects.
    pub workspace_folders: Vec<WorkspaceFolder>,
    /// One container for each descriptor that was found.
    pub project_containers: Vec<ProjectContainer>,
}

impl LanguageServer {
    /// A server that knows no folder and no project, with nothing set by the
    /// client.
    pub fn new() -> (server: Self)
        ensures
            server.settings.fortnite_version is None,
            server.workspace_folders@.len() == 0,
            server.project_containers@.len() == 0,
    {
        LanguageServer {
            settings: VerseLspCESettings { fortnite_version: None },
            workspace_folders: Vec::new(),
            project_containers: Vec::new(),
        }
    }

    /// No two containers belong to one descriptor.
    pub open spec fn wf(&self) -> bool {
        forall|i: int, j: int|
            0 <= i < j < self.project_containers@.len()
                ==> self.project_containers@[i].vproject_uri@
                != self.project_containers@[j].vproject_uri@
    }
}

} // verus!
