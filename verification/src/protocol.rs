//! The protocol's messages as the server handles them, and the decoding of
//! their parameters.

use crate::diagnostics::{Diagnostic, Position, Range};
use crate::features::semantic_tokens::SemanticToken;
use vstd::prelude::*;

verus! {

/// The method of the notification that cancels a request.
pub const CANCEL_REQUEST: &'static str = "$/cancelRequest";

/// The method of the notification that adds and removes workspace folders.
pub const DID_CHANGE_WORKSPACE_FOLDERS: &'static str = "workspace/didChangeWorkspaceFolders";

/// The method of the notification that carries a document's new text.
pub const DID_CHANGE_TEXT_DOCUMENT: &'static str = "textDocument/didChange";

/// The method of the request for all semantic tokens of a document.
pub const SEMANTIC_TOKENS_FULL: &'static str = "textDocument/semanticTokens/full";

/// The error code of a request that was well formed and failed.
pub const REQUEST_FAILED: i32 = -32803;

/// A JSON value of `serde_json`, carried as it came.
#[verifier::external_type_specification]
#[verifier::external_body]
pub struct ExJsonValue(serde_json::Value);

/// The error of `serde_json`.
#[verifier::external_type_specification]
#[verifier::external_body]
pub struct ExJsonError(serde_json::Error);

/// A root folder that the client has declared.
#[derive(Debug)]
pub struct WorkspaceFolder {
    pub uri: String,
    pub name: String,
}

impl Clone for WorkspaceFolder {
    fn clone(&self) -> (copy: Self)
        ensures
            copy == *self,
    {
        WorkspaceFolder { uri: self.uri.clone(), name: self.name.clone() }
    }
}

impl WorkspaceFolder {
    /// Whether the two folders have the same URI and the same name.
    pub open spec fn same(&self, other: &WorkspaceFolder) -> bool {
        self.uri@ == other.uri@ && self.name@ == other.name@
    }

    /// Whether the two folders have the same URI and the same name.
    pub fn is_same(&self, other: &WorkspaceFolder) -> (same: bool)
        ensures
            same == self.same(other),
    {
        self.uri == other.uri && self.name == other.name
    }
}

/// A number or a string, as the protocol allows for identifiers.
#[derive(Debug)]
pub enum NumberOrString {
    Number(i32),
    String(String),
}

impl NumberOrString {
    /// The request identifier that the value names.
    pub open spec fn request_id(&self) -> RequestIdView {
        match self {
            NumberOrString::Number(n) => RequestIdView::I32(*n as int),
            NumberOrString::String(s) => RequestIdView::String(s@),
        }
    }
}

/// What a request identifier holds.
pub enum RequestIdView {
    I32(int),
    String(Seq<char>),
}

/// The identifier that a client gave to a request.
#[derive(Debug)]
pub enum RequestId {
    I32(i32),
    String(String),
}

impl View for RequestId {
    type V = RequestIdView;

    open spec fn view(&self) -> RequestIdView {
        match self {
            RequestId::I32(n) => RequestIdView::I32(*n as int),
            RequestId::String(s) => RequestIdView::String(s@),
        }
    }
}

impl Clone for RequestId {
    fn clone(&self) -> (copy: Self)
        ensures
            copy == *self,
    {
        match self {
            RequestId::I32(n) => RequestId::I32(*n),
            RequestId::String(s) => RequestId::String(s.clone()),
        }
    }
}

impl RequestId {
    /// The identifier that `id` names.
    pub fn from_number_or_string(id: NumberOrString) -> (request_id: RequestId)
        ensures
            request_id@ == id.request_id(),
    {
        match id {
            NumberOrString::Number(n) => RequestId::I32(n),
            NumberOrString::String(s) => RequestId::String(s),
        }
    }

    /// Whether the two identifiers hold the same number or the same string.
    pub fn is_same(&self, other: &RequestId) -> (same: bool)
        ensures
            same == (self@ == other@),
    {
        match (self, other) {
            (RequestId::I32(a), RequestId::I32(b)) => *a == *b,
            (RequestId::String(a), RequestId::String(b)) => *a == *b,
            _ => false,
        }
    }
}

/// What names a document.
#[derive(Debug)]
pub struct TextDocumentIdentifier {
    pub uri: String,
}

/// What names one version of a document.
#[derive(Debug)]
pub struct VersionedTextDocumentIdentifier {
    pub uri: String,
    pub version: i32,
}

/// The parameters of a request for all semantic tokens of a document.
#[derive(Debug)]
pub struct SemanticTokensParams {
    pub text_document: TextDocumentIdentifier,
}

/// One change to a document: the whole new text where `range` is none.
#[derive(Debug)]
pub struct TextDocumentContentChangeEvent {
    pub range: Option<Range>,
    pub text: String,
}

/// The parameters of a text-change notification.
#[derive(Debug)]
pub struct DidChangeTextDocumentParams {
    pub text_document: VersionedTextDocumentIdentifier,
    pub content_changes: Vec<TextDocumentContentChangeEvent>,
}

/// The workspace folders that came and went.
#[derive(Debug)]
pub struct WorkspaceFoldersChangeEvent {
    pub added: Vec<WorkspaceFolder>,
    pub removed: Vec<WorkspaceFolder>,
}

/// The parameters of a workspace-folder-change notification.
#[derive(Debug)]
pub struct DidChangeWorkspaceFoldersParams {
    pub event: WorkspaceFoldersChangeEvent,
}

/// The parameters of a cancellation.
#[derive(Debug)]
pub struct CancelParams {
    pub id: NumberOrString,
}

/// A request as it came from the client.
#[derive(Debug)]
pub struct Request {
    pub id: RequestId,
    pub method: String,
    pub params: serde_json::Value,
}

/// A notification as it came from the client.
#[derive(Debug)]
pub struct Notification {
    pub method: String,
    pub params: serde_json::Value,
}

/// A message as it came from the client.
#[derive(Debug)]
pub enum Message {
    Request(Request),
    /// The client's answer to a request of the server; the server sends none.
    Response(RequestId),
    Notification(Notification),
}

/// Why a response reports a failure.
#[derive(Debug)]
pub struct ResponseError {
    pub code: i32,
    pub message: String,
}

/// A failed request's error, with `message` as its text.
pub fn req_failed(message: String) -> (error: ResponseError)
    ensures
        error.code == REQUEST_FAILED,
        error.message == message,
{
    ResponseError { code: REQUEST_FAILED, message }
}

/// The encoded semantic tokens of a document.
#[derive(Debug)]
pub struct SemanticTokens {
    pub result_id: Option<String>,
    pub data: Vec<SemanticToken>,
}

/// The answer to a request: a result or an error, and the identifier of the
/// request.
#[derive(Debug)]
pub struct Response {
    pub id: RequestId,
    pub result: Option<SemanticTokens>,
    pub error: Option<ResponseError>,
}

/// One publish event: the diagnostics of one document, all of them.
#[derive(Debug)]
pub struct PublishDiagnosticsParams {
    pub uri: String,
    pub diagnostics: Vec<Diagnostic>,
}

/// What the parameters of a semantic-token request decode to; none where
/// they do not decode.
pub uninterp spec fn semantic_tokens_params_of(params: serde_json::Value) -> Option<
    SemanticTokensParams,
>;

/// What the parameters of a text-change notification decode to; none where
/// they do not decode.
pub uninterp spec fn did_change_text_document_params_of(params: serde_json::Value) -> Option<
    DidChangeTextDocumentParams,
>;

/// What the parameters of a workspace-folder-change notification decode to;
/// none where they do not decode.
pub uninterp spec fn did_change_workspace_folders_params_of(params: serde_json::Value) -> Option<
    DidChangeWorkspaceFoldersParams,
>;

/// What the parameters of a cancellation decode to; none where they do not
/// decode.
pub uninterp spec fn cancel_params_of(params: serde_json::Value) -> Option<CancelParams>;

/// Calls `serde_json::from_value` for the parameters of a semantic-token
/// request, as `lsp_types` declares them, and copies the URL over as its
/// text. Trusted: whether the call succeeds, and what it gives, depends on
/// `params` alone.
#[verifier::external_body]
pub(crate) fn decode_semantic_tokens_params(params: serde_json::Value) -> (decoded: Result<
    SemanticTokensParams,
    serde_json::Error,
>)
    ensures
        match decoded {
            Ok(decoded) => semantic_tokens_params_of(params) == Some(decoded),
            Err(_) => semantic_tokens_params_of(params) is None,
        },
{
    let decoded: lsp_types::SemanticTokensParams = serde_json::from_value(params)?;
    let uri = String::from(decoded.text_document.uri);
    Ok(SemanticTokensParams { text_document: TextDocumentIdentifier { uri } })
}

/// Calls `serde_json::from_value` for the parameters of a text-change
/// notification, as `lsp_types` declares them, and copies the fields over,
/// the URL as its text. Trusted: whether the call succeeds, and what it
/// gives, depends on `params` alone.
#[verifier::external_body]
pub(crate) fn decode_did_change_text_document_params(params: serde_json::Value) -> (decoded:
    Result<DidChangeTextDocumentParams, serde_json::Error>)
    ensures
        match decoded {
            Ok(decoded) => did_change_text_document_params_of(params) == Some(decoded),
            Err(_) => did_change_text_document_params_of(params) is None,
        },
{
    let decoded: lsp_types::DidChangeTextDocumentParams = serde_json::from_value(params)?;
    let uri = String::from(decoded.text_document.uri);
    let version = decoded.text_document.version;
    let content_changes = decoded.content_changes.into_iter().map(|change| {
        let range = change.range.map(|r| Range {
            start: Position { line: r.start.line, character: r.start.character },
            end: Position { line: r.end.line, character: r.end.character },
        });
        TextDocumentContentChangeEvent { range, text: change.text }
    }).collect();
    let text_document = VersionedTextDocumentIdentifier { uri, version };
    Ok(DidChangeTextDocumentParams { text_document, content_changes })
}

/// Calls `serde_json::from_value` for the parameters of a
/// workspace-folder-change notification, as `lsp_types` declares them, and
/// copies the fields over, each URL as its text. Trusted: whether the call
/// succeeds, and what it gives, depends on `params` alone.
#[verifier::external_body]
pub(crate) fn decode_did_change_workspace_folders_params(params: serde_json::Value) -> (decoded:
    Result<DidChangeWorkspaceFoldersParams, serde_json::Error>)
    ensures
        match decoded {
            Ok(decoded) => did_change_workspace_folders_params_of(params) == Some(decoded),
            Err(_) => did_change_workspace_folders_params_of(params) is None,
        },
{
    let decoded: lsp_types::DidChangeWorkspaceFoldersParams = serde_json::from_value(params)?;
    let added = decoded.event.added.into_iter().map(
        |folder| WorkspaceFolder { uri: String::from(folder.uri), name: folder.name },
    ).collect();
    let removed = decoded.event.removed.into_iter().map(
        |folder| WorkspaceFolder { uri: String::from(folder.uri), name: folder.name },
    ).collect();
    Ok(DidChangeWorkspaceFoldersParams { event: WorkspaceFoldersChangeEvent { added, removed } })
}

/// Calls `serde_json::from_value` for the parameters of a cancellation, as
/// `lsp_types` declares them, and copies the identifier over. Trusted:
/// whether the call succeeds, and what it gives, depends on `params` alone.
#[verifier::external_body]
pub(crate) fn decode_cancel_params(params: serde_json::Value) -> (decoded: Result<
    CancelParams,
    serde_json::Error,
>)
    ensures
        match decoded {
            Ok(decoded) => cancel_params_of(params) == Some(decoded),
            Err(_) => cancel_params_of(params) is None,
        },
{
    let decoded: lsp_types::CancelParams = serde_json::from_value(params)?;
    let id = match decoded.id {
        lsp_types::NumberOrString::Number(n) => NumberOrString::Number(n),
        lsp_types::NumberOrString::String(s) => NumberOrString::String(s),
    };
    Ok(CancelParams { id })
}

/// Calls `to_string` of a `serde_json::Error`, which gives the error's text.
/// Trusted; nothing is claimed of the result.
#[verifier::external_body]
pub(crate) fn json_error_text(error: &serde_json::Error) -> String {
    error.to_string()
}

} // verus!
