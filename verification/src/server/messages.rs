//! The queue between the thread that reads messages and the worker that
//! handles them: classification, cancellation, and the worker's next step.

use crate::features::semantic_tokens::SemanticToken;
use crate::protocol::{
    cancel_params_of, decode_cancel_params, decode_did_change_text_document_params,
    decode_did_change_workspace_folders_params, decode_semantic_tokens_params,
    did_change_text_document_params_of, did_change_workspace_folders_params_of, json_error_text,
    req_failed, semantic_tokens_params_of, DidChangeTextDocumentParams, DidChangeWorkspaceFoldersParams, Message,
    Notification, NumberOrString, Request, RequestId, RequestIdView, Response, SemanticTokens,
    SemanticTokensParams, CANCEL_REQUEST, DID_CHANGE_TEXT_DOCUMENT, DID_CHANGE_WORKSPACE_FOLDERS,
    REQUEST_FAILED, SEMANTIC_TOKENS_FULL,
};
use crate::server::{LanguageServer, ServerError};
use crate::utils::same_text;
use crate::verse::ProjectContainer;
use std::collections::VecDeque;
use vstd::prelude::*;

verus! {

/// A request that the server answers.
#[derive(Debug)]
pub enum ParsedRequest {
    SemanticTokensFullRequest(SemanticTokensParams),
}

/// A notification that the server acts on.
#[derive(Debug)]
pub enum ParsedNotification {
    DidChangeWorkspaceFolders(DidChangeWorkspaceFoldersParams),
    DidChangeTextDocument(DidChangeTextDocumentParams),
}

/// A message that the server handles, with its parameters decoded.
#[derive(Debug)]
pub enum ParsedMessage {
    Request(ParsedRequest),
    Notification(ParsedNotification),
}

/// Whether `method` is the method named `name`.
pub fn is_method(method: &String, name: &str) -> (same: bool)
    ensures
        same == (method@ == name@),
{
    same_text(method.as_str(), name)
}

impl ParsedRequest {
    /// What `src` decodes to: none for a method that the server does not
    /// answer, and for parameters that do not decode.
    pub open spec fn decoded(src: Request) -> Option<ParsedRequest> {
        if src.method@ == SEMANTIC_TOKENS_FULL@ {
            match semantic_tokens_params_of(src.params) {
                Some(params) => Some(ParsedRequest::SemanticTokensFullRequest(params)),
                None => None,
            }
        } else {
            None
        }
    }

    /// Decodes a request: none for a method that the server does not answer,
    /// the decoded request for one that it answers, and an error where the
    /// parameters of such a method do not decode.
    pub fn parse(src: Request) -> (parsed: Result<Option<ParsedRequest>, ServerError>)
        ensures
            src.method@ != SEMANTIC_TOKENS_FULL@ ==> parsed == Ok::<
                Option<ParsedRequest>,
                ServerError,
            >(None),
            src.method@ == SEMANTIC_TOKENS_FULL@ ==> match Self::decoded(src) {
                Some(request) => parsed == Ok::<Option<ParsedRequest>, ServerError>(
                    Some(request),
                ),
                None => parsed matches Err(ServerError::MalformedParams(_)),
            },
    {
        if is_method(&src.method, SEMANTIC_TOKENS_FULL) {
            match decode_semantic_tokens_params(src.params) {
                Ok(params) => Ok(Some(ParsedRequest::SemanticTokensFullRequest(params))),
                Err(error) => Err(ServerError::MalformedParams(json_error_text(&error))),
            }
        } else {
            Ok(None)
        }
    }
}

impl ParsedNotification {
    /// Whether the server acts on notifications of the method `method`.
    pub open spec fn acts_on(method: Seq<char>) -> bool {
        method == DID_CHANGE_WORKSPACE_FOLDERS@ || method == DID_CHANGE_TEXT_DOCUMENT@
    }

    /// What `src` decodes to: none for a method that the server does not act
    /// on, and for parameters that do not decode.
    pub open spec fn decoded(src: Notification) -> Option<ParsedNotification> {
        if src.method@ == DID_CHANGE_WORKSPACE_FOLDERS@ {
            match did_change_workspace_folders_params_of(src.params) {
                Some(params) => Some(ParsedNotification::DidChangeWorkspaceFolders(params)),
                None => None,
            }
        } else if src.method@ == DID_CHANGE_TEXT_DOCUMENT@ {
            match did_change_text_document_params_of(src.params) {
                Some(params) => Some(ParsedNotification::DidChangeTextDocument(params)),
                None => None,
            }
        } else {
            None
        }
    }

    /// Decodes a notification: none for a method that the server does not
    /// act on, the decoded notification for one that it acts on, and an
    /// error where the parameters of such a method do not decode.
    pub fn parse(src: Notification) -> (parsed: Result<Option<ParsedNotification>, ServerError>)
        ensures
            !Self::acts_on(src.method@) ==> parsed == Ok::<
                Option<ParsedNotification>,
                ServerError,
            >(None),
            Self::acts_on(src.method@) ==> match Self::decoded(src) {
                Some(notification) => parsed == Ok::<Option<ParsedNotification>, ServerError>(
                    Some(notification),
                ),
                None => parsed matches Err(ServerError::MalformedParams(_)),
            },
    {
        if is_method(&src.method, DID_CHANGE_WORKSPACE_FOLDERS) {
            match decode_did_change_workspace_folders_params(src.params) {
                Ok(params) => Ok(Some(ParsedNotification::DidChangeWorkspaceFolders(params))),
                Err(error) => Err(ServerError::MalformedParams(json_error_text(&error))),
            }
        } else if is_method(&src.method, DID_CHANGE_TEXT_DOCUMENT) {
            match decode_did_change_text_document_params(src.params) {
                Ok(params) => Ok(Some(ParsedNotification::DidChangeTextDocument(params))),
                Err(error) => Err(ServerError::MalformedParams(json_error_text(&error))),
            }
        } else {
            Ok(None)
        }
    }
}

impl ParsedMessage {
    /// The documents that the message is about.
    pub open spec fn uris(&self) -> Seq<Seq<char>> {
        match self {
            ParsedMessage::Request(ParsedRequest::SemanticTokensFullRequest(params)) => seq![
                params.text_document.uri@,
            ],
            ParsedMessage::Notification(ParsedNotification::DidChangeTextDocument(params)) => seq![
                params.text_document.uri@,
            ],
            ParsedMessage::Notification(ParsedNotification::DidChangeWorkspaceFolders(_)) =>
                Seq::empty(),
        }
    }

    /// Whether the message asks for what only a build can tell. A message
    /// that changes a text does not.
    pub open spec fn compile_gated(&self) -> bool {
        self is Request
    }
}

/// A message that waits for the worker.
#[derive(Debug)]
pub struct QueuedMessage {
    /// The identifier of the request, where the message is one.
    pub req_id: Option<RequestId>,
    pub message: ParsedMessage,
    /// The documents that the message is about.
    pub uris: Vec<String>,
    /// Whether the projects must be built before the message is handled.
    pub compile_gated: bool,
}

impl QueuedMessage {
    /// Whether `self` is `message` under `req_id`, with the documents and
    /// the gating that belong to `message`.
    pub open spec fn classifies(&self, req_id: Option<RequestId>, message: ParsedMessage) -> bool {
        &&& self.req_id == req_id
        &&& self.message == message
        &&& self.uris@.map_values(|uri: String| uri@) == message.uris()
        &&& self.compile_gated == message.compile_gated()
    }

    /// Whether a cancellation of `id` is meant for `self`.
    pub open spec fn answers(&self, id: RequestIdView) -> bool {
        match self.req_id {
            Some(req_id) => req_id@ == id,
            None => false,
        }
    }

    /// The queue entry of `message`, which came under `req_id`.
    pub fn new(req_id: Option<RequestId>, message: ParsedMessage) -> (queued: Self)
        ensures
            queued.classifies(req_id, message),
    {
        let mut uris: Vec<String> = Vec::new();
        let mut compile_gated = false;
        match &message {
            ParsedMessage::Request(ParsedRequest::SemanticTokensFullRequest(params)) => {
                uris.push(params.text_document.uri.clone());
                compile_gated = true;
            },
            ParsedMessage::Notification(ParsedNotification::DidChangeTextDocument(params)) => {
                uris.push(params.text_document.uri.clone());
            },
            ParsedMessage::Notification(ParsedNotification::DidChangeWorkspaceFolders(_)) => {},
        }
        assert(uris@.map_values(|uri: String| uri@) == message.uris());
        QueuedMessage { req_id, message, uris, compile_gated }
    }
}

/// `queue` without the entries that a cancellation of `id` is meant for.
pub open spec fn without_request(queue: Seq<QueuedMessage>, id: RequestIdView) -> Seq<
    QueuedMessage,
>
    decreases queue.len(),
{
    if queue.len() == 0 {
        Seq::empty()
    } else if queue.last().answers(id) {
        without_request(queue.drop_last(), id)
    } else {
        without_request(queue.drop_last(), id).push(queue.last())
    }
}

/// Cancelling a request that waits once in the queue removes that entry and
/// no other.
pub proof fn lemma_cancel_removes_one(queue: Seq<QueuedMessage>, id: RequestIdView, at: int)
    requires
        0 <= at < queue.len(),
        queue[at].answers(id),
        forall|i: int| 0 <= i < queue.len() && i != at ==> !(#[trigger] queue[i]).answers(id),
    ensures
        without_request(queue, id) == queue.remove(at),
    decreases queue.len(),
{
    let front = queue.drop_last();
    if at == queue.len() - 1 {
        lemma_cancel_absent(front, id);
        assert(queue.remove(at) == front);
    } else {
        lemma_cancel_removes_one(front, id, at);
        assert(queue.remove(at) == front.remove(at).push(queue.last()));
    }
}

/// Cancelling a request that does not wait in the queue, because it never
/// came or has been taken out by the worker, changes nothing.
pub proof fn lemma_cancel_absent(queue: Seq<QueuedMessage>, id: RequestIdView)
    requires
        forall|i: int| 0 <= i < queue.len() ==> !(#[trigger] queue[i]).answers(id),
    ensures
        without_request(queue, id) == queue,
    decreases queue.len(),
{
    if queue.len() > 0 {
        lemma_cancel_absent(queue.drop_last(), id);
        assert(queue.drop_last().push(queue.last()) == queue);
    }
}

/// Cancelling a request that the worker has taken out of the queue changes
/// nothing: the queue that is left does not hold it.
pub proof fn lemma_cancel_after_dequeue(queue: Seq<QueuedMessage>, id: RequestIdView)
    requires
        queue.len() > 0,
        queue[0].answers(id),
        forall|i: int| 1 <= i < queue.len() ==> !(#[trigger] queue[i]).answers(id),
    ensures
        without_request(queue.drop_first(), id) == queue.drop_first(),
{
    let rest = queue.drop_first();
    assert forall|i: int| 0 <= i < rest.len() implies !(#[trigger] rest[i]).answers(id) by {
        assert(rest[i] == queue[i + 1]);
    }
    lemma_cancel_absent(rest, id);
}

/// The entries that stay keep their order, and none is added.
pub proof fn lemma_cancel_keeps_others(queue: Seq<QueuedMessage>, id: RequestIdView)
    ensures
        without_request(queue, id).len() <= queue.len(),
        forall|i: int|
            0 <= i < without_request(queue, id).len() ==> !(#[trigger] without_request(
                queue,
                id,
            )[i]).answers(id),
    decreases queue.len(),
{
    if queue.len() > 0 {
        lemma_cancel_keeps_others(queue.drop_last(), id);
    }
}

/// What became of a message that the reading thread handed in.
#[derive(Debug, Clone, Copy, PartialEq, Eq, Structural)]
pub enum Intake {
    /// A cancellation: it was applied to the queue.
    Cancelled,
    /// A message that the server handles: it waits in the queue.
    Queued,
    /// A message that the server does not handle: it was dropped.
    Ignored,
}

/// The messages that wait for the worker, the oldest first.
#[derive(Debug)]
pub struct MessageQueue {
    pub queue: VecDeque<QueuedMessage>,
}

impl View for MessageQueue {
    type V = Seq<QueuedMessage>;

    open spec fn view(&self) -> Seq<QueuedMessage> {
        self.queue@
    }
}

/// Whether `after` is `before` with one entry behind it, which is `message`
/// under `req_id`.
pub open spec fn enqueued(
    before: Seq<QueuedMessage>,
    after: Seq<QueuedMessage>,
    req_id: Option<RequestId>,
    message: ParsedMessage,
) -> bool {
    &&& after.len() == before.len() + 1
    &&& after.drop_last() == before
    &&& after.last().classifies(req_id, message)
}

impl MessageQueue {
    /// An empty queue.
    pub fn new() -> (queue: Self)
        ensures
            queue@ == Seq::<QueuedMessage>::empty(),
    {
        MessageQueue { queue: VecDeque::new() }
    }

    /// The number of messages that wait.
    pub fn len(&self) -> (n: usize)
        ensures
            n == self@.len(),
    {
        self.queue.len()
    }

    /// Puts `message`, which came under `req_id`, behind the others.
    pub fn enqueue(&mut self, req_id: Option<RequestId>, message: ParsedMessage)
        ensures
            enqueued(old(self)@, final(self)@, req_id, message),
    {
        let queued = QueuedMessage::new(req_id, message);
        self.queue.push_back(queued);
        assert(self@.drop_last() == old(self)@);
    }

    /// Takes the oldest message out.
    pub fn pop_front(&mut self) -> (front: Option<QueuedMessage>)
        ensures
            match front {
                Some(message) => old(self)@.len() > 0 && message == old(self)@[0] && final(self)@
                    == old(self)@.drop_first(),
                None => old(self)@.len() == 0 && final(self)@ == old(self)@,
            },
    {
        let front = self.queue.pop_front();
        assert(old(self)@.len() > 0 ==> old(self)@.subrange(1, old(self)@.len() as int) == old(
            self,
        )@.drop_first());
        front
    }

    /// Removes the request `cancel_req_id` from the queue, if it waits there.
    /// No other message is touched.
    pub fn cancel_request(&mut self, cancel_req_id: NumberOrString)
        ensures
            final(self)@ == without_request(old(self)@, cancel_req_id.request_id()),
    {
        let cancel_req_id = RequestId::from_number_or_string(cancel_req_id);
        let mut kept: VecDeque<QueuedMessage> = VecDeque::new();
        let ghost all = self@;
        let ghost mut seen: int = 0;
        assert(all.take(0) == Seq::<QueuedMessage>::empty());
        while self.queue.len() > 0
            invariant
                0 <= seen <= all.len(),
                self@ == all.skip(seen),
                kept@ == without_request(all.take(seen), cancel_req_id@),
            decreases self.queue.len(),
        {
            let front = self.queue.pop_front();
            proof {
                assert(all.take(seen + 1).drop_last() == all.take(seen));
                assert(all.take(seen + 1).last() == all[seen]);
                assert(all.skip(seen).subrange(1, all.skip(seen).len() as int) == all.skip(
                    seen + 1,
                ));
            }
            match front {
                Some(message) => {
                    let cancelled = match &message.req_id {
                        Some(req_id) => req_id.is_same(&cancel_req_id),
                        None => false,
                    };
                    assert(cancelled == message.answers(cancel_req_id@));
                    if !cancelled {
                        kept.push_back(message);
                    }
                },
                None => {},
            }
            proof {
                seen = seen + 1;
            }
        }
        assert(all.take(seen) == all);
        self.queue = kept;
    }

    /// Whether the server handles `message`.
    pub open spec fn handles(message: Message) -> bool {
        match message {
            Message::Request(request) => request.method@ == SEMANTIC_TOKENS_FULL@,
            Message::Notification(notification) => ParsedNotification::acts_on(
                notification.method@,
            ),
            Message::Response(_) => false,
        }
    }

    /// What `message` decodes to: none for a message that the server does
    /// not handle, and for parameters that do not decode.
    pub open spec fn decoded_message(message: Message) -> Option<ParsedMessage> {
        match message {
            Message::Request(request) => match ParsedRequest::decoded(request) {
                Some(parsed) => Some(ParsedMessage::Request(parsed)),
                None => None,
            },
            Message::Notification(notification) => match ParsedNotification::decoded(
                notification,
            ) {
                Some(parsed) => Some(ParsedMessage::Notification(parsed)),
                None => None,
            },
            Message::Response(_) => None,
        }
    }

    /// The identifier under which `message` came.
    pub open spec fn id_of(message: Message) -> Option<RequestId> {
        match message {
            Message::Request(request) => Some(request.id),
            _ => None,
        }
    }

    /// Classifies `message` and puts it behind the others. A message that the
    /// server does not handle is dropped without an error. One that it
    /// handles is queued as what it decodes to, under its identifier; where
    /// its parameters do not decode, that is an error, and the queue stays
    /// as it was.
    pub fn queue_message(&mut self, message: Message) -> (queued: Result<(), ServerError>)
        ensures
            !Self::handles(message) ==> queued is Ok && final(self)@ == old(self)@,
            Self::handles(message) ==> match Self::decoded_message(message) {
                Some(parsed) => queued is Ok && enqueued(
                    old(self)@,
                    final(self)@,
                    Self::id_of(message),
                    parsed,
                ),
                None => queued matches Err(ServerError::MalformedParams(_)) && final(self)@
                    == old(self)@,
            },
    {
        let (req_id, parsed) = match message {
            Message::Request(request) => {
                let req_id = request.id.clone();
                match ParsedRequest::parse(request) {
                    Ok(Some(parsed)) => (Some(req_id), ParsedMessage::Request(parsed)),
                    Ok(None) => {
                        return Ok(());
                    },
                    Err(error) => {
                        return Err(error);
                    },
                }
            },
            Message::Notification(notification) => {
                match ParsedNotification::parse(notification) {
                    Ok(Some(parsed)) => (None, ParsedMessage::Notification(parsed)),
                    Ok(None) => {
                        return Ok(());
                    },
                    Err(error) => {
                        return Err(error);
                    },
                }
            },
            Message::Response(_) => {
                return Ok(());
            },
        };
        self.enqueue(req_id, parsed);
        Ok(())
    }

    /// Handles one message of the reading thread. A cancellation is applied
    /// to the queue at once and never waits in it: the request that it names
    /// leaves the queue, and a cancellation that does not decode is an error.
    /// Any other message is classified and queued.
    pub fn receive(&mut self, message: Message) -> (intake: Result<Intake, ServerError>)
        ensures
            Self::is_cancellation(message) ==> match Self::cancelled_by(message) {
                Some(id) => {
                    &&& intake == Ok::<Intake, ServerError>(Intake::Cancelled)
                    &&& final(self)@ == without_request(old(self)@, id)
                },
                None => {
                    &&& intake matches Err(ServerError::MalformedCancellation(_))
                    &&& final(self)@ == old(self)@
                },
            },
            !Self::is_cancellation(message) && !Self::handles(message) ==> intake == Ok::<
                Intake,
                ServerError,
            >(Intake::Ignored) && final(self)@ == old(self)@,
            !Self::is_cancellation(message) && Self::handles(message) ==> match Self::decoded_message(
                message,
            ) {
                Some(parsed) => intake == Ok::<Intake, ServerError>(Intake::Queued) && enqueued(
                    old(self)@,
                    final(self)@,
                    Self::id_of(message),
                    parsed,
                ),
                None => intake matches Err(ServerError::MalformedParams(_)) && final(self)@
                    == old(self)@,
            },
    {
        let cancellation = match &message {
            Message::Notification(notification) => is_method(&notification.method, CANCEL_REQUEST),
            _ => false,
        };
        if cancellation {
            match message {
                Message::Notification(notification) => {
                    match decode_cancel_params(notification.params) {
                        Ok(params) => {
                            self.cancel_request(params.id);
                            Ok(Intake::Cancelled)
                        },
                        Err(error) => Err(
                            ServerError::MalformedCancellation(json_error_text(&error)),
                        ),
                    }
                },
                _ => Ok(Intake::Ignored),
            }
        } else {
            let ghost handled = Self::handles(message);
            let before = self.queue.len();
            match self.queue_message(message) {
                Ok(_) => {
                    if self.queue.len() == before {
                        Ok(Intake::Ignored)
                    } else {
                        Ok(Intake::Queued)
                    }
                },
                Err(error) => Err(error),
            }
        }
    }

    /// Whether `message` is a cancellation.
    pub open spec fn is_cancellation(message: Message) -> bool {
        match message {
            Message::Notification(notification) => notification.method@ == CANCEL_REQUEST@,
            _ => false,
        }
    }

    /// The request that the cancellation `message` names; none where its
    /// parameters do not decode.
    pub open spec fn cancelled_by(message: Message) -> Option<RequestIdView> {
        match message {
            Message::Notification(notification) => match cancel_params_of(notification.params) {
                Some(params) => Some(params.id.request_id()),
                None => None,
            },
            _ => None,
        }
    }
}

/// For each container, whether a source has changed since its last build.
pub open spec fn needs_build_flags(containers: Seq<ProjectContainer>) -> Seq<bool> {
    containers.map_values(|container: ProjectContainer| container.needs_build)
}

/// The indices of the flags that are set, in increasing order.
pub open spec fn due_builds(flags: Seq<bool>) -> Seq<int>
    decreases flags.len(),
{
    if flags.len() == 0 {
        Seq::empty()
    } else if flags.last() {
        due_builds(flags.drop_last()).push(flags.len() - 1)
    } else {
        due_builds(flags.drop_last())
    }
}

/// The builds that are run before a message is handled: those that are due
/// where the message is gated, and none where it is not.
pub open spec fn builds_before(flags: Seq<bool>, gated: bool) -> Seq<int> {
    if gated {
        due_builds(flags)
    } else {
        Seq::empty()
    }
}

/// What the worker does with a message once the builds are done.
#[derive(Debug)]
pub enum WorkerStep {
    /// The queue was empty: wait until a message comes.
    Wait,
    /// Handle this message.
    Process(QueuedMessage),
}

/// One turn of the worker: the containers to build, in this order, and what
/// to do when they are built.
#[derive(Debug)]
pub struct WorkerPlan {
    /// The indices of the containers to build before anything else.
    pub builds: Vec<usize>,
    /// Whether the diagnostics are to be published behind the last build:
    /// they are where a build ran.
    pub publish: bool,
    pub step: WorkerStep,
}

/// The indices of the containers that need a build, in increasing order.
pub fn containers_to_build(server: &LanguageServer) -> (builds: Vec<usize>)
    ensures
        builds@.map_values(|index: usize| index as int) == due_builds(
            needs_build_flags(server.project_containers@),
        ),
        forall|i: int| 0 <= i < builds@.len() ==> builds@[i] < server.project_containers@.len(),
{
    let mut builds: Vec<usize> = Vec::new();
    let ghost flags = needs_build_flags(server.project_containers@);
    let mut i: usize = 0;
    assert(flags.take(0) == Seq::<bool>::empty());
    while i < server.project_containers.len()
        invariant
            i <= server.project_containers@.len(),
            flags == needs_build_flags(server.project_containers@),
            builds@.map_values(|index: usize| index as int) == due_builds(flags.take(i as int)),
            forall|k: int| 0 <= k < builds@.len() ==> builds@[k] < i,
        decreases server.project_containers@.len() - i,
    {
        let ghost before = builds@.map_values(|index: usize| index as int);
        proof {
            assert(flags.take(i + 1).drop_last() == flags.take(i as int));
            assert(flags.take(i + 1).last() == flags[i as int]);
        }
        if server.project_containers[i].needs_build {
            builds.push(i);
            assert(builds@.map_values(|index: usize| index as int) == before.push(i as int));
        }
        i += 1;
    }
    assert(flags.take(i as int) == flags);
    builds
}

/// One turn of the worker. It takes the oldest message out of the queue.
/// Where that message is gated, and where the queue was empty, every
/// container that needs a build is to be built first, and the diagnostics
/// are to be published if a build ran. Then the message is handled, or the
/// worker waits where there was none. Messages leave the queue in the order
/// in which they came.
pub fn message_processing_worker(server: &LanguageServer, queue: &mut MessageQueue) -> (plan:
    WorkerPlan)
    ensures
        old(queue)@.len() == 0 ==> final(queue)@ == old(queue)@ && plan.step is Wait,
        old(queue)@.len() > 0 ==> final(queue)@ == old(queue)@.drop_first() && plan.step
            == WorkerStep::Process(old(queue)@[0]),
        plan.builds@.map_values(|index: usize| index as int) == builds_before(
            needs_build_flags(server.project_containers@),
            old(queue)@.len() == 0 || old(queue)@[0].compile_gated,
        ),
        forall|i: int|
            0 <= i < plan.builds@.len() ==> plan.builds@[i] < server.project_containers@.len(),
        plan.publish == (plan.builds@.len() > 0),
{
    let front = queue.pop_front();
    let gated = match &front {
        Some(message) => message.compile_gated,
        None => true,
    };
    let builds = if gated {
        containers_to_build(server)
    } else {
        let none: Vec<usize> = Vec::new();
        assert(none@.map_values(|index: usize| index as int) == Seq::<int>::empty());
        none
    };
    let step = match front {
        Some(message) => WorkerStep::Process(message),
        None => WorkerStep::Wait,
    };
    let publish = builds.len() > 0;
    WorkerPlan { builds, publish, step }
}

/// The answer to the request `req_id`, whose handler ended with `outcome`:
/// the tokens as the result, or a failed request's error with the handler's
/// text. A request without an identifier cannot be answered.
pub fn respond(req_id: Option<RequestId>, outcome: Result<Vec<SemanticToken>, String>) -> (response:
    Result<Response, ServerError>)
    ensures
        match req_id {
            None => response matches Err(ServerError::MissingRequestId),
            Some(id) => response is Ok && response.unwrap().id == id && match outcome {
                Ok(tokens) => {
                    &&& response.unwrap().error is None
                    &&& response.unwrap().result is Some
                    &&& response.unwrap().result.unwrap().result_id is None
                    &&& response.unwrap().result.unwrap().data == tokens
                },
                Err(message) => {
                    &&& response.unwrap().result is None
                    &&& response.unwrap().error is Some
                    &&& response.unwrap().error.unwrap().code == REQUEST_FAILED
                    &&& response.unwrap().error.unwrap().message == message
                },
            },
        },
{
    let id = match req_id {
        Some(id) => id,
        None => {
            return Err(ServerError::MissingRequestId);
        },
    };
    match outcome {
        Ok(tokens) => Ok(
            Response {
                id,
                result: Some(SemanticTokens { result_id: None, data: tokens }),
                error: None,
            },
        ),
        Err(message) => Ok(Response { id, result: None, error: Some(req_failed(message)) }),
    }
}

/// What a message does to the build flags, as far as the worker's turns go.
pub enum Turn {
    /// A text change: not gated, and every container needs a build after it.
    Edit,
    /// A query: gated, and it leaves the flags as the builds left them.
    Query,
}

/// The number of builds in the turn that handles `turn`.
pub open spec fn builds_in_turn(flags: Seq<bool>, turn: Turn) -> nat {
    builds_before(flags, turn is Query).len()
}

/// The flags behind the turn that handles `turn`: a build clears the flag of
/// its container, and a text change sets them all.
pub open spec fn flags_after_turn(flags: Seq<bool>, turn: Turn) -> Seq<bool> {
    match turn {
        Turn::Edit => Seq::new(flags.len(), |i: int| true),
        Turn::Query => Seq::new(flags.len(), |i: int| false),
    }
}

/// The number of builds in the turns that handle `turns`, one after another.
pub open spec fn builds_in_turns(flags: Seq<bool>, turns: Seq<Turn>) -> nat
    decreases turns.len(),
{
    if turns.len() == 0 {
        0
    } else {
        builds_in_turn(flags, turns.first()) + builds_in_turns(
            flags_after_turn(flags, turns.first()),
            turns.drop_first(),
        )
    }
}

/// A text change leaves the flags as the turn of an edit says: all set.
pub proof fn lemma_edit_sets_flags(
    before: Seq<ProjectContainer>,
    after: Seq<ProjectContainer>,
    path: Seq<char>,
    contents: Seq<u8>,
)
    requires
        after.len() == before.len(),
        forall|c: int| 0 <= c < before.len() ==> before[c].edited(&#[trigger] after[c], path, contents),
    ensures
        needs_build_flags(after) == flags_after_turn(needs_build_flags(before), Turn::Edit),
{
    assert(needs_build_flags(after) =~= flags_after_turn(needs_build_flags(before), Turn::Edit));
}

/// Building every container that is due leaves the flags as the turn of a
/// query says: none set.
pub proof fn lemma_builds_clear_flags(before: Seq<ProjectContainer>, after: Seq<ProjectContainer>)
    requires
        after.len() == before.len(),
        forall|c: int|
            0 <= c < before.len() ==> !(#[trigger] after[c]).needs_build || (!before[c].needs_build
                && after[c] == before[c]),
    ensures
        needs_build_flags(after) == flags_after_turn(needs_build_flags(before), Turn::Query),
{
    assert(needs_build_flags(after) =~= flags_after_turn(needs_build_flags(before), Turn::Query));
}

/// Where every flag is set, every container is due.
pub proof fn lemma_all_due(flags: Seq<bool>)
    requires
        forall|i: int| 0 <= i < flags.len() ==> flags[i],
    ensures
        due_builds(flags).len() == flags.len(),
    decreases flags.len(),
{
    if flags.len() > 0 {
        lemma_all_due(flags.drop_last());
    }
}

/// Where no flag is set, no container is due.
pub proof fn lemma_none_due(flags: Seq<bool>)
    requires
        forall|i: int| 0 <= i < flags.len() ==> !flags[i],
    ensures
        due_builds(flags).len() == 0,
    decreases flags.len(),
{
    if flags.len() > 0 {
        lemma_none_due(flags.drop_last());
    }
}

/// Text changes are handled without a build, however many there are.
pub proof fn lemma_edits_build_nothing(flags: Seq<bool>, edits: nat)
    ensures
        builds_in_turns(flags, Seq::new(edits, |i: int| Turn::Edit)) == 0,
    decreases edits,
{
    let turns = Seq::new(edits, |i: int| Turn::Edit);
    if edits > 0 {
        let rest = Seq::new((edits - 1) as nat, |i: int| Turn::Edit);
        assert(turns.drop_first() == rest);
        lemma_edits_build_nothing(flags_after_turn(flags, Turn::Edit), (edits - 1) as nat);
    }
}

/// Any number of text changes, one at least, and one query behind them make
/// one build of each container: the changes are handled without a build,
/// and the query waits for one build of each container, however many
/// changes there were.
pub proof fn lemma_edits_coalesce(flags: Seq<bool>, edits: nat)
    requires
        edits >= 1,
    ensures
        builds_in_turns(flags, Seq::new(edits, |i: int| Turn::Edit).push(Turn::Query))
            == flags.len(),
    decreases edits,
{
    let turns = Seq::new(edits, |i: int| Turn::Edit).push(Turn::Query);
    let after = flags_after_turn(flags, Turn::Edit);
    assert(turns.first() == Turn::Edit);
    if edits == 1 {
        assert(turns.drop_first() == seq![Turn::Query]);
        let last = seq![Turn::Query];
        assert(last.drop_first() == Seq::<Turn>::empty());
        assert(builds_in_turns(flags_after_turn(after, Turn::Query), last.drop_first()) == 0);
        lemma_all_due(after);
        assert(builds_in_turns(after, last) == after.len());
    } else {
        let rest = Seq::new((edits - 1) as nat, |i: int| Turn::Edit).push(Turn::Query);
        assert(turns.drop_first() == rest);
        lemma_edits_coalesce(after, (edits - 1) as nat);
    }
}

/// A query that follows a query makes no build: the first has left nothing
/// due.
pub proof fn lemma_query_builds_once(flags: Seq<bool>)
    ensures
        builds_in_turns(flags_after_turn(flags, Turn::Query), seq![Turn::Query]) == 0,
{
    let after = flags_after_turn(flags, Turn::Query);
    let turns = seq![Turn::Query];
    lemma_none_due(after);
    assert(turns.drop_first() == Seq::<Turn>::empty());
    assert(builds_in_turns(flags_after_turn(after, Turn::Query), turns.drop_first()) == 0);
}

} // verus!
