//! The forwarding proxy: which of the remote peers gets a request, which
//! requests are refused, what the caller is told of what became of a request,
//! and how progress notifications find their way back.

use crate::table::{Key, Table};
use crate::text::{joined, stands_at};
use rmcp::model::{
    CallToolRequestMethod, CallToolResult, Content, ErrorData, GetPromptRequestMethod,
    InitializeResult, ListPromptsRequestMethod, ListResourceTemplatesRequestMethod,
    ListResourcesRequestMethod, ListToolsRequestMethod, ReadResourceRequestMethod, ServerResult,
    SetLevelRequestMethod, SubscribeRequestMethod, UnsubscribeRequestMethod,
};
use rmcp::ServiceError;
use std::time::Duration;
use vstd::arithmetic::div_mod::{
    lemma_fundamental_div_mod, lemma_fundamental_div_mod_converse, lemma_mod_bound, lemma_mod_mod,
    lemma_small_mod,
};
use vstd::prelude::*;
use vstd::string::*;

verus! {

/// `rmcp::model::ErrorData`: a JSON-RPC error.
#[verifier::external_type_specification]
#[verifier::external_body]
pub struct ExErrorData(ErrorData);

/// `rmcp::ServiceError`: why a request to a peer failed.
#[verifier::external_type_specification]
#[verifier::external_body]
pub struct ExServiceError(ServiceError);

/// `rmcp::model::CallToolResult`: the answer to a tool call.
#[verifier::external_type_specification]
#[verifier::external_body]
pub struct ExCallToolResult(CallToolResult);

/// `rmcp::model::ServerResult`: the answer to any request.
#[verifier::external_type_specification]
#[verifier::external_body]
pub struct ExServerResult(ServerResult);

/// `rmcp::model::InitializeResult`: what a server says of itself.
#[verifier::external_type_specification]
#[verifier::external_body]
pub struct ExInitializeResult(InitializeResult);

/// The guarded requests.
#[derive(Debug, Clone, Copy, PartialEq, Eq, Structural)]
pub enum Method {
    ListPrompts,
    GetPrompt,
    ListResources,
    ListResourceTemplates,
    ReadResource,
    Subscribe,
    Unsubscribe,
    SetLevel,
    ListTools,
    CallTool,
}

/// The name of a request's method.
pub open spec fn method_name(method: Method) -> Seq<char> {
    match method {
        Method::ListPrompts => "prompts/list"@,
        Method::GetPrompt => "prompts/get"@,
        Method::ListResources => "resources/list"@,
        Method::ListResourceTemplates => "resources/templates/list"@,
        Method::ReadResource => "resources/read"@,
        Method::Subscribe => "resources/subscribe"@,
        Method::Unsubscribe => "resources/unsubscribe"@,
        Method::SetLevel => "logging/setLevel"@,
        Method::ListTools => "tools/list"@,
        Method::CallTool => "tools/call"@,
    }
}

/// The capabilities that guard requests.
#[derive(Debug, Clone, Copy, PartialEq, Eq, Structural)]
pub struct Capabilities {
    pub prompts: bool,
    pub resources: bool,
    pub logging: bool,
    pub tools: bool,
}

/// A request is served where the capability that it belongs to is declared.
pub open spec fn served(capabilities: Capabilities, method: Method) -> bool {
    match method {
        Method::ListPrompts | Method::GetPrompt => capabilities.prompts,
        Method::ListResources | Method::ListResourceTemplates | Method::ReadResource
        | Method::Subscribe | Method::Unsubscribe => capabilities.resources,
        Method::SetLevel => capabilities.logging,
        Method::ListTools | Method::CallTool => capabilities.tools,
    }
}

/// What a JSON-RPC error says.
pub struct ErrorModel {
    pub code: int,
    pub message: Seq<char>,
    pub has_data: bool,
}

/// The error for a request that nobody serves.
pub open spec fn not_found_model(method: Method) -> ErrorModel {
    ErrorModel { code: -32601, message: method_name(method), has_data: false }
}

/// The error for a request that failed on the way.
pub open spec fn internal_model(message: Seq<char>) -> ErrorModel {
    ErrorModel { code: -32603, message, has_data: false }
}

/// What a JSON-RPC error says.
pub uninterp spec fn error_model(error: ErrorData) -> ErrorModel;

/// The capabilities that a server declares.
pub uninterp spec fn declared(info: InitializeResult) -> Capabilities;

/// The JSON-RPC error that a peer answered with, if that is what went wrong.
pub uninterp spec fn protocol_error(error: ServiceError) -> Option<ErrorData>;

/// What went wrong with a request, in words.
pub uninterp spec fn service_error_text(error: ServiceError) -> Seq<char>;

/// The answer to a tool call, if the answer is to one.
pub uninterp spec fn tool_result(answer: ServerResult) -> Option<CallToolResult>;

/// The text of the answer to a tool call that failed and says nothing else.
pub uninterp spec fn tool_failure(result: CallToolResult) -> Option<Seq<char>>;

/// A duration, in words.
pub uninterp spec fn duration_text(duration: Duration) -> Seq<char>;

/// The length of a duration in nanoseconds.
pub uninterp spec fn duration_nanos(duration: Duration) -> nat;

/// `Duration::saturating_sub`: the difference of two durations, and zero where
/// that would be negative.
pub assume_specification[ Duration::saturating_sub ](this: Duration, rhs: Duration) -> (left:
    Duration)
    ensures
        duration_nanos(left) == nanos_left(duration_nanos(this), duration_nanos(rhs)),
;

/// `ErrorData::method_not_found`: the error with the code -32601 and the method's
/// name as its message.
#[verifier::external_body]
fn method_not_found(method: Method) -> (error: ErrorData)
    ensures
        error_model(error) == not_found_model(method),
{
    match method {
        Method::ListPrompts => ErrorData::method_not_found::<ListPromptsRequestMethod>(),
        Method::GetPrompt => ErrorData::method_not_found::<GetPromptRequestMethod>(),
        Method::ListResources => ErrorData::method_not_found::<ListResourcesRequestMethod>(),
        Method::ListResourceTemplates => ErrorData::method_not_found::<ListResourceTemplatesRequestMethod>(),
        Method::ReadResource => ErrorData::method_not_found::<ReadResourceRequestMethod>(),
        Method::Subscribe => ErrorData::method_not_found::<SubscribeRequestMethod>(),
        Method::Unsubscribe => ErrorData::method_not_found::<UnsubscribeRequestMethod>(),
        Method::SetLevel => ErrorData::method_not_found::<SetLevelRequestMethod>(),
        Method::ListTools => ErrorData::method_not_found::<ListToolsRequestMethod>(),
        Method::CallTool => ErrorData::method_not_found::<CallToolRequestMethod>(),
    }
}

/// `ErrorData::internal_error`: the error with the code -32603 and the message.
#[verifier::external_body]
fn internal_error(message: String) -> (error: ErrorData)
    ensures
        error_model(error) == internal_model(message@),
{
    ErrorData::internal_error(message, None)
}

/// The fields of `ServerCapabilities`: which of them are there.
#[verifier::external_body]
fn read_capabilities(info: &InitializeResult) -> (capabilities: Capabilities)
    ensures
        capabilities == declared(*info),
{
    Capabilities {
        prompts: info.capabilities.prompts.is_some(),
        resources: info.capabilities.resources.is_some(),
        logging: info.capabilities.logging.is_some(),
        tools: info.capabilities.tools.is_some(),
    }
}

/// `InitializeResult::clone`: a copy.
pub assume_specification[ <InitializeResult as Clone>::clone ](info: &InitializeResult) -> (copy:
    InitializeResult)
    ensures
        copy == *info,
;

/// The variants of `ServiceError`: the JSON-RPC error of the peer, or the error
/// itself where it is another.
#[verifier::external_body]
fn split_service_error(error: ServiceError) -> (split: Result<ErrorData, ServiceError>)
    ensures
        match split {
            Ok(inner) => protocol_error(error) == Some(inner),
            Err(other) => protocol_error(error) is None && other == error,
        },
{
    match error {
        ServiceError::McpError(inner) => Ok(inner),
        other => Err(other),
    }
}

/// `ServiceError`'s `Display`: what went wrong, in words.
#[verifier::external_body]
fn describe(error: &ServiceError) -> (text: String)
    ensures
        text@ == service_error_text(*error),
{
    error.to_string()
}

/// The variants of `ServerResult`: the answer to a tool call, if it is one.
#[verifier::external_body]
fn read_tool_result(answer: ServerResult) -> (result: Option<CallToolResult>)
    ensures
        result == tool_result(answer),
{
    match answer {
        ServerResult::CallToolResult(result) => Some(result),
        _ => None,
    }
}

/// `CallToolResult::error`: an answer that is marked as an error and holds one
/// text.
#[verifier::external_body]
fn tool_error(text: String) -> (result: CallToolResult)
    ensures
        tool_failure(result) == Some(text@),
{
    CallToolResult::error(vec![Content::text(text)])
}

/// `Duration`'s `Debug`: the duration in words, such as `30s`.
#[verifier::external_body]
fn show_duration(duration: &Duration) -> (text: String)
    ensures
        text@ == duration_text(*duration),
{
    format!("{:?}", duration)
}

/// What the proxy waits for.
#[derive(Debug, Clone, Copy, PartialEq, Eq, Structural)]
pub enum Stage {
    Request,
    Send,
    Response,
}

/// What is said of a wait that took too long.
pub open spec fn timeout_text(stage: Stage, shown: Seq<char>) -> Seq<char> {
    (match stage {
        Stage::Request => "upstream request timed out after "@,
        Stage::Send => "upstream send timed out after "@,
        Stage::Response => "upstream response timed out after "@,
    }) + shown
}

/// Says that a wait took too long, given the time that it had in words.
pub fn timeout_message(stage: Stage, shown: &str) -> (text: String)
    ensures
        text@ == timeout_text(stage, shown@),
{
    match stage {
        Stage::Request => joined("upstream request timed out after ", shown),
        Stage::Send => joined("upstream send timed out after ", shown),
        Stage::Response => joined("upstream response timed out after ", shown),
    }
}

/// What a wait for a peer came to.
#[derive(Debug)]
pub enum Awaited<T> {
    /// The peer's answer, or why there is none.
    Finished(Result<T, ServiceError>),
    /// The time ran out.
    Elapsed,
}

/// The JSON-RPC error for what went wrong with a request: the peer's own error as
/// it is, anything else as an internal error in words.
pub open spec fn stands_for(error: ServiceError, result: ErrorData) -> bool {
    match protocol_error(error) {
        Some(inner) => result == inner,
        None => error_model(result) == internal_model(service_error_text(error)),
    }
}

/// Makes a JSON-RPC error of what went wrong with a request.
pub fn to_mcp_error(error: ServiceError) -> (result: ErrorData)
    ensures
        stands_for(error, result),
{
    match split_service_error(error) {
        Ok(inner) => inner,
        Err(other) => internal_error(describe(&other)),
    }
}

/// The ticket that comes after a ticket: the count starts over after the last.
pub open spec fn next_ticket(ticket: usize) -> usize {
    if ticket == usize::MAX {
        0
    } else {
        (ticket + 1) as usize
    }
}

/// The count of tickets that the requests to a pool take. All that forward to one
/// pool share one.
#[derive(Debug)]
pub struct Turns {
    next: usize,
}

impl Turns {
    /// The ticket that is next: how many were taken before, up to where the count
    /// starts over.
    pub closed spec fn taken(&self) -> usize {
        self.next
    }

    /// A count of which nothing was taken.
    pub fn new() -> (turns: Self)
        ensures
            turns.taken() == 0,
    {
        Turns { next: 0 }
    }

    /// Takes the next ticket.
    pub fn take(&mut self) -> (ticket: usize)
        ensures
            ticket == old(self).taken(),
            final(self).taken() == next_ticket(old(self).taken()),
    {
        let ticket: usize = self.next;
        self.next = if ticket == usize::MAX {
            0
        } else {
            ticket + 1
        };
        ticket
    }
}

/// The remote peers, as one server.
pub struct ForwardingProxy<P> {
    remotes: Vec<P>,
    remote_info: InitializeResult,
    timeout: Duration,
}

impl<P> ForwardingProxy<P> {
    /// The peers of the pool.
    pub closed spec fn peers(&self) -> Seq<P> {
        self.remotes@
    }

    /// What the remote server says of itself.
    pub closed spec fn info(&self) -> InitializeResult {
        self.remote_info
    }

    /// How long a request may take.
    pub closed spec fn limit(&self) -> Duration {
        self.timeout
    }

    #[verifier::type_invariant]
    spec fn has_a_peer(self) -> bool {
        self.remotes@.len() > 0
    }

    /// A proxy for a pool of connected peers of one remote server.
    pub fn new(remotes: Vec<P>, remote_info: InitializeResult, timeout: Duration) -> (proxy: Self)
        requires
            remotes@.len() > 0,
        ensures
            proxy.peers() == remotes@,
            proxy.info() == remote_info,
            proxy.limit() == timeout,
    {
        ForwardingProxy { remotes, remote_info, timeout }
    }

    /// The place in the pool that a ticket stands for: tickets go round the pool.
    pub open spec fn place(&self, ticket: usize) -> int {
        slot(ticket, self.peers().len())
    }

    /// The peer for a ticket.
    pub open spec fn peer_at(&self, ticket: usize) -> P {
        self.peers()[self.place(ticket)]
    }

    /// The place in the pool that a ticket stands for.
    fn place_for(&self, ticket: usize) -> (place: usize)
        ensures
            place == self.place(ticket),
            place < self.peers().len(),
    {
        proof {
            use_type_invariant(self);
        }
        ticket % self.remotes.len()
    }

    /// The peer for a ticket.
    pub fn peer_for(&self, ticket: usize) -> (peer: &P)
        ensures
            *peer == self.peer_at(ticket),
            self.peers().len() > 0,
    {
        &self.remotes[self.place_for(ticket)]
    }

    /// The next peer in turn.
    pub fn pick(&self, turns: &mut Turns) -> (peer: &P)
        ensures
            *peer == self.peer_at(old(turns).taken()),
            self.peers().len() > 0,
            final(turns).taken() == next_ticket(old(turns).taken()),
    {
        self.peer_for(turns.take())
    }

    /// What the proxy says of itself: what the remote server says.
    pub fn get_info(&self) -> (info: InitializeResult)
        ensures
            info == self.info(),
    {
        self.remote_info.clone()
    }

    /// How long a request may take.
    pub fn timeout(&self) -> (timeout: &Duration)
        ensures
            *timeout == self.limit(),
    {
        &self.timeout
    }

    /// The capabilities that the remote server declares.
    pub fn capabilities(&self) -> (capabilities: Capabilities)
        ensures
            capabilities == declared(self.info()),
    {
        read_capabilities(&self.remote_info)
    }
}

/// The place in a pool of `n` peers that a ticket stands for.
pub open spec fn slot(ticket: usize, n: nat) -> int {
    ticket as int % n as int
}

/// What is left of the time for a request, in nanoseconds.
pub open spec fn nanos_left(limit: nat, elapsed: nat) -> nat {
    if elapsed <= limit {
        (limit - elapsed) as nat
    } else {
        0
    }
}

/// What is left of the time for a request, given how much of it has passed: the
/// limit holds for all that is waited for in turn.
pub fn time_left(limit: Duration, elapsed: Duration) -> (left: Duration)
    ensures
        duration_nanos(left) == nanos_left(duration_nanos(limit), duration_nanos(elapsed)),
{
    limit.saturating_sub(elapsed)
}

/// Whether a request is served.
pub fn is_served(capabilities: Capabilities, method: Method) -> (serves: bool)
    ensures
        serves == served(capabilities, method),
{
    match method {
        Method::ListPrompts | Method::GetPrompt => capabilities.prompts,
        Method::ListResources | Method::ListResourceTemplates | Method::ReadResource
        | Method::Subscribe | Method::Unsubscribe => capabilities.resources,
        Method::SetLevel => capabilities.logging,
        Method::ListTools | Method::CallTool => capabilities.tools,
    }
}

/// What the caller is told of a forwarded request: the peer's answer, the error
/// that stands for what went wrong, or that the time ran out.
pub open spec fn forwarded<T>(
    outcome: Awaited<T>,
    limit: Duration,
    result: Result<T, ErrorData>,
) -> bool {
    match outcome {
        Awaited::Finished(Ok(value)) => result == Ok::<T, ErrorData>(value),
        Awaited::Finished(Err(error)) => result matches Err(e) && stands_for(error, e),
        Awaited::Elapsed => result matches Err(e) && error_model(e) == internal_model(
            timeout_text(Stage::Request, duration_text(limit)),
        ),
    }
}

/// What the caller is told of a tool call: the peer's answer, or an answer that
/// says what went wrong. A wait that took too long is named by its stage.
pub open spec fn tool_answer(
    outcome: Awaited<CallToolResult>,
    stage: Stage,
    limit: Duration,
    result: CallToolResult,
) -> bool {
    match outcome {
        Awaited::Finished(Ok(value)) => result == value,
        Awaited::Finished(Err(error)) => tool_failure(result) == Some(service_error_text(error)),
        Awaited::Elapsed => tool_failure(result) == Some(timeout_text(stage, duration_text(limit))),
    }
}

/// What is said of an answer that is not one to a tool call.
pub open spec fn unexpected_text() -> Seq<char> {
    "unexpected response type from remote server"@
}

/// What the caller is told of the answer to a tool call whose progress is
/// followed.
pub open spec fn response_answer(
    outcome: Awaited<ServerResult>,
    limit: Duration,
    result: CallToolResult,
) -> bool {
    match outcome {
        Awaited::Finished(Ok(answer)) => match tool_result(answer) {
            Some(value) => result == value,
            None => tool_failure(result) == Some(unexpected_text()),
        },
        Awaited::Finished(Err(error)) => tool_failure(result) == Some(service_error_text(error)),
        Awaited::Elapsed => tool_failure(result) == Some(
            timeout_text(Stage::Response, duration_text(limit)),
        ),
    }
}

/// How a tool call is to be made, and of which peer: all of it of the same one.
pub enum ToolCall<'a, P> {
    /// The caller does not follow the progress: just forward the call.
    Forward(&'a P),
    /// The caller follows the progress under its own token: send the call over the
    /// connection that has this place in the pool, and wait for the answer.
    Follow(&'a P, usize, ProgressToken),
}

/// What becomes of a request that takes its turn, given the tickets before and
/// after.
pub open spec fn routes<P>(
    proxy: ForwardingProxy<P>,
    method: Method,
    before: usize,
    after: usize,
    routed: Result<&P, ErrorData>,
) -> bool {
    if served(declared(proxy.info()), method) {
        &&& routed matches Ok(peer) && *peer == proxy.peer_at(before)
        &&& after == next_ticket(before)
    } else {
        &&& routed matches Err(error) && error_model(error) == not_found_model(method)
        &&& after == before
    }
}

/// How a tool call begins, given the tickets before and after.
pub open spec fn begins<P>(
    proxy: ForwardingProxy<P>,
    caller_token: Option<ProgressToken>,
    before: usize,
    after: usize,
    call: Result<ToolCall<'_, P>, ErrorData>,
) -> bool {
    if served(declared(proxy.info()), Method::CallTool) {
        &&& after == next_ticket(before)
        &&& caller_token is None ==> (call matches Ok(ToolCall::Forward(peer)) && *peer
            == proxy.peer_at(before))
        &&& caller_token matches Some(token) ==> (call matches Ok(
            ToolCall::Follow(peer, connection, t),
        ) && *peer == proxy.peer_at(before) && connection == proxy.place(before) && t == token)
    } else {
        &&& after == before
        &&& call matches Err(error) && error_model(error) == not_found_model(Method::CallTool)
    }
}

/// How a tool call goes on after it was to be sent, given the relay map before and
/// after.
pub open spec fn sends<C>(
    before: Map<(int, TokenModel), (C, TokenModel)>,
    connection: int,
    caller: C,
    caller_token: TokenModel,
    outcome: Awaited<ProgressToken>,
    limit: Duration,
    after: Map<(int, TokenModel), (C, TokenModel)>,
    sent: Result<ProgressToken, CallToolResult>,
) -> bool {
    match outcome {
        Awaited::Finished(Ok(remote_token)) => {
            &&& sent matches Ok(token) && token@ == remote_token@
            &&& after == before.insert((connection, remote_token@), (caller, caller_token))
        },
        Awaited::Finished(Err(error)) => {
            &&& sent matches Err(result) && tool_failure(result) == Some(service_error_text(error))
            &&& after == before
        },
        Awaited::Elapsed => {
            &&& sent matches Err(result) && tool_failure(result) == Some(
                timeout_text(Stage::Send, duration_text(limit)),
            )
            &&& after == before
        },
    }
}

/// How a tool call that was sent ends, given the relay map before and after.
pub open spec fn ends<C>(
    before: Map<(int, TokenModel), (C, TokenModel)>,
    connection: int,
    remote_token: TokenModel,
    outcome: Awaited<ServerResult>,
    limit: Duration,
    after: Map<(int, TokenModel), (C, TokenModel)>,
    result: CallToolResult,
) -> bool {
    &&& response_answer(outcome, limit, result)
    &&& after == before.remove((connection, remote_token))
}

impl<P> ForwardingProxy<P> {
    /// Routes a request: to the next peer in turn, if the remote server declares
    /// the capability that the request belongs to. Otherwise it is refused, and
    /// takes no turn.
    pub fn route(&self, method: Method, turns: &mut Turns) -> (routed: Result<&P, ErrorData>)
        ensures
            routes(*self, method, old(turns).taken(), final(turns).taken(), routed),
            match routed {
                Ok(peer) => {
                    &&& served(declared(self.info()), method)
                    &&& *peer == self.peer_at(old(turns).taken())
                    &&& self.peers().len() > 0
                    &&& final(turns).taken() == next_ticket(old(turns).taken())
                },
                Err(error) => {
                    &&& !served(declared(self.info()), method)
                    &&& error_model(error) == not_found_model(method)
                    &&& final(turns).taken() == old(turns).taken()
                },
            },
    {
        if !is_served(self.capabilities(), method) {
            return Err(method_not_found(method));
        }
        Ok(self.pick(turns))
    }

    /// Says what the caller is told of a forwarded request.
    pub fn forward<T>(&self, outcome: Awaited<T>) -> (result: Result<T, ErrorData>)
        ensures
            forwarded(outcome, self.limit(), result),
    {
        match outcome {
            Awaited::Finished(Ok(value)) => Ok(value),
            Awaited::Finished(Err(error)) => Err(to_mcp_error(error)),
            Awaited::Elapsed => Err(internal_error(self.timed_out(Stage::Request))),
        }
    }

    /// Says what the caller is told of a forwarded tool call. It never is an
    /// error of the protocol.
    pub fn forward_tool_call(&self, outcome: Awaited<CallToolResult>) -> (result: CallToolResult)
        ensures
            tool_answer(outcome, Stage::Request, self.limit(), result),
    {
        match outcome {
            Awaited::Finished(Ok(value)) => value,
            Awaited::Finished(Err(error)) => tool_error(describe(&error)),
            Awaited::Elapsed => tool_error(self.timed_out(Stage::Request)),
        }
    }

    /// Says that a peer took too long.
    fn timed_out(&self, stage: Stage) -> (text: String)
        ensures
            text@ == timeout_text(stage, duration_text(self.limit())),
    {
        timeout_message(stage, show_duration(&self.timeout).as_str())
    }

    /// Begins a tool call, given the token under which the caller follows its
    /// progress, if there is one. A call that is refused takes no turn.
    pub fn begin_tool_call(
        &self,
        caller_token: Option<ProgressToken>,
        turns: &mut Turns,
    ) -> (call: Result<ToolCall<'_, P>, ErrorData>)
        ensures
            begins(*self, caller_token, old(turns).taken(), final(turns).taken(), call),
            match call {
                Ok(ToolCall::Forward(peer)) => {
                    &&& served(declared(self.info()), Method::CallTool)
                    &&& caller_token is None
                    &&& *peer == self.peer_at(old(turns).taken())
                    &&& self.peers().len() > 0
                    &&& final(turns).taken() == next_ticket(old(turns).taken())
                },
                Ok(ToolCall::Follow(peer, connection, token)) => {
                    &&& served(declared(self.info()), Method::CallTool)
                    &&& caller_token == Some(token)
                    &&& *peer == self.peer_at(old(turns).taken())
                    &&& self.peers().len() > 0
                    &&& connection == self.place(old(turns).taken())
                    &&& final(turns).taken() == next_ticket(old(turns).taken())
                },
                Err(error) => {
                    &&& !served(declared(self.info()), Method::CallTool)
                    &&& error_model(error) == not_found_model(Method::CallTool)
                    &&& final(turns).taken() == old(turns).taken()
                },
            },
    {
        if !is_served(self.capabilities(), Method::CallTool) {
            return Err(method_not_found(Method::CallTool));
        }
        let connection: usize = self.place_for(turns.take());
        let peer = &self.remotes[connection];
        match caller_token {
            Some(token) => Ok(ToolCall::Follow(peer, connection, token)),
            None => Ok(ToolCall::Forward(peer)),
        }
    }

    /// Goes on with a tool call that was sent over a connection, or not. `outcome`
    /// is the token that the call got on its way to the peer. Notifications with
    /// that token are relayed from now on; a call that was not sent is answered.
    pub fn tool_call_sent<C>(
        &self,
        relay: &mut ProgressRelayMap<C>,
        connection: usize,
        caller: C,
        caller_token: ProgressToken,
        outcome: Awaited<ProgressToken>,
    ) -> (sent: Result<ProgressToken, CallToolResult>)
        ensures
            sends(
                old(relay)@,
                connection as int,
                caller,
                caller_token@,
                outcome,
                self.limit(),
                final(relay)@,
                sent,
            ),
            match outcome {
                Awaited::Finished(Ok(remote_token)) => {
                    &&& sent matches Ok(token) && token@ == remote_token@
                    &&& final(relay)@ == old(relay)@.insert(
                        (connection as int, remote_token@),
                        (caller, caller_token@),
                    )
                },
                Awaited::Finished(Err(error)) => {
                    &&& sent matches Err(result) && tool_failure(result) == Some(
                        service_error_text(error),
                    )
                    &&& final(relay)@ == old(relay)@
                },
                Awaited::Elapsed => {
                    &&& sent matches Err(result) && tool_failure(result) == Some(
                        timeout_text(Stage::Send, duration_text(self.limit())),
                    )
                    &&& final(relay)@ == old(relay)@
                },
            },
    {
        match outcome {
            Awaited::Finished(Ok(remote_token)) => {
                relay.register(connection, remote_token.duplicate(), caller, caller_token);
                Ok(remote_token)
            },
            Awaited::Finished(Err(error)) => Err(tool_error(describe(&error))),
            Awaited::Elapsed => Err(tool_error(self.timed_out(Stage::Send))),
        }
    }

    /// Ends a tool call that was sent: nothing is relayed under its token any
    /// more, and the caller is answered.
    pub fn tool_call_answered<C>(
        &self,
        relay: &mut ProgressRelayMap<C>,
        connection: usize,
        remote_token: &ProgressToken,
        outcome: Awaited<ServerResult>,
    ) -> (result: CallToolResult)
        ensures
            ends(
                old(relay)@,
                connection as int,
                remote_token@,
                outcome,
                self.limit(),
                final(relay)@,
                result,
            ),
            response_answer(outcome, self.limit(), result),
            final(relay)@ == old(relay)@.remove((connection as int, remote_token@)),
    {
        relay.unregister(connection, remote_token);
        match outcome {
            Awaited::Finished(Ok(answer)) => match read_tool_result(answer) {
                Some(value) => value,
                None => tool_error("unexpected response type from remote server".to_owned()),
            },
            Awaited::Finished(Err(error)) => tool_error(describe(&error)),
            Awaited::Elapsed => tool_error(self.timed_out(Stage::Response)),
        }
    }
}

/// A token that marks the progress notifications of one request.
#[derive(Debug, PartialEq, Eq, Hash)]
pub enum ProgressToken {
    Number(i64),
    Text(String),
}

/// The model of a `ProgressToken`.
pub enum TokenModel {
    Number(int),
    Text(Seq<char>),
}

impl View for ProgressToken {
    type V = TokenModel;

    open spec fn view(&self) -> TokenModel {
        match self {
            ProgressToken::Number(n) => TokenModel::Number(*n as int),
            ProgressToken::Text(text) => TokenModel::Text(text@),
        }
    }
}

impl ProgressToken {
    /// The same token.
    pub fn duplicate(&self) -> (copy: ProgressToken)
        ensures
            copy@ == self@,
    {
        match self {
            ProgressToken::Number(n) => ProgressToken::Number(*n),
            ProgressToken::Text(text) => ProgressToken::Text(text.clone()),
        }
    }
}

impl Key for ProgressToken {
    fn same(&self, other: &Self) -> (same: bool) {
        match (self, other) {
            (ProgressToken::Number(a), ProgressToken::Number(b)) => *a == *b,
            (ProgressToken::Text(a), ProgressToken::Text(b)) => *a == *b,
            _ => false,
        }
    }
}

/// A token of one of the connections: each of them counts its own.
#[derive(Debug)]
struct RelayKey {
    connection: usize,
    token: ProgressToken,
}

impl View for RelayKey {
    type V = (int, TokenModel);

    closed spec fn view(&self) -> (int, TokenModel) {
        (self.connection as int, self.token@)
    }
}

impl Key for RelayKey {
    fn same(&self, other: &Self) -> (same: bool) {
        self.connection == other.connection && self.token.same(&other.token)
    }
}

/// Who follows the progress of a request, and under which token.
struct RelayEntry<C> {
    caller: C,
    token: ProgressToken,
}

impl<C> View for RelayEntry<C> {
    type V = (C, TokenModel);

    closed spec fn view(&self) -> (C, TokenModel) {
        (self.caller, self.token@)
    }
}

/// For each request under way whose progress is followed: its connection and the
/// token that it got there, with its caller and the token that the caller uses.
pub struct ProgressRelayMap<C> {
    entries: Table<RelayKey, RelayEntry<C>>,
}

impl<C> View for ProgressRelayMap<C> {
    type V = Map<(int, TokenModel), (C, TokenModel)>;

    closed spec fn view(&self) -> Map<(int, TokenModel), (C, TokenModel)> {
        self.entries@
    }
}

/// A relay map without entries.
pub fn new_progress_relay_map<C>() -> (map: ProgressRelayMap<C>)
    ensures
        map@ == Map::<(int, TokenModel), (C, TokenModel)>::empty(),
{
    ProgressRelayMap { entries: Table::new() }
}

/// A progress notification: its token, and all that it says beside.
pub struct ProgressNotification<B> {
    pub progress_token: ProgressToken,
    pub body: B,
}

impl<C> ProgressRelayMap<C> {
    /// Relays notifications of a connection with `remote_token` to `caller` from
    /// now on.
    pub fn register(
        &mut self,
        connection: usize,
        remote_token: ProgressToken,
        caller: C,
        caller_token: ProgressToken,
    )
        ensures
            final(self)@ == old(self)@.insert(
                (connection as int, remote_token@),
                (caller, caller_token@),
            ),
    {
        let key = RelayKey { connection, token: remote_token };
        self.entries.insert(key, RelayEntry { caller, token: caller_token });
    }

    /// Relays notifications of a connection with `remote_token` no more.
    pub fn unregister(&mut self, connection: usize, remote_token: &ProgressToken)
        ensures
            final(self)@ == old(self)@.remove((connection as int, remote_token@)),
    {
        self.entries.remove(&RelayKey { connection, token: remote_token.duplicate() });
    }

    /// Who gets a notification that came over a connection, and what it then says:
    /// the same under the caller's own token. A notification with a token that
    /// nobody follows goes to nobody.
    pub fn on_progress<B>(
        &self,
        connection: usize,
        notification: ProgressNotification<B>,
    ) -> (relayed: Option<(&C, ProgressNotification<B>)>)
        ensures
            match relayed {
                Some((caller, sent)) => relays(
                    self@,
                    connection as int,
                    notification,
                    *caller,
                    sent,
                ),
                None => !self@.contains_key((connection as int, notification.progress_token@)),
            },
    {
        let key = RelayKey { connection, token: notification.progress_token };
        match self.entries.get(&key) {
            Some(entry) => Some(
                (
                    &entry.caller,
                    ProgressNotification {
                        progress_token: entry.token.duplicate(),
                        body: notification.body,
                    },
                ),
            ),
            None => None,
        }
    }
}

/// A notification that came over a connection reaches a caller as `sent`.
pub open spec fn relays<C, B>(
    map: Map<(int, TokenModel), (C, TokenModel)>,
    connection: int,
    notification: ProgressNotification<B>,
    caller: C,
    sent: ProgressNotification<B>,
) -> bool {
    &&& map.contains_key((connection, notification.progress_token@))
    &&& map[(connection, notification.progress_token@)] == (caller, sent.progress_token@)
    &&& sent.body == notification.body
}

/// The ticket that is next after `k` more were taken.
pub open spec fn ticket_after(first: usize, k: nat) -> usize
    decreases k,
{
    if k == 0 {
        first
    } else {
        next_ticket(ticket_after(first, (k - 1) as nat))
    }
}

/// Tickets are counted one by one, and start over after the last.
proof fn lemma_ticket_after(first: usize, k: nat)
    ensures
        ticket_after(first, k) == (first + k) % (usize::MAX + 1),
    decreases k,
{
    let m: int = usize::MAX + 1;
    if k == 0 {
        lemma_small_mod(first as nat, m as nat);
    } else {
        let j = (k - 1) as nat;
        lemma_ticket_after(first, j);
        lemma_mod_bound(first + j, m);
        lemma_fundamental_div_mod(first + j, m);
        let before = ticket_after(first, j) as int;
        let q = (first + j) / m;
        if before == usize::MAX {
            assert(first + k == (q + 1) * m + 0) by (nonlinear_arith)
                requires
                    first + j == m * q + before,
                    before == m - 1,
                    k == j + 1,
            ;
            lemma_fundamental_div_mod_converse(first + k, m, q + 1, 0);
        } else {
            assert(first + k == q * m + (before + 1)) by (nonlinear_arith)
                requires
                    first + j == m * q + before,
                    k == j + 1,
            ;
            lemma_fundamental_div_mod_converse(first + k, m, q, before + 1);
        }
    }
}

/// The window of tickets from `first` on in which the pool is gone round without
/// a break: the count does not start over in it, or it does so at the pool's
/// first peer.
pub open spec fn unbroken(first: usize, k: nat, n: nat) -> bool {
    first + k <= usize::MAX || (usize::MAX + 1) % n as int == 0
}

/// In an unbroken window, the pool is gone round peer by peer.
pub proof fn lemma_turns_go_round(first: usize, k: nat, n: nat)
    requires
        n > 0,
        unbroken(first, k, n),
    ensures
        slot(ticket_after(first, k), n) == (first + k) % n as int,
{
    lemma_ticket_after(first, k);
    let m: int = usize::MAX + 1;
    if first + k <= usize::MAX {
        lemma_small_mod((first + k) as nat, m as nat);
    } else {
        lemma_fundamental_div_mod(m, n as int);
        let b = m / n as int;
        assert(n * b == m);
        assert(b > 0) by (nonlinear_arith)
            requires
                n * b == m,
                m > 0,
                n > 0,
        ;
        lemma_mod_mod(first + k, n as int, b);
    }
}

/// After `k` picks the next one gives the peer at place `k` modulo the size of the
/// pool, as long as the count did not start over.
pub proof fn law_picks_follow_the_pool(k: usize, n: nat)
    requires
        n > 0,
    ensures
        slot(ticket_after(0, k as nat), n) == k as int % n as int,
{
    lemma_turns_go_round(0, k as nat, n);
}

/// As many picks in a row as there are peers give each place of the pool exactly
/// once: one of them gives the place `i`, and no other does.
pub proof fn law_picks_in_a_row_give_each_peer_once(first: usize, n: nat, i: int) -> (k: nat)
    requires
        0 <= i < n,
        unbroken(first, (n - 1) as nat, n),
    ensures
        k < n,
        slot(ticket_after(first, k), n) == i,
        forall|other: nat|
            other < n && other != k ==> slot(#[trigger] ticket_after(first, other), n) != i,
{
    let d = n as int;
    let start = first as int % d;
    lemma_mod_bound(first as int, d);
    lemma_fundamental_div_mod(first as int, d);
    let whole = first as int / d;
    let (k, q) = if i >= start {
        ((i - start) as nat, whole)
    } else {
        ((i - start + d) as nat, whole + 1)
    };
    assert(first + k == q * d + i) by (nonlinear_arith)
        requires
            first as int == d * whole + start,
            i >= start ==> k == i - start && q == whole,
            i < start ==> k == i - start + d && q == whole + 1,
    ;
    lemma_fundamental_div_mod_converse(first + k, d, q, i);
    lemma_turns_go_round(first, k, n);
    assert forall|other: nat| other < n && other != k implies slot(
        #[trigger] ticket_after(first, other),
        n,
    ) != i by {
        lemma_turns_go_round(first, other, n);
        if other < k {
            lemma_different_places(first + other, first + k, d);
        } else {
            lemma_different_places(first + k, first + other, d);
        }
    }
    k
}

/// Tickets are counted one by one from the ticket that is next.
pub proof fn law_tickets_are_counted(first: usize, k: nat)
    ensures
        ticket_after(first, 0) == first,
        first + k <= usize::MAX ==> ticket_after(first, k) == first + k,
        ticket_after(first, k + 1) == next_ticket(ticket_after(first, k)),
        first < usize::MAX ==> next_ticket(first) == first + 1,
        next_ticket(usize::MAX) == 0,
{
    lemma_ticket_after(first, k);
    if first + k <= usize::MAX {
        lemma_small_mod((first + k) as nat, (usize::MAX + 1) as nat);
    }
}

/// After `k` picks of a pool, whatever its size, the next one gives the peer at
/// place `k` modulo that size, as long as the count did not start over.
pub proof fn law_peers_take_turns<P>(proxy: ForwardingProxy<P>, k: usize)
    requires
        proxy.peers().len() > 0,
    ensures
        proxy.peer_at(ticket_after(0, k as nat)) == proxy.peers()[k as int
            % proxy.peers().len() as int],
        proxy.place(ticket_after(0, k as nat)) == k as int % proxy.peers().len() as int,
{
    lemma_turns_go_round(0, k as nat, proxy.peers().len());
}

/// As many picks in a row as a pool has peers, whatever its size and the ticket
/// that is next, give each of its peers exactly once: one of the picks gives the
/// peer at the place `i`, and no other pick does. Left out are picks among which
/// the count starts over at another than the pool's first peer.
pub proof fn law_a_round_gives_each_peer_once<P>(
    proxy: ForwardingProxy<P>,
    first: usize,
    i: int,
) -> (k: nat)
    requires
        0 <= i < proxy.peers().len(),
        first + proxy.peers().len() - 1 <= usize::MAX || (usize::MAX + 1)
            % proxy.peers().len() as int == 0,
    ensures
        k < proxy.peers().len(),
        proxy.peer_at(ticket_after(first, k)) == proxy.peers()[i],
        proxy.place(ticket_after(first, k)) == i,
        forall|other: nat|
            other < proxy.peers().len() && other != k ==> proxy.place(
                #[trigger] ticket_after(first, other),
            ) != i,
{
    law_picks_in_a_row_give_each_peer_once(first, proxy.peers().len(), i)
}

/// The peer for a ticket stands at the ticket's place, which is one of the pool's.
pub proof fn law_peers_stand_at_their_places<P>(proxy: ForwardingProxy<P>, ticket: usize)
    requires
        proxy.peers().len() > 0,
    ensures
        0 <= proxy.place(ticket) < proxy.peers().len(),
        proxy.peer_at(ticket) == proxy.peers()[proxy.place(ticket)],
{
    lemma_mod_bound(ticket as int, proxy.peers().len() as int);
}

/// Numbers less than `d` apart have different remainders.
proof fn lemma_different_places(a: int, b: int, d: int)
    requires
        a < b < a + d,
    ensures
        a % d != b % d,
{
    if a % d == b % d {
        lemma_fundamental_div_mod(a, d);
        lemma_fundamental_div_mod(b, d);
        let q = b / d - a / d;
        assert(b - a == d * q) by (nonlinear_arith)
            requires
                a == d * (a / d) + a % d,
                b == d * (b / d) + b % d,
                a % d == b % d,
                q == b / d - a / d,
        ;
        assert(false) by (nonlinear_arith)
            requires
                b - a == d * q,
                0 < b - a < d,
        ;
    }
}

/// A request gets no more time than the limit in all: what has passed and what is
/// left come to the limit, unless more has passed already, and then nothing is
/// left.
pub proof fn law_time_is_limited_in_all(limit: nat, elapsed: nat)
    ensures
        elapsed <= limit ==> elapsed + nanos_left(limit, elapsed) == limit,
        elapsed > limit ==> nanos_left(limit, elapsed) == 0,
{
}

/// A call whose token is not in use on its connection leaves the relay map as it
/// was: what its sending put there, its answer takes away.
pub proof fn law_followed_call_leaves_no_trace<C>(
    map: Map<(int, TokenModel), (C, TokenModel)>,
    connection: int,
    remote_token: TokenModel,
    caller: C,
    caller_token: TokenModel,
)
    requires
        !map.contains_key((connection, remote_token)),
    ensures
        map.insert((connection, remote_token), (caller, caller_token)).remove(
            (connection, remote_token),
        ) == map,
{
    assert(map.insert((connection, remote_token), (caller, caller_token)).remove(
        (connection, remote_token),
    ) =~= map);
}

/// Calls on different connections do not get into each other's way, even if they
/// got the same token: the answer to one leaves the other as it is.
pub proof fn law_connections_are_kept_apart<C>(
    map: Map<(int, TokenModel), (C, TokenModel)>,
    one: int,
    other: int,
    remote_token: TokenModel,
    entry: (C, TokenModel),
    other_entry: (C, TokenModel),
)
    requires
        one != other,
        !map.contains_key((one, remote_token)),
    ensures
        map.insert((one, remote_token), entry).insert((other, remote_token), other_entry).remove(
            (one, remote_token),
        ) == map.insert((other, remote_token), other_entry),
{
    assert(map.insert((one, remote_token), entry).insert(
        (other, remote_token),
        other_entry,
    ).remove((one, remote_token)) =~= map.insert((other, remote_token), other_entry));
}

/// While a call is under way, a notification of its connection with its token
/// reaches its caller under the caller's own token and is otherwise unchanged, and
/// any other notification goes where it went before.
pub proof fn law_notifications_reach_their_callers<C, B>(
    map: Map<(int, TokenModel), (C, TokenModel)>,
    connection: int,
    remote_token: TokenModel,
    caller: C,
    caller_token: TokenModel,
    from: int,
    notification: ProgressNotification<B>,
    receiver: C,
    sent: ProgressNotification<B>,
)
    ensures
        ({
            let under_way = map.insert((connection, remote_token), (caller, caller_token));
            if from == connection && notification.progress_token@ == remote_token {
                relays(under_way, from, notification, receiver, sent) <==> {
                    &&& receiver == caller
                    &&& sent.progress_token@ == caller_token
                    &&& sent.body == notification.body
                }
            } else {
                relays(under_way, from, notification, receiver, sent) <==> relays(
                    map,
                    from,
                    notification,
                    receiver,
                    sent,
                )
            }
        }),
{
}

/// A tool call that failed, whether forwarded or followed, is answered in words,
/// and a failure of the service in the same words either way.
pub proof fn law_failed_tool_calls_are_told_in_words(
    error: ServiceError,
    limit: Duration,
    direct: CallToolResult,
    followed: CallToolResult,
)
    requires
        tool_answer(Awaited::Finished(Err(error)), Stage::Request, limit, direct),
        response_answer(Awaited::Finished(Err(error)), limit, followed),
    ensures
        tool_failure(direct) == Some(service_error_text(error)),
        tool_failure(followed) == Some(service_error_text(error)),
{
}

/// The capability that guards a request is the one that its method's name begins
/// with, and every guarded request has one.
pub proof fn law_requests_are_guarded_by_name(capabilities: Capabilities, method: Method)
    ensures
        stands_at(method_name(method), "prompts/"@, 0) ==> (served(capabilities, method)
            <==> capabilities.prompts),
        stands_at(method_name(method), "resources/"@, 0) ==> (served(capabilities, method)
            <==> capabilities.resources),
        stands_at(method_name(method), "logging/"@, 0) ==> (served(capabilities, method)
            <==> capabilities.logging),
        stands_at(method_name(method), "tools/"@, 0) ==> (served(capabilities, method)
            <==> capabilities.tools),
        stands_at(method_name(method), "prompts/"@, 0) || stands_at(
            method_name(method),
            "resources/"@,
            0,
        ) || stands_at(method_name(method), "logging/"@, 0) || stands_at(
            method_name(method),
            "tools/"@,
            0,
        ),
{
    reveal_strlit("prompts/");
    reveal_strlit("resources/");
    reveal_strlit("logging/");
    reveal_strlit("tools/");
    lemma_method_names();
    let name = method_name(method);
    if stands_at(name, "prompts/"@, 0) {
        assert("prompts/"@[0] == 'p');
    }
    if stands_at(name, "resources/"@, 0) {
        assert("resources/"@[0] == 'r');
    }
    if stands_at(name, "logging/"@, 0) {
        assert("logging/"@[0] == 'l');
    }
    if stands_at(name, "tools/"@, 0) {
        assert("tools/"@[0] == 't');
    }
}

/// How the names of the methods begin.
proof fn lemma_method_names()
    ensures
        stands_at("resources/list"@, "resources/"@, 0),
        stands_at("resources/templates/list"@, "resources/"@, 0),
        stands_at("resources/read"@, "resources/"@, 0),
        stands_at("resources/subscribe"@, "resources/"@, 0),
        stands_at("resources/unsubscribe"@, "resources/"@, 0),
        stands_at("logging/setLevel"@, "logging/"@, 0),
        stands_at("tools/list"@, "tools/"@, 0),
        stands_at("tools/call"@, "tools/"@, 0),
        stands_at("prompts/list"@, "prompts/"@, 0),
        stands_at("prompts/get"@, "prompts/"@, 0),
        "prompts/list"@[0] == 'p',
        "prompts/get"@[0] == 'p',
        "resources/list"@[0] == 'r',
        "resources/templates/list"@[0] == 'r',
        "resources/read"@[0] == 'r',
        "resources/subscribe"@[0] == 'r',
        "resources/unsubscribe"@[0] == 'r',
        "logging/setLevel"@[0] == 'l',
        "tools/list"@[0] == 't',
        "tools/call"@[0] == 't',
{
    reveal_strlit("prompts/");
    reveal_strlit("resources/");
    reveal_strlit("logging/");
    reveal_strlit("tools/");
    reveal_strlit("prompts/list");
    reveal_strlit("prompts/get");
    reveal_strlit("resources/list");
    reveal_strlit("resources/templates/list");
    reveal_strlit("resources/read");
    reveal_strlit("resources/subscribe");
    reveal_strlit("resources/unsubscribe");
    reveal_strlit("logging/setLevel");
    reveal_strlit("tools/list");
    reveal_strlit("tools/call");
}

/// Each request is guarded by its own capability: lists and reads of prompts by
/// prompts, those of resources and their subscriptions by resources, the log level
/// by logging, lists and calls of tools by tools. The other capabilities make no
/// difference.
pub proof fn law_capabilities_guard_their_own_requests(capabilities: Capabilities)
    ensures
        served(capabilities, Method::ListPrompts) <==> capabilities.prompts,
        served(capabilities, Method::GetPrompt) <==> capabilities.prompts,
        served(capabilities, Method::ListResources) <==> capabilities.resources,
        served(capabilities, Method::ListResourceTemplates) <==> capabilities.resources,
        served(capabilities, Method::ReadResource) <==> capabilities.resources,
        served(capabilities, Method::Subscribe) <==> capabilities.resources,
        served(capabilities, Method::Unsubscribe) <==> capabilities.resources,
        served(capabilities, Method::SetLevel) <==> capabilities.logging,
        served(capabilities, Method::ListTools) <==> capabilities.tools,
        served(capabilities, Method::CallTool) <==> capabilities.tools,
{
}

/// A refusal has the code for an unknown method and says the method's name; a
/// failure on the way has the code for an internal error and says what happened.
/// Neither holds anything else.
pub proof fn law_errors_have_codes_and_messages(method: Method, message: Seq<char>)
    ensures
        not_found_model(method).code == -32601,
        not_found_model(method).message == method_name(method),
        !not_found_model(method).has_data,
        internal_model(message).code == -32603,
        internal_model(message).message == message,
        !internal_model(message).has_data,
{
}

/// What is said of a wait that took too long names what was waited for and ends
/// with the time that it had.
pub proof fn law_timeouts_name_stage_and_time(stage: Stage, shown: Seq<char>)
    ensures
        ({
            let text = timeout_text(stage, shown);
            &&& stands_at(text, "upstream "@, 0)
            &&& match stage {
                Stage::Request => stands_at(text, "request timed out after "@, 9) && stands_at(
                    text,
                    shown,
                    33,
                ) && text.len() == 33 + shown.len(),
                Stage::Send => stands_at(text, "send timed out after "@, 9) && stands_at(
                    text,
                    shown,
                    30,
                ) && text.len() == 30 + shown.len(),
                Stage::Response => stands_at(text, "response timed out after "@, 9) && stands_at(
                    text,
                    shown,
                    34,
                ) && text.len() == 34 + shown.len(),
            }
        }),
{
    reveal_strlit("upstream ");
    reveal_strlit("request timed out after ");
    reveal_strlit("send timed out after ");
    reveal_strlit("response timed out after ");
    reveal_strlit("upstream request timed out after ");
    reveal_strlit("upstream send timed out after ");
    reveal_strlit("upstream response timed out after ");
}

/// A forwarded request is answered with the peer's answer exactly if the peer gave
/// one. The peer's own error comes back as it is; any other failure, and a wait
/// that took too long, comes back as an internal error with its words.
pub proof fn law_forwarded_requests_are_answered<T>(
    outcome: Awaited<T>,
    limit: Duration,
    result: Result<T, ErrorData>,
)
    requires
        forwarded(outcome, limit, result),
    ensures
        result is Ok <==> outcome matches Awaited::Finished(Ok(_)),
        outcome matches Awaited::Finished(Ok(value)) ==> result->Ok_0 == value,
        outcome matches Awaited::Finished(Err(error)) ==> match protocol_error(error) {
            Some(own) => result->Err_0 == own,
            None => {
                &&& error_model(result->Err_0).code == -32603
                &&& error_model(result->Err_0).message == service_error_text(error)
                &&& !error_model(result->Err_0).has_data
            },
        },
        outcome is Elapsed ==> {
            &&& error_model(result->Err_0).code == -32603
            &&& stands_at(error_model(result->Err_0).message, "upstream request "@, 0)
            &&& stands_at(error_model(result->Err_0).message, duration_text(limit), 33)
            &&& error_model(result->Err_0).message.len() == 33 + duration_text(limit).len()
            &&& !error_model(result->Err_0).has_data
        },
{
    law_timeouts_name_stage_and_time(Stage::Request, duration_text(limit));
    reveal_strlit("upstream request ");
    reveal_strlit("upstream request timed out after ");
}

/// A forwarded tool call is answered with the peer's answer where there is one,
/// and otherwise with the words of what happened: the failure's own, or that the
/// request took too long.
pub proof fn law_forwarded_tool_calls_are_answered(
    outcome: Awaited<CallToolResult>,
    limit: Duration,
    result: CallToolResult,
)
    requires
        tool_answer(outcome, Stage::Request, limit, result),
    ensures
        outcome matches Awaited::Finished(Ok(value)) ==> result == value,
        outcome matches Awaited::Finished(Err(error)) ==> tool_failure(result) == Some(
            service_error_text(error),
        ),
        outcome is Elapsed ==> tool_failure(result) == Some(
            "upstream request timed out after "@ + duration_text(limit),
        ),
{
}

/// A followed tool call is answered with the peer's answer where that is one to a
/// tool call, and otherwise with the words of what happened: that the answer is
/// another, the failure's own, or that the response took too long.
pub proof fn law_followed_tool_calls_are_answered(
    outcome: Awaited<ServerResult>,
    limit: Duration,
    result: CallToolResult,
)
    requires
        response_answer(outcome, limit, result),
    ensures
        outcome matches Awaited::Finished(Ok(answer)) ==> match tool_result(answer) {
            Some(value) => result == value,
            None => tool_failure(result) == Some("unexpected response type from remote server"@),
        },
        outcome matches Awaited::Finished(Err(error)) ==> tool_failure(result) == Some(
            service_error_text(error),
        ),
        outcome is Elapsed ==> tool_failure(result) == Some(
            "upstream response timed out after "@ + duration_text(limit),
        ),
{
}

/// Tokens are told apart by what they are and what they hold.
pub proof fn law_tokens_are_told_apart(a: i64, b: i64, one: String, other: String)
    ensures
        ProgressToken::Number(a)@ == ProgressToken::Number(b)@ <==> a == b,
        ProgressToken::Text(one)@ == ProgressToken::Text(other)@ <==> one@ == other@,
        ProgressToken::Number(a)@ != ProgressToken::Text(one)@,
{
}

/// A notification reaches the caller that follows its token on its connection,
/// under the caller's own token, with all that it says beside; where nobody does,
/// it reaches nobody.
pub proof fn law_notifications_are_relayed<C, B>(
    map: Map<(int, TokenModel), (C, TokenModel)>,
    connection: int,
    notification: ProgressNotification<B>,
    caller: C,
    sent: ProgressNotification<B>,
)
    ensures
        relays(map, connection, notification, caller, sent) ==> {
            &&& map.contains_key((connection, notification.progress_token@))
            &&& map[(connection, notification.progress_token@)].0 == caller
            &&& map[(connection, notification.progress_token@)].1 == sent.progress_token@
            &&& sent.body == notification.body
        },
{
}

/// The peer's own error comes back as it is, and any other failure as an internal
/// error that says what the failure says.
pub proof fn law_failures_become_errors(error: ServiceError, result: ErrorData)
    requires
        stands_for(error, result),
    ensures
        protocol_error(error) matches Some(own) ==> result == own,
        protocol_error(error) is None ==> {
            &&& error_model(result).code == -32603
            &&& error_model(result).message == service_error_text(error)
            &&& !error_model(result).has_data
        },
{
}

/// A request whose capability the remote server declares goes to the peer whose
/// turn it is, and the turn moves on by one; any other is refused by its method's
/// name, and the turn stays where it is.
pub proof fn law_requests_are_routed_or_refused<P>(
    proxy: ForwardingProxy<P>,
    method: Method,
    before: usize,
    after: usize,
    routed: Result<&P, ErrorData>,
)
    requires
        routes(proxy, method, before, after, routed),
        proxy.peers().len() > 0,
    ensures
        routed is Ok <==> served(declared(proxy.info()), method),
        routed matches Ok(peer) ==> {
            &&& *peer == proxy.peers()[before as int % proxy.peers().len() as int]
            &&& after == if before == usize::MAX {
                0
            } else {
                before + 1
            }
        },
        routed matches Err(error) ==> {
            &&& error_model(error).code == -32601
            &&& error_model(error).message == method_name(method)
            &&& !error_model(error).has_data
            &&& after == before
        },
{
}

/// A tool call begins at the peer whose turn it is, followed exactly if its caller
/// has a token, and then under that token and over that peer's connection; without
/// tools it is refused and takes no turn.
pub proof fn law_tool_calls_begin_or_are_refused<P>(
    proxy: ForwardingProxy<P>,
    caller_token: Option<ProgressToken>,
    before: usize,
    after: usize,
    call: Result<ToolCall<'_, P>, ErrorData>,
)
    requires
        begins(proxy, caller_token, before, after, call),
        proxy.peers().len() > 0,
    ensures
        call is Ok <==> declared(proxy.info()).tools,
        call is Ok ==> after == if before == usize::MAX {
            0
        } else {
            before + 1
        },
        call matches Ok(ToolCall::Forward(peer)) ==> {
            &&& caller_token is None
            &&& *peer == proxy.peers()[before as int % proxy.peers().len() as int]
        },
        call matches Ok(ToolCall::Follow(peer, connection, token)) ==> {
            &&& caller_token == Some(token)
            &&& connection == before as int % proxy.peers().len() as int
            &&& *peer == proxy.peers()[connection as int]
        },
        call matches Err(error) ==> {
            &&& error_model(error).code == -32601
            &&& error_model(error).message == method_name(Method::CallTool)
            &&& after == before
        },
{
}

/// A call that was sent relays its own token's notifications to its caller from
/// then on, under the caller's token, and touches no other entry; a call that was
/// not sent touches none, and is answered in words.
pub proof fn law_sent_calls_are_registered<C>(
    before: Map<(int, TokenModel), (C, TokenModel)>,
    connection: int,
    caller: C,
    caller_token: TokenModel,
    outcome: Awaited<ProgressToken>,
    limit: Duration,
    after: Map<(int, TokenModel), (C, TokenModel)>,
    sent: Result<ProgressToken, CallToolResult>,
    key: (int, TokenModel),
)
    requires
        sends(before, connection, caller, caller_token, outcome, limit, after, sent),
    ensures
        sent is Ok <==> outcome matches Awaited::Finished(Ok(_)),
        outcome matches Awaited::Finished(Ok(remote_token)) ==> {
            &&& sent->Ok_0@ == remote_token@
            &&& after.contains_key((connection, remote_token@))
            &&& after[(connection, remote_token@)] == (caller, caller_token)
            &&& key != (connection, remote_token@) ==> {
                &&& after.contains_key(key) <==> before.contains_key(key)
                &&& before.contains_key(key) ==> after[key] == before[key]
            }
        },
        sent matches Err(result) ==> {
            &&& after == before
            &&& outcome matches Awaited::Finished(Err(error)) ==> tool_failure(result) == Some(
                service_error_text(error),
            )
            &&& outcome is Elapsed ==> tool_failure(result) == Some(
                "upstream send timed out after "@ + duration_text(limit),
            )
        },
{
}

/// When a call ends, however it ends, its token is followed no more, no other
/// entry is touched, and its caller is answered.
pub proof fn law_ended_calls_are_unregistered<C>(
    before: Map<(int, TokenModel), (C, TokenModel)>,
    connection: int,
    remote_token: TokenModel,
    outcome: Awaited<ServerResult>,
    limit: Duration,
    after: Map<(int, TokenModel), (C, TokenModel)>,
    result: CallToolResult,
    key: (int, TokenModel),
)
    requires
        ends(before, connection, remote_token, outcome, limit, after, result),
    ensures
        !after.contains_key((connection, remote_token)),
        key != (connection, remote_token) ==> {
            &&& after.contains_key(key) <==> before.contains_key(key)
            &&& before.contains_key(key) ==> after[key] == before[key]
        },
        response_answer(outcome, limit, result),
{
}

} // verus!
