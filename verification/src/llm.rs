//! Conversation state of an LLM chat session and the bookkeeping of tool calls.
//!
//! The session keeps the chat history that is sent with every completion
//! request. Tool calls made by the model are tracked until the client has
//! answered them; on every new user turn their state is folded into the
//! history: a result when one arrived, `PENDING` the first time a call is
//! still unanswered, and `LOST` when the client dropped its handle without
//! ever answering.
use std::sync::Arc;
use vstd::prelude::*;
use vstd::string::StringExecFns;

use crate::sanitize::{control_tokens_stripped, push_char, strip_control_tokens};
use crate::json::{
    json_eq, json_equal, json_error_message, json_insert_member, json_object_keys,
    json_object_members, json_text_of, json_text_parses, json_to_string, json_true,
    json_value_of, merge_members, parse_json,
};
use crate::voice::Lang;

verus! {

// ============================================================================
// Tool calls
// ============================================================================

/// Status of a pending tool call, tracking what has been injected into history.
#[derive(Debug, Clone, Copy, PartialEq, Eq, Structural)]
pub enum ToolCallStatus {
    /// Just created, nothing injected yet
    New,
    /// Injected PENDING result, awaiting actual result
    Pending,
    /// At least one result received and injected
    AnsweredAtLeastOnce,
}

/// A tool call made by the LLM, sent to the client for handling.
#[derive(Debug, Clone)]
pub struct ToolCall {
    /// Unique identifier for this tool call
    pub call_id: String,
    /// Name of the tool/function being called
    pub tool_name: String,
    /// Arguments as JSON
    pub args: serde_json::Value,
}

/// Tool definition for the LLM.
#[derive(Debug, Clone)]
pub struct ToolDef {
    /// Name of the tool
    pub name: String,
    /// Description of what the tool does
    pub description: String,
    /// JSON schema for the parameters
    pub parameters: serde_json::Value,
}

/// A tool call being tracked by the session until it is answered or lost.
#[derive(Debug, Clone)]
pub struct PendingToolCall {
    /// Unique identifier for this tool call
    pub call_id: String,
    /// Name of the tool/function being called
    pub tool_name: String,
    /// The arguments, as the JSON text that is replayed in the history
    pub arguments: String,
    /// Current status
    pub status: ToolCallStatus,
}

/// A result sent by the client for a tool call.
#[derive(Debug, Clone)]
pub enum ToolOutcome {
    /// A successful result, as JSON text
    Value(String),
    /// An error, as its message
    Error(String),
}

impl ToolOutcome {
    /// The text injected into the history for this result.
    pub open spec fn content(self) -> Seq<char> {
        match self {
            ToolOutcome::Value(json) => json@,
            ToolOutcome::Error(message) => "ERROR: "@ + message@,
        }
    }

    /// A successful result, carried as the compact JSON text of `value`.
    pub fn from_value(value: &serde_json::Value) -> (r: Self)
        ensures
            r matches ToolOutcome::Value(t) && t@ == json_text_of(*value),
    {
        ToolOutcome::Value(json_to_string(value))
    }
}

/// What was observed of a tool call's result channel when the history is updated.
#[derive(Debug, Clone)]
pub struct ToolCallObservation {
    /// The last result received since the previous update, if any
    pub last_result: Option<ToolOutcome>,
    /// Whether the client's handle is gone (no more results can arrive)
    pub closed: bool,
}

impl ToolCallObservation {
    /// What a channel showed at an update, from the results drained from it in the order
    /// they arrived: only the last of them is used, the earlier ones are discarded.
    pub fn from_received(received: Vec<ToolOutcome>, closed: bool) -> (r: Self)
        ensures
            r.last_result == (if received@.len() == 0 {
                None
            } else {
                Some(received@.last())
            }),
            r.closed == closed,
    {
        let mut received = received;
        let last_result = received.pop();
        ToolCallObservation { last_result, closed }
    }
}

/// The text that answers a tool call in the history at this update, if any.
pub open spec fn injected_content(status: ToolCallStatus, obs: ToolCallObservation) -> Option<
    Seq<char>,
> {
    match obs.last_result {
        Some(result) => Some(result.content()),
        None => if obs.closed {
            if status != ToolCallStatus::AnsweredAtLeastOnce {
                Some("LOST"@)
            } else {
                None
            }
        } else if status == ToolCallStatus::New {
            Some("PENDING"@)
        } else {
            None
        },
    }
}

/// The status of a tool call after this update.
pub open spec fn next_status(status: ToolCallStatus, obs: ToolCallObservation) -> ToolCallStatus {
    match obs.last_result {
        Some(_) => ToolCallStatus::AnsweredAtLeastOnce,
        None => if !obs.closed && status == ToolCallStatus::New {
            ToolCallStatus::Pending
        } else {
            status
        },
    }
}

/// Whether a tool call stops being tracked after this update: exactly when its channel is closed.
pub open spec fn is_retired(obs: ToolCallObservation) -> bool {
    obs.closed
}

/// The life of a tracked tool call at each update: a received result is always
/// injected (the last one, with errors prefixed by `ERROR: `) and marks the call as
/// answered; an answered call never goes back; a call still open without a result is
/// announced as `PENDING` exactly once; a call whose handle is gone is retired, and
/// is reported `LOST` exactly when it was never answered.
pub proof fn law_tool_call_lifecycle(status: ToolCallStatus, obs: ToolCallObservation)
    ensures
        obs.last_result matches Some(result) ==> injected_content(status, obs) == Some(result.content())
            && next_status(status, obs) == ToolCallStatus::AnsweredAtLeastOnce,
        status == ToolCallStatus::AnsweredAtLeastOnce ==> next_status(status, obs)
            == ToolCallStatus::AnsweredAtLeastOnce,
        obs.last_result is None && !obs.closed ==> {
            &&& (injected_content(status, obs) is Some <==> status == ToolCallStatus::New)
            &&& (status == ToolCallStatus::New ==> injected_content(status, obs) == Some("PENDING"@)
                && next_status(status, obs) == ToolCallStatus::Pending)
        },
        obs.last_result is None && obs.closed ==> {
            &&& (injected_content(status, obs) is Some <==> status
                != ToolCallStatus::AnsweredAtLeastOnce)
            &&& (status != ToolCallStatus::AnsweredAtLeastOnce ==> injected_content(status, obs)
                == Some("LOST"@))
        },
        is_retired(obs) <==> obs.closed,
{
}

// ============================================================================
// Chat history
// ============================================================================

/// A message of the chat history, in the shape sent to an OpenAI-compatible API.
#[derive(Debug, Clone)]
pub enum ChatMessage {
    /// The system prompt
    System(String),
    /// Text from the user
    User(String),
    /// Text previously generated by the assistant
    Assistant(String),
    /// An assistant turn that calls one tool
    AssistantToolCall { call_id: String, tool_name: String, arguments: String },
    /// The answer to a tool call
    Tool { call_id: String, content: String },
}

/// The content of a [`ChatMessage`].
pub enum MessageModel {
    System(Seq<char>),
    User(Seq<char>),
    Assistant(Seq<char>),
    AssistantToolCall { call_id: Seq<char>, tool_name: Seq<char>, arguments: Seq<char> },
    Tool { call_id: Seq<char>, content: Seq<char> },
}

impl View for ChatMessage {
    type V = MessageModel;

    open spec fn view(&self) -> MessageModel {
        match self {
            ChatMessage::System(t) => MessageModel::System(t@),
            ChatMessage::User(t) => MessageModel::User(t@),
            ChatMessage::Assistant(t) => MessageModel::Assistant(t@),
            ChatMessage::AssistantToolCall { call_id, tool_name, arguments } => {
                MessageModel::AssistantToolCall {
                    call_id: call_id@,
                    tool_name: tool_name@,
                    arguments: arguments@,
                }
            },
            ChatMessage::Tool { call_id, content } => MessageModel::Tool {
                call_id: call_id@,
                content: content@,
            },
        }
    }
}

/// The model of a sequence of messages.
pub open spec fn messages_model(msgs: Seq<ChatMessage>) -> Seq<MessageModel> {
    msgs.map_values(|m: ChatMessage| m@)
}

/// The two messages that replay a tool call and its answer `content`.
pub open spec fn tool_exchange(call: PendingToolCall, content: Seq<char>) -> Seq<MessageModel> {
    seq![
        MessageModel::AssistantToolCall {
            call_id: call.call_id@,
            tool_name: call.tool_name@,
            arguments: call.arguments@,
        },
        MessageModel::Tool { call_id: call.call_id@, content: content },
    ]
}

/// Messages injected for one tracked call at an update.
pub open spec fn call_messages(call: PendingToolCall, obs: ToolCallObservation) -> Seq<MessageModel> {
    match injected_content(call.status, obs) {
        Some(content) => tool_exchange(call, content),
        None => seq![],
    }
}

/// Every result received for a tracked call is replayed in the history, whatever the
/// call's status before (a later result for an answered call too, so the last value
/// wins): the assistant's call of the tool with its id, name and arguments, then the
/// tool's answer with the result's content (errors prefixed by `ERROR: `), and nothing else.
pub proof fn law_every_result_is_injected(call: PendingToolCall, obs: ToolCallObservation)
    ensures
        obs.last_result matches Some(result) ==> call_messages(call, obs) == seq![
            MessageModel::AssistantToolCall {
                call_id: call.call_id@,
                tool_name: call.tool_name@,
                arguments: call.arguments@,
            },
            MessageModel::Tool {
                call_id: call.call_id@,
                content: match result {
                    ToolOutcome::Value(json) => json@,
                    ToolOutcome::Error(message) => "ERROR: "@ + message@,
                },
            },
        ],
{
}

/// Messages injected for the first `n` tracked calls, in order.
pub open spec fn injected_messages(
    calls: Seq<PendingToolCall>,
    obs: Seq<ToolCallObservation>,
    n: int,
) -> Seq<MessageModel>
    decreases n,
{
    if n <= 0 {
        seq![]
    } else {
        injected_messages(calls, obs, n - 1) + call_messages(calls[n - 1], obs[n - 1])
    }
}

/// The tracked calls among the first `n` that remain after an update, with their new status.
pub open spec fn remaining_calls(
    calls: Seq<PendingToolCall>,
    obs: Seq<ToolCallObservation>,
    n: int,
) -> Seq<PendingToolCall>
    decreases n,
{
    if n <= 0 {
        seq![]
    } else {
        let prefix = remaining_calls(calls, obs, n - 1);
        if is_retired(obs[n - 1]) {
            prefix
        } else {
            prefix.push(
                PendingToolCall { status: next_status(calls[n - 1].status, obs[n - 1]), ..calls[n - 1] },
            )
        }
    }
}

/// The positions, among the first `n`, of the calls that stop being tracked, ascending.
pub open spec fn retired_positions(obs: Seq<ToolCallObservation>, n: int) -> Seq<usize>
    decreases n,
{
    if n <= 0 {
        seq![]
    } else if is_retired(obs[n - 1]) {
        retired_positions(obs, n - 1).push((n - 1) as usize)
    } else {
        retired_positions(obs, n - 1)
    }
}

/// After an update, every call still tracked has been announced in the history
/// (none is `New`), and each call is either still tracked or retired.
pub proof fn law_update_announces_every_call(
    calls: Seq<PendingToolCall>,
    obs: Seq<ToolCallObservation>,
    n: int,
)
    requires
        0 <= n <= calls.len(),
        calls.len() == obs.len(),
    ensures
        forall|k: int|
            0 <= k < remaining_calls(calls, obs, n).len() ==> #[trigger] remaining_calls(
                calls,
                obs,
                n,
            )[k].status != ToolCallStatus::New,
        remaining_calls(calls, obs, n).len() + retired_positions(obs, n).len() == n,
    decreases n,
{
    if n > 0 {
        law_update_announces_every_call(calls, obs, n - 1);
    }
}

fn make_string(s: &str) -> (r: String)
    ensures
        r@ == s@,
{
    String::from_str(s)
}

/// The text injected for a received result.
fn outcome_content(result: &ToolOutcome) -> (r: String)
    ensures
        r@ == result.content(),
{
    match result {
        ToolOutcome::Value(json) => json.clone(),
        ToolOutcome::Error(message) => {
            let mut r = make_string("ERROR: ");
            r.append(message.as_str());
            r
        },
    }
}

/// Decides what an update does to one tracked call: the text that answers it in the
/// history (if any), its new status, and whether it stops being tracked.
pub fn tool_call_step(status: ToolCallStatus, obs: &ToolCallObservation) -> (r: (
    Option<String>,
    ToolCallStatus,
    bool,
))
    ensures
        match r.0 {
            Some(t) => injected_content(status, *obs) == Some(t@),
            None => injected_content(status, *obs) is None,
        },
        r.1 == next_status(status, *obs),
        r.2 == is_retired(*obs),
{
    match &obs.last_result {
        Some(result) => (Some(outcome_content(result)), ToolCallStatus::AnsweredAtLeastOnce, obs.closed),
        None => {
            if obs.closed {
                if status != ToolCallStatus::AnsweredAtLeastOnce {
                    (Some(make_string("LOST")), status, true)
                } else {
                    (None, status, true)
                }
            } else if status == ToolCallStatus::New {
                (Some(make_string("PENDING")), ToolCallStatus::Pending, false)
            } else {
                (None, status, false)
            }
        },
    }
}

/// Whether any tracked call has not been injected into the history yet.
pub fn has_new_tool_calls(calls: &Vec<PendingToolCall>) -> (r: bool)
    ensures
        r == exists|i: int| 0 <= i < calls.len() && #[trigger] calls@[i].status == ToolCallStatus::New,
{
    let mut i: usize = 0;
    while i < calls.len()
        invariant
            i <= calls.len(),
            forall|k: int| 0 <= k < i ==> #[trigger] calls@[k].status != ToolCallStatus::New,
        decreases calls.len() - i,
    {
        if calls[i].status == ToolCallStatus::New {
            return true;
        }
        i = i + 1;
    }
    false
}


// ============================================================================
// Session configuration
// ============================================================================

/// What the LLM is told for a session: the user's prompt, the language and the tools.
#[derive(Clone)]
pub struct LlmConfig {
    pub user_prompt: String,
    pub language: Lang,
    pub tools: Vec<ToolDef>,
}

/// Whether two tool definitions are equal: same name, same description and equal
/// JSON parameters.
pub open spec fn same_tool(a: ToolDef, b: ToolDef) -> bool {
    &&& a.name@ == b.name@
    &&& a.description@ == b.description@
    &&& json_equal(a.parameters, b.parameters)
}

/// Whether a configuration holds these values: same prompt, same language, and
/// equal tools in the same order.
pub open spec fn config_matches(
    config: LlmConfig,
    user_prompt: Seq<char>,
    language: Lang,
    tools: Seq<ToolDef>,
) -> bool {
    &&& config.user_prompt@ == user_prompt
    &&& config.language == language
    &&& config.tools@.len() == tools.len()
    &&& forall|i: int| 0 <= i < tools.len() ==> same_tool(#[trigger] config.tools@[i], tools[i])
}

/// Calls `Arc::ptr_eq`. When both point to the same allocation they hold the same value.
/// Whether two equal values share an allocation is not stated.
#[verifier::external_body]
fn same_allocation<T>(a: &Arc<T>, b: &Arc<T>) -> (r: bool)
    ensures
        r ==> *a == *b,
{
    Arc::ptr_eq(a, b)
}

/// Calls `Arc::clone`: another handle to the same value.
#[verifier::external_body]
fn share<T>(a: &Arc<T>) -> (r: Arc<T>)
    ensures
        *r == **a,
{
    Arc::clone(a)
}

/// Whether both lists hold equal tools in the same order.
fn same_tools(a: &Vec<ToolDef>, b: &Vec<ToolDef>) -> (r: bool)
    ensures
        r == (a@.len() == b@.len() && forall|i: int|
            0 <= i < b@.len() ==> same_tool(#[trigger] a@[i], b@[i])),
{
    if a.len() != b.len() {
        return false;
    }
    let mut i: usize = 0;
    while i < b.len()
        invariant
            a@.len() == b@.len(),
            i <= b.len(),
            forall|k: int| 0 <= k < i ==> same_tool(#[trigger] a@[k], b@[k]),
        decreases b.len() - i,
    {
        if !(a[i].name == b[i].name && a[i].description == b[i].description && json_eq(
            &a[i].parameters,
            &b[i].parameters,
        )) {
            return false;
        }
        i = i + 1;
    }
    true
}

impl LlmConfig {
    pub fn new(user_prompt: String, language: Lang, tools: Vec<ToolDef>) -> (r: Self)
        ensures
            r.user_prompt == user_prompt,
            r.language == language,
            r.tools == tools,
    {
        Self { user_prompt, language, tools }
    }

    /// Returns a new Arc only if the config values differ, otherwise returns the existing Arc.
    /// This allows callers to pass config repeatedly without worrying about Arc management -
    /// ptr_eq checks downstream will still work correctly.
    pub fn maybe_update(
        existing: &Arc<LlmConfig>,
        user_prompt: &str,
        language: Lang,
        tools: Vec<ToolDef>,
    ) -> (r: Arc<LlmConfig>)
        ensures
            config_matches(**existing, user_prompt@, language, tools@) ==> *r == **existing,
            !config_matches(**existing, user_prompt@, language, tools@) ==> {
                &&& r.user_prompt@ == user_prompt@
                &&& r.language == language
                &&& r.tools == tools
            },
    {
        let prompt = make_string(user_prompt);
        let same = existing.user_prompt == prompt && existing.language == language
            && same_tools(&existing.tools, &tools);
        if same {
            share(existing)
        } else {
            Arc::new(LlmConfig::new(prompt, language, tools))
        }
    }
}

// ============================================================================
// Client settings
// ============================================================================

/// The URL of the chat completions endpoint for a base URL as given (the model
/// cache key; empty for the default OpenAI API).
pub open spec fn completions_url_for(base: Seq<char>) -> Seq<char> {
    if base.len() == 0 {
        "https://api.openai.com/v1"@ + "/chat/completions"@
    } else {
        base + "/chat/completions"@
    }
}

/// Settings of an LLM client: which model to ask, where, and with which key.
#[derive(Clone)]
pub struct Llm {
    max_completion_tokens: u32,
    model_name: String,
    api_key: String,
    completions_url: String,
}

impl Llm {
    /// Create LLM client settings from resolved values.
    ///
    /// `base_url` is the base URL as configured (not trimmed); without one the
    /// OpenAI API is used.
    pub fn new(
        base_url: Option<String>,
        max_completion_tokens: u32,
        model_name: String,
        api_key: String,
    ) -> (r: Self)
        ensures
            r.spec_max_completion_tokens() == max_completion_tokens,
            r.spec_model_name() == model_name@,
            r.spec_api_key() == api_key@,
            r.spec_completions_url() == completions_url_for(
                match base_url {
                    Some(b) => b@,
                    None => Seq::empty(),
                },
            ),
    {
        let mut completions_url = match base_url {
            Some(b) => if b.as_str().is_empty() {
                make_string("https://api.openai.com/v1")
            } else {
                b
            },
            None => make_string("https://api.openai.com/v1"),
        };
        completions_url.append("/chat/completions");
        Llm { max_completion_tokens, model_name, api_key, completions_url }
    }

    pub closed spec fn spec_max_completion_tokens(&self) -> u32 {
        self.max_completion_tokens
    }

    pub closed spec fn spec_model_name(&self) -> Seq<char> {
        self.model_name@
    }

    pub closed spec fn spec_api_key(&self) -> Seq<char> {
        self.api_key@
    }

    pub closed spec fn spec_completions_url(&self) -> Seq<char> {
        self.completions_url@
    }

    /// The model asked by this client.
    pub fn model_name(&self) -> (r: &String)
        ensures
            r@ == self.spec_model_name(),
    {
        &self.model_name
    }

    /// The completion-token limit of each request.
    pub fn max_completion_tokens(&self) -> (r: u32)
        ensures
            r == self.spec_max_completion_tokens(),
    {
        self.max_completion_tokens
    }

    /// The key sent as bearer token.
    pub fn api_key(&self) -> (r: &String)
        ensures
            r@ == self.spec_api_key(),
    {
        &self.api_key
    }

    /// The URL of the chat completions endpoint.
    pub fn completions_url(&self) -> (r: &String)
        ensures
            r@ == self.spec_completions_url(),
    {
        &self.completions_url
    }

    /// A fresh conversation with this client's model and completion limit.
    pub fn session(&self) -> (r: LlmSession)
        ensures
            r.wf(),
            r.history() == Seq::<MessageModel>::empty(),
            r.current_config() is None,
            r.spec_model_name() == self.spec_model_name(),
            r.spec_max_completion_tokens() == self.spec_max_completion_tokens(),
    {
        let r = LlmSession {
            max_completion_tokens: self.max_completion_tokens,
            model_name: self.model_name.clone(),
            messages: Vec::new(),
            last_config: None,
        };
        assert(r.history() =~= Seq::<MessageModel>::empty());
        r
    }
}

// ============================================================================
// Session
// ============================================================================

/// The conversation held by a chat session.
pub struct LlmSession {
    max_completion_tokens: u32,
    model_name: String,
    messages: Vec<ChatMessage>,
    last_config: Option<Arc<LlmConfig>>,
}

/// The history once the system prompt is set: it becomes the first message,
/// replacing whatever message stood there.
pub open spec fn with_system_prompt(msgs: Seq<MessageModel>, prompt: Seq<char>) -> Seq<MessageModel> {
    if msgs.len() == 0 {
        seq![MessageModel::System(prompt)]
    } else {
        msgs.update(0, MessageModel::System(prompt))
    }
}

/// The history once the user says `text`: appended, after a space, to a trailing
/// user message, or added as a new user message.
pub open spec fn with_user_text(msgs: Seq<MessageModel>, text: Seq<char>) -> Seq<MessageModel> {
    if msgs.len() > 0 {
        match msgs.last() {
            MessageModel::User(t) => msgs.update(
                msgs.len() - 1,
                MessageModel::User(t.push(' ') + text),
            ),
            _ => msgs.push(MessageModel::User(text)),
        }
    } else {
        msgs.push(MessageModel::User(text))
    }
}

/// Where a user's text lands: it always ends up in the last message, a user message.
/// When the history already ends with a user message `t`, that message becomes `t`, a
/// space and the text, and nothing else changes; otherwise every earlier message (the
/// last one, an assistant reply say, included) is kept as it was and a new user message
/// holding just the text follows.
pub proof fn law_user_text_lands_last(msgs: Seq<MessageModel>, text: Seq<char>)
    ensures
        ({
            let r = with_user_text(msgs, text);
            &&& r.len() > 0
            &&& r.last() is User
            &&& forall|i: int| 0 <= i < msgs.len() - 1 ==> #[trigger] r[i] == msgs[i]
            &&& msgs.len() > 0 ==> (msgs.last() matches MessageModel::User(t) ==> {
                &&& r.len() == msgs.len()
                &&& r.last() == MessageModel::User(t + seq![' '] + text)
            })
            &&& !(msgs.len() > 0 && msgs.last() is User) ==> {
                &&& r.len() == msgs.len() + 1
                &&& forall|i: int| 0 <= i < msgs.len() ==> #[trigger] r[i] == msgs[i]
                &&& r.last() == MessageModel::User(text)
            }
        }),
{
    if msgs.len() > 0 {
        match msgs.last() {
            MessageModel::User(t) => {
                assert(t.push(' ') + text =~= t + seq![' '] + text);
            },
            _ => {},
        }
    }
}

/// The history after a user turn, from `base` (the history with its system prompt settled).
pub open spec fn pushed_history(
    base: Seq<MessageModel>,
    calls: Seq<PendingToolCall>,
    obs: Seq<ToolCallObservation>,
    user_text: Seq<char>,
) -> Seq<MessageModel> {
    with_user_text(base + injected_messages(calls, obs, calls.len() as int), user_text)
}

/// A user turn never rewrites earlier messages: everything before the last message of
/// `base` stays in place (the last one may receive the user's text), and the history
/// only grows.
pub proof fn law_user_turn_keeps_earlier_messages(
    base: Seq<MessageModel>,
    calls: Seq<PendingToolCall>,
    obs: Seq<ToolCallObservation>,
    user_text: Seq<char>,
)
    ensures
        ({
            let h = pushed_history(base, calls, obs, user_text);
            &&& h.len() >= base.len()
            &&& forall|i: int| 0 <= i < base.len() - 1 ==> #[trigger] h[i] == base[i]
        }),
{
    let m = base + injected_messages(calls, obs, calls.len() as int);
    assert forall|i: int| 0 <= i < base.len() - 1 implies #[trigger] m[i] == base[i] by {}
}

/// Texts joined with single spaces.
pub open spec fn join_with_space(parts: Seq<Seq<char>>) -> Seq<char>
    decreases parts.len(),
{
    if parts.len() == 0 {
        Seq::empty()
    } else if parts.len() == 1 {
        parts[0]
    } else {
        join_with_space(parts.drop_last()).push(' ') + parts.last()
    }
}

/// The texts held by a sequence of strings.
pub open spec fn texts(strings: Seq<String>) -> Seq<Seq<char>> {
    strings.map_values(|s: String| s@)
}

fn join_words(parts: &Vec<String>) -> (r: String)
    ensures
        r@ == join_with_space(texts(parts@)),
{
    let ghost model = texts(parts@);
    let mut r = String::new();
    let mut i: usize = 0;
    while i < parts.len()
        invariant
            i <= parts.len(),
            model == texts(parts@),
            r@ == join_with_space(model.take(i as int)),
        decreases parts.len() - i,
    {
        assert(model.take(i + 1).drop_last() =~= model.take(i as int));
        if i > 0 {
            push_char(&mut r, ' ');
        }
        r.append(parts[i].as_str());
        i = i + 1;
    }
    assert(model.take(parts.len() as int) =~= model);
    r
}

impl LlmSession {
    pub closed spec fn spec_max_completion_tokens(&self) -> u32 {
        self.max_completion_tokens
    }

    pub closed spec fn spec_model_name(&self) -> Seq<char> {
        self.model_name@
    }

    /// The chat history, oldest message first.
    pub closed spec fn history(&self) -> Seq<MessageModel> {
        messages_model(self.messages@)
    }

    /// The configuration of the last user turn, if any.
    pub closed spec fn current_config(&self) -> Option<Arc<LlmConfig>> {
        self.last_config
    }

    /// Once a configuration has been applied, the history starts with the system prompt.
    pub open spec fn wf(&self) -> bool {
        self.current_config() is Some ==> self.history().len() > 0 && self.history()[0] is System
    }

    proof fn lemma_history_push(msgs: Seq<ChatMessage>, m: ChatMessage)
        ensures
            messages_model(msgs.push(m)) == messages_model(msgs).push(m@),
    {
        assert(messages_model(msgs.push(m)) =~= messages_model(msgs).push(m@));
    }

    /// Fold the state of the tracked tool calls into the history.
    ///
    /// `observed[i]` is what was seen of the result channel of `pending[i]`.
    /// Calls whose channel is closed stop being tracked; their former positions
    /// are returned in ascending order.
    pub fn process_pending_tool_calls(
        &mut self,
        pending: &mut Vec<PendingToolCall>,
        observed: &Vec<ToolCallObservation>,
    ) -> (retired: Vec<usize>)
        requires
            old(self).wf(),
            observed.len() == old(pending).len(),
        ensures
            final(self).wf(),
            final(self).current_config() == old(self).current_config(),
            final(self).spec_model_name() == old(self).spec_model_name(),
            final(self).spec_max_completion_tokens() == old(self).spec_max_completion_tokens(),
            final(self).history() == old(self).history() + injected_messages(
                old(pending)@,
                observed@,
                old(pending).len() as int,
            ),
            final(pending)@ == remaining_calls(old(pending)@, observed@, old(pending).len() as int),
            retired@ == retired_positions(observed@, old(pending).len() as int),
    {
        let n = pending.len();
        let mut kept: Vec<PendingToolCall> = Vec::new();
        let mut retired: Vec<usize> = Vec::new();
        let mut i: usize = 0;
        while i < n
            invariant
                n == pending.len() == observed.len(),
                pending@ == old(pending)@,
                i <= n,
                self.wf(),
                self.current_config() == old(self).current_config(),
                self.spec_model_name() == old(self).spec_model_name(),
                self.spec_max_completion_tokens() == old(self).spec_max_completion_tokens(),
                self.history() == old(self).history() + injected_messages(
                    pending@,
                    observed@,
                    i as int,
                ),
                kept@ == remaining_calls(pending@, observed@, i as int),
                retired@ == retired_positions(observed@, i as int),
            decreases n - i,
        {
            let call = &pending[i];
            let (content, status, retire) = tool_call_step(call.status, &observed[i]);
            let ghost before = self.history();
            if let Some(c) = content {
                let m1 = ChatMessage::AssistantToolCall {
                    call_id: call.call_id.clone(),
                    tool_name: call.tool_name.clone(),
                    arguments: call.arguments.clone(),
                };
                let m2 = ChatMessage::Tool { call_id: call.call_id.clone(), content: c };
                proof {
                    Self::lemma_history_push(self.messages@, m1);
                    Self::lemma_history_push(self.messages@.push(m1), m2);
                }
                self.messages.push(m1);
                self.messages.push(m2);
                assert(self.history() =~= before + call_messages(pending@[i as int], observed@[i as int]));
            } else {
                assert(call_messages(pending@[i as int], observed@[i as int]) =~= Seq::<MessageModel>::empty());
                assert(self.history() =~= before + call_messages(pending@[i as int], observed@[i as int]));
            }
            if retire {
                retired.push(i);
            } else {
                kept.push(
                    PendingToolCall {
                        call_id: call.call_id.clone(),
                        tool_name: call.tool_name.clone(),
                        arguments: call.arguments.clone(),
                        status,
                    },
                );
            }
            i = i + 1;
        }
        *pending = kept;
        retired
    }

    /// Append the user's text to the history (see [`with_user_text`]).
    fn add_user_text(&mut self, text: &str)
        requires
            old(self).wf(),
        ensures
            final(self).wf(),
            final(self).current_config() == old(self).current_config(),
            final(self).spec_model_name() == old(self).spec_model_name(),
            final(self).spec_max_completion_tokens() == old(self).spec_max_completion_tokens(),
            final(self).history() == with_user_text(old(self).history(), text@),
    {
        let n = self.messages.len();
        let last_is_user = n > 0 && match &self.messages[n - 1] {
            ChatMessage::User(_) => true,
            _ => false,
        };
        if last_is_user {
            let ghost prefix = self.messages@.drop_last();
            let last = self.messages.pop();
            match last {
                Some(ChatMessage::User(t)) => {
                    let mut t = t;
                    push_char(&mut t, ' ');
                    t.append(text);
                    let m = ChatMessage::User(t);
                    proof {
                        Self::lemma_history_push(prefix, m);
                    }
                    self.messages.push(m);
                    assert(self.history() =~= with_user_text(old(self).history(), text@));
                },
                _ => {
                    proof {
                        assert(false);
                    }
                },
            }
        } else {
            let m = ChatMessage::User(make_string(text));
            proof {
                Self::lemma_history_push(self.messages@, m);
            }
            self.messages.push(m);
        }
    }

    /// Set the system prompt as the first message of the history.
    fn set_system_prompt(&mut self, prompt: String)
        ensures
            final(self).history() == with_system_prompt(old(self).history(), prompt@),
            final(self).current_config() == old(self).current_config(),
            final(self).spec_model_name() == old(self).spec_model_name(),
            final(self).spec_max_completion_tokens() == old(self).spec_max_completion_tokens(),
    {
        let m = ChatMessage::System(prompt);
        if self.messages.len() == 0 {
            self.messages = vec![m];
            assert(self.history() =~= with_system_prompt(old(self).history(), prompt@));
        } else {
            self.messages.set(0, m);
            assert(self.history() =~= with_system_prompt(old(self).history(), prompt@));
        }
    }

    /// Record a user turn.
    ///
    /// When `config` is not the configuration of the previous turn (not the same
    /// allocation), `system_prompt` (the prompt rendered for `config`) becomes the
    /// first message. Then the tracked tool calls are folded into the history (see
    /// [`LlmSession::process_pending_tool_calls`]), and the user's text is added.
    pub fn push(
        &mut self,
        user_msg: &str,
        config: Arc<LlmConfig>,
        system_prompt: String,
        pending: &mut Vec<PendingToolCall>,
        observed: &Vec<ToolCallObservation>,
    ) -> (retired: Vec<usize>)
        requires
            old(self).wf(),
            observed.len() == old(pending).len(),
        ensures
            final(self).wf(),
            final(self).history().len() > 0,
            final(self).history()[0] is System,
            final(self).spec_model_name() == old(self).spec_model_name(),
            final(self).spec_max_completion_tokens() == old(self).spec_max_completion_tokens(),
            ({
                ||| {
                    &&& final(self).current_config() == Some(config)
                    &&& final(self).history() == pushed_history(
                        with_system_prompt(old(self).history(), system_prompt@),
                        old(pending)@,
                        observed@,
                        user_msg@,
                    )
                }
                ||| {
                    &&& old(self).current_config() matches Some(c) && *c == *config
                    &&& final(self).current_config() == old(self).current_config()
                    &&& final(self).history() == pushed_history(
                        old(self).history(),
                        old(pending)@,
                        observed@,
                        user_msg@,
                    )
                }
            }),
            final(pending)@ == remaining_calls(old(pending)@, observed@, old(pending).len() as int),
            retired@ == retired_positions(observed@, old(pending).len() as int),
    {
        let changed = match &self.last_config {
            Some(previous) => !same_allocation(previous, &config),
            None => true,
        };
        if changed {
            self.set_system_prompt(system_prompt);
            self.last_config = Some(config);
        }
        let retired = self.process_pending_tool_calls(pending, observed);
        self.add_user_text(user_msg);
        retired
    }

    /// Move the text transmitted during the previous generation into the history.
    ///
    /// The pieces are joined with spaces and control tokens are stripped; when
    /// nothing remains, the history is left unchanged and `None` is returned.
    pub fn incorporate_previous_generation(&mut self, previous_generation: Vec<String>) -> (r:
        Option<String>)
        requires
            old(self).wf(),
        ensures
            final(self).wf(),
            final(self).current_config() == old(self).current_config(),
            final(self).spec_model_name() == old(self).spec_model_name(),
            final(self).spec_max_completion_tokens() == old(self).spec_max_completion_tokens(),
            ({
                let full = control_tokens_stripped(join_with_space(texts(previous_generation@)));
                if previous_generation.len() == 0 || full.len() == 0 {
                    &&& r is None
                    &&& final(self).history() == old(self).history()
                } else {
                    &&& r matches Some(t) && t@ == full
                    &&& final(self).history() == old(self).history().push(MessageModel::Assistant(full))
                }
            }),
    {
        if previous_generation.len() == 0 {
            return None;
        }
        let joined = join_words(&previous_generation);
        let full_response = strip_control_tokens(joined.as_str());
        if full_response.as_str().is_empty() {
            return None;
        }
        let m = ChatMessage::Assistant(full_response.clone());
        proof {
            Self::lemma_history_push(self.messages@, m);
        }
        self.messages.push(m);
        Some(full_response)
    }

    /// The chat history, oldest message first.
    pub fn messages(&self) -> (r: &Vec<ChatMessage>)
        ensures
            messages_model(r@) == self.history(),
    {
        &self.messages
    }

    /// The model asked by this session.
    pub fn model_name(&self) -> (r: &String)
        ensures
            r@ == self.spec_model_name(),
    {
        &self.model_name
    }

    /// The completion-token limit of each request.
    pub fn max_completion_tokens(&self) -> (r: u32)
        ensures
            r == self.spec_max_completion_tokens(),
    {
        self.max_completion_tokens
    }
}

/// The extra request configuration handed to [`completion_body`] is not JSON; `detail`
/// is serde_json's account of why.
pub struct ExtraConfigError {
    pub detail: String,
}

/// The members of the body posted for a completion: those of the serialised request, with
/// `stream` set to `true`, and then every member of the extra configuration where that is
/// a JSON object (its members win over the request's own); an extra configuration that is
/// JSON but no object adds nothing.
pub open spec fn completion_members(
    request: Map<Seq<char>, serde_json::Value>,
    extra: Option<Seq<char>>,
) -> Map<Seq<char>, serde_json::Value> {
    let base = request.insert("stream"@, json_value_of("true"@));
    match extra {
        Some(e) => match json_object_members(json_value_of(e)) {
            Some(x) => base.union_prefer_right(x),
            None => base,
        },
        None => base,
    }
}

/// The JSON body posted for a completion, built from the serialised request (a JSON
/// object) and the optional extra configuration: `stream` is set to `true`, and the
/// members of the extra configuration are merged in over the request's own. It fails
/// exactly when the extra configuration is given and is not JSON.
pub fn completion_body(request: &serde_json::Value, extra_config: Option<&str>) -> (r: Result<
    serde_json::Value,
    ExtraConfigError,
>)
    requires
        json_object_members(*request) is Some,
    ensures
        r is Err <==> (extra_config matches Some(e) && !json_text_parses(e@)),
        r matches Ok(body) ==> json_object_members(body) == Some(
            completion_members(
                json_object_members(*request)->0,
                match extra_config {
                    Some(e) => Some(e@),
                    None => None,
                },
            ),
        ),
{
    let mut body = request.clone();
    json_insert_member(&mut body, "stream".to_string(), json_true());
    match extra_config {
        None => Ok(body),
        Some(text) => match parse_json(text) {
            Err(e) => Err(ExtraConfigError { detail: json_error_message(&e) }),
            Ok(extra) => {
                match json_object_keys(&extra) {
                    Some(_) => {
                        merge_members(&mut body, &extra);
                    },
                    None => {},
                }
                Ok(body)
            },
        },
    }
}

} // verus!
