//! The chat-completion request of a session: its messages and tools, built with
//! async-openai's request types, serialised to JSON and turned into the body that is
//! posted.
use async_openai::error::OpenAIError;
use async_openai::types::{
    ChatCompletionRequestMessage, ChatCompletionTool, ChatCompletionToolArgs,
    CreateChatCompletionRequest, CreateChatCompletionRequestArgs, FunctionObjectArgs,
};
use vstd::prelude::*;

use crate::json::{json_object_members, json_text_parses};
use crate::llm::{completion_body, completion_members, ExtraConfigError, LlmSession, ToolDef};

verus! {

#[verifier::external_type_specification]
#[verifier::external_body]
pub struct ExChatCompletionRequestMessage(ChatCompletionRequestMessage);

#[verifier::external_type_specification]
#[verifier::external_body]
pub struct ExChatCompletionTool(ChatCompletionTool);

#[verifier::external_type_specification]
#[verifier::external_body]
pub struct ExCreateChatCompletionRequest(CreateChatCompletionRequest);

#[verifier::external_type_specification]
#[verifier::external_body]
pub struct ExOpenAIError(OpenAIError);

// ---------------------------------------------------------------------------
// What async-openai builds
// ---------------------------------------------------------------------------

/// The function tool async-openai builds from a name, a description and parameters.
pub uninterp spec fn openai_tool(
    name: Seq<char>,
    description: Seq<char>,
    parameters: serde_json::Value,
) -> ChatCompletionTool;

/// The request async-openai builds from a model, a token limit and messages, with no tools.
pub uninterp spec fn openai_chat_request(
    model: Seq<char>,
    max_completion_tokens: u32,
    messages: Seq<ChatCompletionRequestMessage>,
) -> CreateChatCompletionRequest;

/// The request async-openai builds from a model, a token limit, messages and tools.
pub uninterp spec fn openai_chat_request_with_tools(
    model: Seq<char>,
    max_completion_tokens: u32,
    messages: Seq<ChatCompletionRequestMessage>,
    tools: Seq<ChatCompletionTool>,
) -> CreateChatCompletionRequest;

/// The JSON value serde_json makes of a request (`serde_json::to_value`).
pub uninterp spec fn openai_request_json(request: CreateChatCompletionRequest) -> serde_json::Value;

/// Builds a function tool with `FunctionObjectArgs` (name, description, parameters) and
/// `ChatCompletionToolArgs`, whose tool type is left at its default, `Function`. Both
/// builders give every field a default and validate nothing, so building succeeds.
#[verifier::external_body]
fn function_tool(name: &str, description: &str, parameters: serde_json::Value) -> (r: Result<
    ChatCompletionTool,
    OpenAIError,
>)
    ensures
        r is Ok,
        r matches Ok(t) ==> t == openai_tool(name@, description@, parameters),
{
    let function = FunctionObjectArgs::default().name(name).description(description).parameters(
        parameters,
    ).build()?;
    ChatCompletionToolArgs::default().function(function).build()
}

/// Builds a request with `CreateChatCompletionRequestArgs`: model, token limit, messages.
/// The builder gives every field a default and validates nothing, so building succeeds.
#[verifier::external_body]
fn chat_request(
    model: &str,
    max_completion_tokens: u32,
    messages: Vec<ChatCompletionRequestMessage>,
) -> (r: Result<CreateChatCompletionRequest, OpenAIError>)
    ensures
        r is Ok,
        r matches Ok(q) ==> q == openai_chat_request(model@, max_completion_tokens, messages@),
{
    CreateChatCompletionRequestArgs::default().model(model).max_completion_tokens(
        max_completion_tokens,
    ).messages(messages).build()
}

/// Builds a request with `CreateChatCompletionRequestArgs`: model, token limit, messages
/// and tools. The builder gives every field a default and validates nothing, so building
/// succeeds.
#[verifier::external_body]
fn chat_request_with_tools(
    model: &str,
    max_completion_tokens: u32,
    messages: Vec<ChatCompletionRequestMessage>,
    tools: Vec<ChatCompletionTool>,
) -> (r: Result<CreateChatCompletionRequest, OpenAIError>)
    ensures
        r is Ok,
        r matches Ok(q) ==> q == openai_chat_request_with_tools(
            model@,
            max_completion_tokens,
            messages@,
            tools@,
        ),
{
    CreateChatCompletionRequestArgs::default().model(model).max_completion_tokens(
        max_completion_tokens,
    ).messages(messages).tools(tools).build()
}

/// Calls `serde_json::to_value` on a request. The request is a struct whose fields all
/// serialise without error (its only map is keyed by strings), so this succeeds and gives
/// a JSON object.
#[verifier::external_body]
fn request_json(request: &CreateChatCompletionRequest) -> (r: Result<
    serde_json::Value,
    serde_json::Error,
>)
    ensures
        r is Ok,
        r matches Ok(v) ==> v == openai_request_json(*request),
        r matches Ok(v) ==> json_object_members(v) is Some,
{
    serde_json::to_value(request)
}

// ---------------------------------------------------------------------------
// The request of a session
// ---------------------------------------------------------------------------

/// The request form of the tool definitions, in order.
pub open spec fn request_tools_of(tools: Seq<ToolDef>) -> Seq<ChatCompletionTool> {
    tools.map_values(|t: ToolDef| openai_tool(t.name@, t.description@, t.parameters))
}

/// The request of a session: its model, its token limit and the messages, with the tools
/// where there are any (none leaves the tools out of the request).
pub open spec fn chat_request_of(
    model: Seq<char>,
    max_completion_tokens: u32,
    messages: Seq<ChatCompletionRequestMessage>,
    tools: Seq<ToolDef>,
) -> CreateChatCompletionRequest {
    if tools.len() == 0 {
        openai_chat_request(model, max_completion_tokens, messages)
    } else {
        openai_chat_request_with_tools(
            model,
            max_completion_tokens,
            messages,
            request_tools_of(tools),
        )
    }
}

/// The request carries the tools as defined: with no tool definitions it is built without
/// tools, and otherwise the `i`-th tool of the request is the function tool built from the
/// `i`-th definition's own name, description and parameters, one per definition, in order.
pub proof fn law_request_carries_tools(
    model: Seq<char>,
    max_completion_tokens: u32,
    messages: Seq<ChatCompletionRequestMessage>,
    tools: Seq<ToolDef>,
)
    ensures
        tools.len() == 0 ==> chat_request_of(model, max_completion_tokens, messages, tools)
            == openai_chat_request(model, max_completion_tokens, messages),
        tools.len() > 0 ==> chat_request_of(model, max_completion_tokens, messages, tools)
            == openai_chat_request_with_tools(
            model,
            max_completion_tokens,
            messages,
            Seq::new(
                tools.len(),
                |i: int| openai_tool(tools[i].name@, tools[i].description@, tools[i].parameters),
            ),
        ),
{
    assert(request_tools_of(tools) =~= Seq::new(
        tools.len(),
        |i: int| openai_tool(tools[i].name@, tools[i].description@, tools[i].parameters),
    ));
}

/// The request tools of the definitions, in order.
pub fn request_tools(tools: &Vec<ToolDef>) -> (r: Vec<ChatCompletionTool>)
    ensures
        r@ == request_tools_of(tools@),
{
    let mut out: Vec<ChatCompletionTool> = Vec::new();
    let mut i: usize = 0;
    while i < tools.len()
        invariant
            i <= tools.len(),
            out@.len() == i,
            forall|k: int|
                0 <= k < i ==> out@[k] == openai_tool(
                    (#[trigger] tools@[k]).name@,
                    tools@[k].description@,
                    tools@[k].parameters,
                ),
        decreases tools.len() - i,
    {
        let t = &tools[i];
        match function_tool(t.name.as_str(), t.description.as_str(), t.parameters.clone()) {
            Ok(x) => out.push(x),
            Err(_) => unreached(),
        }
        i = i + 1;
    }
    assert(out@ =~= request_tools_of(tools@));
    out
}

/// The extra configuration as a spec value.
pub open spec fn extra_text(extra_config: Option<&str>) -> Option<Seq<char>> {
    match extra_config {
        Some(e) => Some(e@),
        None => None,
    }
}

/// The JSON body posted for the next completion of `session`: its request (model, token
/// limit, the request form of its history in `messages`, and `tools` where there are
/// any), serialised, with `stream` set to `true` and the extra configuration merged in.
/// It fails exactly when the extra configuration is given and is not JSON.
pub fn completion_request(
    session: &LlmSession,
    messages: Vec<ChatCompletionRequestMessage>,
    tools: &Vec<ToolDef>,
    extra_config: Option<&str>,
) -> (r: Result<serde_json::Value, ExtraConfigError>)
    ensures
        r is Err <==> (extra_config matches Some(e) && !json_text_parses(e@)),
        r matches Ok(body) ==> {
            let request = openai_request_json(
                chat_request_of(
                    session.spec_model_name(),
                    session.spec_max_completion_tokens(),
                    messages@,
                    tools@,
                ),
            );
            &&& json_object_members(request) is Some
            &&& json_object_members(body) == Some(
                completion_members(json_object_members(request)->0, extra_text(extra_config)),
            )
        },
{
    let model = session.model_name();
    let max_tokens = session.max_completion_tokens();
    let built = if tools.len() == 0 {
        chat_request(model.as_str(), max_tokens, messages)
    } else {
        chat_request_with_tools(model.as_str(), max_tokens, messages, request_tools(tools))
    };
    let request = match built {
        Ok(q) => q,
        Err(_) => unreached(),
    };
    let json = match request_json(&request) {
        Ok(v) => v,
        Err(_) => unreached(),
    };
    completion_body(&json, extra_config)
}

} // verus!
