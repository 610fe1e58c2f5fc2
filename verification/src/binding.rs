//! Values exchanged with the Python binding layer.
use vstd::prelude::*;
use vstd::string::StringExecFns;

use crate::json::{json_error_message, json_text_of, json_text_parses, json_to_string, json_value_of, parse_json};
use crate::llm;

verus! {

/// Tool definition for the LLM, as the binding layer receives it.
///
/// Parameters should be a JSON string representing the JSON Schema for the tool's parameters.
#[derive(Debug, Clone)]
pub struct ToolDef {
    pub name: String,
    pub description: String,
    /// JSON string representing the parameters schema
    pub parameters_json: String,
}

/// The message explaining why tool parameters were refused.
pub open spec fn invalid_parameters_message(detail: Seq<char>) -> Seq<char> {
    "Invalid JSON parameters: "@ + detail
}

impl ToolDef {
    pub fn new(name: String, description: String, parameters_json: String) -> (r: Self)
        ensures
            r.name == name,
            r.description == description,
            r.parameters_json == parameters_json,
    {
        Self { name, description, parameters_json }
    }

    /// The library's tool definition, with the parameters parsed as JSON.
    ///
    /// Fails, with a message starting "Invalid JSON parameters: ", exactly when the
    /// parameters are not JSON.
    pub fn to_lib(&self) -> (r: Result<llm::ToolDef, String>)
        ensures
            r is Ok <==> json_text_parses(self.parameters_json@),
            r matches Ok(t) ==> t.name == self.name && t.description == self.description
                && t.parameters == json_value_of(self.parameters_json@),
            r matches Err(m) ==> exists|detail: Seq<char>| m@ == invalid_parameters_message(detail),
    {
        match parse_json(self.parameters_json.as_str()) {
            Ok(parameters) => Ok(
                llm::ToolDef {
                    name: self.name.clone(),
                    description: self.description.clone(),
                    parameters,
                },
            ),
            Err(e) => {
                let detail = json_error_message(&e);
                let mut m = String::from_str("Invalid JSON parameters: ");
                m.append(detail.as_str());
                assert(m@ == invalid_parameters_message(detail@));
                Err(m)
            },
        }
    }
}

/// The message explaining why a tool result was refused.
pub open spec fn invalid_result_message(detail: Seq<char>) -> Seq<char> {
    "Invalid JSON: "@ + detail
}

/// The JSON value of a tool result sent by the binding layer as text.
///
/// Fails, with a message starting "Invalid JSON: ", exactly when the text is not JSON.
pub fn parse_tool_result(result_json: &str) -> (r: Result<serde_json::Value, String>)
    ensures
        r is Ok <==> json_text_parses(result_json@),
        r matches Ok(v) ==> v == json_value_of(result_json@),
        r matches Err(m) ==> exists|detail: Seq<char>| m@ == invalid_result_message(detail),
{
    match parse_json(result_json) {
        Ok(v) => Ok(v),
        Err(e) => {
            let detail = json_error_message(&e);
            let mut m = String::from_str("Invalid JSON: ");
            m.append(detail.as_str());
            assert(m@ == invalid_result_message(detail@));
            Err(m)
        },
    }
}

/// Whether every definition among the first `n` has JSON parameters.
pub open spec fn all_parameters_parse(tools: Seq<ToolDef>, n: int) -> bool {
    forall|i: int| 0 <= i < n ==> json_text_parses(#[trigger] tools[i].parameters_json@)
}

/// The library's tool definitions, in order; the first refusal when some parameters
/// are not JSON.
pub fn convert_tool_defs(tools: &Vec<ToolDef>) -> (r: Result<Vec<llm::ToolDef>, String>)
    ensures
        r is Ok <==> all_parameters_parse(tools@, tools@.len() as int),
        r matches Ok(v) ==> v@.len() == tools@.len() && forall|i: int|
            0 <= i < tools@.len() ==> (#[trigger] v@[i]).name == tools@[i].name && v@[i].description
                == tools@[i].description && v@[i].parameters == json_value_of(tools@[i].parameters_json@),
        r matches Err(m) ==> exists|detail: Seq<char>| m@ == invalid_parameters_message(detail),
{
    let mut out: Vec<llm::ToolDef> = Vec::new();
    let mut i: usize = 0;
    while i < tools.len()
        invariant
            i <= tools.len(),
            all_parameters_parse(tools@, i as int),
            out@.len() == i,
            forall|k: int|
                0 <= k < i ==> (#[trigger] out@[k]).name == tools@[k].name && out@[k].description
                    == tools@[k].description && out@[k].parameters == json_value_of(
                    tools@[k].parameters_json@,
                ),
        decreases tools.len() - i,
    {
        match tools[i].to_lib() {
            Ok(t) => out.push(t),
            Err(m) => {
                assert(!json_text_parses(tools@[i as int].parameters_json@));
                return Err(m);
            },
        }
        i = i + 1;
    }
    Ok(out)
}

/// Tool call information from the LLM, as handed to the binding layer.
#[derive(Debug, Clone)]
pub struct ToolCallInfo {
    pub call_id: String,
    pub tool_name: String,
    /// The arguments as compact JSON text
    pub args_json: String,
}

impl ToolCallInfo {
    /// The information of a tool call; the arguments are serialised as JSON text.
    pub fn from_call(call: &llm::ToolCall) -> (r: Self)
        ensures
            r.call_id == call.call_id,
            r.tool_name == call.tool_name,
            r.args_json@ == json_text_of(call.args),
    {
        ToolCallInfo {
            call_id: call.call_id.clone(),
            tool_name: call.tool_name.clone(),
            args_json: json_to_string(&call.args),
        }
    }
}

/// The kinds of events a voice session reports.
#[derive(Debug, Clone, Copy, PartialEq, Eq, Structural)]
pub enum EventKind {
    Flushing,
    EndOfTurn,
    Interrupted,
    PushToLlm,
    PreviousLlmGen,
    LlmStarted,
    FirstWord,
    FirstTtsAudio,
    EndTtsAudio,
}

impl EventKind {
    /// The name under which each kind of event is reported.
    pub open spec fn spec_event_type(self) -> Seq<char> {
        match self {
            EventKind::Flushing => "flushing"@,
            EventKind::EndOfTurn => "end_of_turn"@,
            EventKind::Interrupted => "interrupted"@,
            EventKind::PushToLlm => "push_to_llm"@,
            EventKind::PreviousLlmGen => "previous_llm_gen"@,
            EventKind::LlmStarted => "llm_started"@,
            EventKind::FirstWord => "first_word"@,
            EventKind::FirstTtsAudio => "first_tts_audio"@,
            EventKind::EndTtsAudio => "end_tts_audio"@,
        }
    }

    /// The name under which this kind of event is reported (e.g. "end_of_turn").
    pub fn event_type(&self) -> (r: &'static str)
        ensures
            r@ == self.spec_event_type(),
    {
        match self {
            EventKind::Flushing => "flushing",
            EventKind::EndOfTurn => "end_of_turn",
            EventKind::Interrupted => "interrupted",
            EventKind::PushToLlm => "push_to_llm",
            EventKind::PreviousLlmGen => "previous_llm_gen",
            EventKind::LlmStarted => "llm_started",
            EventKind::FirstWord => "first_word",
            EventKind::FirstTtsAudio => "first_tts_audio",
            EventKind::EndTtsAudio => "end_tts_audio",
        }
    }

    /// Whether events of this kind carry a data dictionary (the others carry none).
    pub fn has_data(&self) -> (r: bool)
        ensures
            r == (*self == EventKind::Flushing || *self == EventKind::PushToLlm || *self
                == EventKind::PreviousLlmGen),
    {
        match self {
            EventKind::Flushing | EventKind::PushToLlm | EventKind::PreviousLlmGen => true,
            _ => false,
        }
    }
}

/// The kinds of messages a voice session outputs.
#[derive(Debug, Clone, Copy, PartialEq, Eq, Structural)]
pub enum MsgKind {
    Audio,
    TtsText,
    SttText,
    Event,
    ToolCall,
}

impl MsgKind {
    /// The name under which each kind of message is reported.
    pub open spec fn spec_msg_type(self) -> Seq<char> {
        match self {
            MsgKind::Audio => "audio"@,
            MsgKind::TtsText => "tts_text"@,
            MsgKind::SttText => "stt_text"@,
            MsgKind::Event => "event"@,
            MsgKind::ToolCall => "tool_call"@,
        }
    }

    /// The name under which this kind of message is reported (e.g. "tts_text").
    pub fn msg_type(&self) -> (r: &'static str)
        ensures
            r@ == self.spec_msg_type(),
    {
        match self {
            MsgKind::Audio => "audio",
            MsgKind::TtsText => "tts_text",
            MsgKind::SttText => "stt_text",
            MsgKind::Event => "event",
            MsgKind::ToolCall => "tool_call",
        }
    }
}

} // verus!
