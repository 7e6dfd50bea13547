//! The command dispatcher: one inbound message in, exactly one outbound
//! response out.
//!
//! A message is parsed into a command (structured form first, plain text as
//! the fallback), routed to the operation it names, and the operation's
//! result — success or error — is turned into a single response object.
//! Nothing here ever refuses to answer: an unrecognized command yields the
//! help message, an operation error yields an error response, and the
//! connection stays open.

use vstd::prelude::*;

use crate::align::AlignError;
use crate::backend::spec_is_success;
use crate::command::{kind_of_word, CommandKind, ParsedCommand};
use crate::lifecycle::{LifecycleGoal, RequestOutcome};
use crate::render::{append_u64, spec_dec_digits, RespValue, Response};

verus! {

/// What the plain-text fallback yields: the first whitespace-separated
/// token as the command word, the second (when present) as the model
/// name, and nothing else.
pub open spec fn spec_plain_cmd(msg: Seq<char>, r: ParsedCommand) -> bool {
    &&& r.word@ == crate::command::spec_first_token(msg)
    &&& match r.model_name {
        Some(m) => m@ == crate::command::spec_second_token(msg)
            && crate::command::spec_second_token(msg).len() > 0,
        None => crate::command::spec_second_token(msg).len() == 0,
    }
    &&& r.inputs is None
    &&& r.prompt is None
    &&& r.max_len is None
}

/// Parse one inbound message, by the two strategies in order: when the
/// text parses as a JSON object, every field of the command comes from
/// that object; otherwise the plain-text fallback splits it into a
/// command word and an optional model name. Either way the kind matches
/// the word, so every message gets exactly one response.
pub fn parse_message(msg: &str) -> (r: ParsedCommand)
    ensures
        r.kind == crate::command::spec_kind_of(r.word@),
        match crate::jsonio::spec_json_of(msg@) {
            Some(j) => match j {
                crate::jsonio::JsonVal::Obj(fields) => crate::jsonio::spec_structured_cmd(
                    fields@,
                    r,
                ),
                _ => spec_plain_cmd(msg@, r),
            },
            None => spec_plain_cmd(msg@, r),
        },
{
    match crate::jsonio::decode_structured(msg) {
        Some(c) => c,
        None => parse_plain_command(msg),
    }
}

/// Parse a plain-text message: the first whitespace-separated token is the
/// command word, the second (when present) the model name.
pub fn parse_plain_command(msg: &str) -> (r: ParsedCommand)
    ensures
        r.kind == crate::command::spec_kind_of(r.word@),
        spec_plain_cmd(msg@, r),
{
    let (word, model_name) = crate::command::parse_plain(msg);
    let kind = kind_of_word(word.as_str());
    ParsedCommand { kind, word, model_name, inputs: None, prompt: None, max_len: None }
}

/// What to do with a freshly parsed command.
#[derive(Clone, Debug)]
pub enum DispatchStart {
    /// Answer at once, with this response.
    Respond(Response),
    /// Run the model lifecycle with this goal.
    RunLifecycle(LifecycleGoal),
    /// Make the liveness round trip.
    CallLive,
    /// Make the readiness round trip.
    CallReady,
    /// Make the model-listing round trip.
    CallList,
    /// Run the unload sequence (status probe, then the unload call).
    RunUnload,
}

/// What goes out: a rendered response object, or a backend body forwarded
/// untouched.
#[derive(Clone, Debug)]
pub enum Outbound {
    Object(Response),
    Passthrough(String),
}

/// The help text, one line per recognized command.
pub open spec fn spec_help_text() -> Seq<char> {
    "Available commands:\n    infer                    - Run inference. Requires 'inputs' field in JSON format.\n    infertext                - Run text generation from a prompt.\n    metadata                 - Get model metadata.\n    load                     - Load the model into memory.\n    unload                   - Unload the model from memory.\n    stats                    - Get statistics for a loaded model.\n    list                     - List all available models in the repository.\n    ping                     - Check basic connection (returns pong).\n    live                     - Check if the backend server is live.\n    ready                    - Check if the backend server is ready.\n\n    Usage note:\n    Use plain text like: 'load my_model' or use JSON for 'infer' with inputs.\n"@
}

/// The help text, one line per recognized command.
pub fn get_help_message() -> (r: &'static str)
    ensures
        r@ == spec_help_text(),
{
    "Available commands:\n    infer                    - Run inference. Requires 'inputs' field in JSON format.\n    infertext                - Run text generation from a prompt.\n    metadata                 - Get model metadata.\n    load                     - Load the model into memory.\n    unload                   - Unload the model from memory.\n    stats                    - Get statistics for a loaded model.\n    list                     - List all available models in the repository.\n    ping                     - Check basic connection (returns pong).\n    live                     - Check if the backend server is live.\n    ready                    - Check if the backend server is ready.\n\n    Usage note:\n    Use plain text like: 'load my_model' or use JSON for 'infer' with inputs.\n"
}

/// The response is a single-field object holding this string.
pub open spec fn spec_single_str(r: Response, key: Seq<char>, val: Seq<char>) -> bool {
    &&& r.fields@.len() == 1
    &&& r.fields@[0].0@ == key
    &&& r.fields@[0].1 is Str
    &&& r.fields@[0].1->Str_0@ == val
}

/// The response is a single-field object holding this boolean.
pub open spec fn spec_single_bool(r: Response, key: Seq<char>, val: bool) -> bool {
    &&& r.fields@.len() == 1
    &&& r.fields@[0].0@ == key
    &&& r.fields@[0].1 is Bool
    &&& r.fields@[0].1->Bool_0 == val
}

/// The response is a single-field error object with some message.
pub open spec fn spec_is_error(r: Response) -> bool {
    &&& r.fields@.len() == 1
    &&& r.fields@[0].0@ == "error"@
    &&& r.fields@[0].1 is Str
}

fn single_str(key: &str, val: String) -> (r: Response)
    ensures
        spec_single_str(r, key@, val@),
{
    let mut fields: Vec<(String, RespValue)> = Vec::new();
    fields.push((String::from_str(key), RespValue::Str(val)));
    Response { fields }
}

fn single_bool(key: &str, val: bool) -> (r: Response)
    ensures
        spec_single_bool(r, key@, val),
{
    let mut fields: Vec<(String, RespValue)> = Vec::new();
    fields.push((String::from_str(key), RespValue::Bool(val)));
    Response { fields }
}

/// `{"response":"pong"}`.
pub fn respond_ping() -> (r: Response)
    ensures
        spec_single_str(r, "response"@, "pong"@),
{
    single_str("response", String::from_str("pong"))
}

/// `{"load":"Success"}`.
pub fn respond_load_ok() -> (r: Response)
    ensures
        spec_single_str(r, "load"@, "Success"@),
{
    single_str("load", String::from_str("Success"))
}

/// `{"unload":"Success"}`.
pub fn respond_unload_ok() -> (r: Response)
    ensures
        spec_single_str(r, "unload"@, "Success"@),
{
    single_str("unload", String::from_str("Success"))
}

/// `{"unload":"Model was not loaded"}`: the legitimate no-op.
pub fn respond_unload_not_loaded() -> (r: Response)
    ensures
        spec_single_str(r, "unload"@, "Model was not loaded"@),
{
    single_str("unload", String::from_str("Model was not loaded"))
}

/// `{"error": msg}`.
pub fn respond_error(msg: String) -> (r: Response)
    ensures
        spec_single_str(r, "error"@, msg@),
        spec_is_error(r),
{
    single_str("error", msg)
}

/// `{"live": up}` or `{"ready": up}`.
pub fn respond_health(key: &str, up: bool) -> (r: Response)
    ensures
        spec_single_bool(r, key@, up),
{
    single_bool(key, up)
}

/// `{"models": [...]}`.
pub fn respond_models(names: Vec<String>) -> (r: Response)
    ensures
        r.fields@.len() == 1,
        r.fields@[0].0@ == "models"@,
        r.fields@[0].1 is StrList,
        r.fields@[0].1->StrList_0@ == names@,
{
    let mut fields: Vec<(String, RespValue)> = Vec::new();
    fields.push((String::from_str("models"), RespValue::StrList(names)));
    Response { fields }
}

/// The text of the help response for an unrecognized command word.
pub open spec fn spec_unknown_text(word: Seq<char>) -> Seq<char> {
    "Unknown command: '"@ + word + "'\n\n"@ + spec_help_text()
}

/// `{"message": ...}` embedding the unrecognized command word and the help.
pub fn respond_unknown(word: &str) -> (r: Response)
    ensures
        spec_single_str(r, "message"@, spec_unknown_text(word@)),
{
    let mut msg = String::from_str("Unknown command: '");
    msg.append(word);
    msg.append("'\n\n");
    msg.append(get_help_message());
    single_str("message", msg)
}

/// `prefix` + `model` + `"'. HTTP: "` + the decimal status.
pub open spec fn spec_status_msg(prefix: Seq<char>, model: Seq<char>, status: u16) -> Seq<char> {
    prefix + model + "'. HTTP: "@ + spec_dec_digits(status as nat)
}

/// Compose an error message naming the model and an HTTP status.
pub fn status_msg(prefix: &str, model: &str, status: u16) -> (r: String)
    ensures
        r@ == spec_status_msg(prefix@, model@, status),
{
    let mut m = String::from_str(prefix);
    m.append(model);
    m.append("'. HTTP: ");
    append_u64(&mut m, status as u64);
    m
}

/// Route a parsed command to its operation. Exactly one operation per
/// command; `ping` and an unrecognized word answer at once.
pub fn dispatch_begin(cmd: &ParsedCommand) -> (r: DispatchStart)
    ensures
        match cmd.kind {
            CommandKind::Ping => r is Respond && spec_single_str(
                r->Respond_0,
                "response"@,
                "pong"@,
            ),
            CommandKind::Unknown => r is Respond && spec_single_str(
                r->Respond_0,
                "message"@,
                spec_unknown_text(cmd.word@),
            ),
            CommandKind::Load => r == DispatchStart::RunLifecycle(LifecycleGoal::LoadOnly),
            CommandKind::Metadata => r == DispatchStart::RunLifecycle(LifecycleGoal::FetchMetadata),
            CommandKind::Stats => r == DispatchStart::RunLifecycle(LifecycleGoal::FetchStats),
            CommandKind::Infer => r == DispatchStart::RunLifecycle(LifecycleGoal::Infer),
            CommandKind::InferText => r == DispatchStart::RunLifecycle(LifecycleGoal::Infer),
            CommandKind::Unload => r == DispatchStart::RunUnload,
            CommandKind::Live => r == DispatchStart::CallLive,
            CommandKind::Ready => r == DispatchStart::CallReady,
            CommandKind::List => r == DispatchStart::CallList,
        },
{
    match cmd.kind {
        CommandKind::Ping => DispatchStart::Respond(respond_ping()),
        CommandKind::Unknown => DispatchStart::Respond(respond_unknown(cmd.word.as_str())),
        CommandKind::Load => DispatchStart::RunLifecycle(LifecycleGoal::LoadOnly),
        CommandKind::Metadata => DispatchStart::RunLifecycle(LifecycleGoal::FetchMetadata),
        CommandKind::Stats => DispatchStart::RunLifecycle(LifecycleGoal::FetchStats),
        CommandKind::Infer => DispatchStart::RunLifecycle(LifecycleGoal::Infer),
        CommandKind::InferText => DispatchStart::RunLifecycle(LifecycleGoal::Infer),
        CommandKind::Unload => DispatchStart::RunUnload,
        CommandKind::Live => DispatchStart::CallLive,
        CommandKind::Ready => DispatchStart::CallReady,
        CommandKind::List => DispatchStart::CallList,
    }
}

/// The message an alignment error reports.
pub open spec fn spec_align_error_msg(e: AlignError) -> Seq<char> {
    match e {
        AlignError::MissingInput { name } => "Missing input '"@ + name@ + "'"@,
        AlignError::ShapeMismatch { name, expected_shape, expected_len, actual_len } =>
            "Shape mismatch for input '"@ + name@ + "': expected "@ + spec_dec_digits(
            expected_len as nat,
        ) + " elements, got "@ + spec_dec_digits(actual_len as nat),
        AlignError::CountOverflow { name } => "Element count overflow for input '"@ + name@ + "'"@,
        AlignError::UnsupportedDatatype { name, datatype } => "Unsupported datatype '"@ + datatype@
            + "' for input '"@ + name@ + "'"@,
    }
}

/// Compose the message an alignment error reports.
pub fn align_error_msg(e: &AlignError) -> (r: String)
    ensures
        r@ == spec_align_error_msg(*e),
{
    match e {
        AlignError::MissingInput { name } => {
            let mut m = String::from_str("Missing input '");
            m.append(name.as_str());
            m.append("'");
            m
        },
        AlignError::ShapeMismatch { name, expected_shape: _, expected_len, actual_len } => {
            let mut m = String::from_str("Shape mismatch for input '");
            m.append(name.as_str());
            m.append("': expected ");
            append_u64(&mut m, *expected_len as u64);
            m.append(" elements, got ");
            append_u64(&mut m, *actual_len as u64);
            m
        },
        AlignError::CountOverflow { name } => {
            let mut m = String::from_str("Element count overflow for input '");
            m.append(name.as_str());
            m.append("'");
            m
        },
        AlignError::UnsupportedDatatype { name, datatype } => {
            let mut m = String::from_str("Unsupported datatype '");
            m.append(datatype.as_str());
            m.append("' for input '");
            m.append(name.as_str());
            m.append("'");
            m
        },
    }
}

/// The fixed text a failed extraction or integrity outcome reports.
pub open spec fn spec_prepare_error_msg(o: RequestOutcome) -> Seq<char>
    recommends
        o is ExtractFailed || o is IntegrityFailed,
{
    match o {
        RequestOutcome::ExtractFailed { .. } => "Model archive not found or unreadable"@,
        RequestOutcome::IntegrityFailed { .. } => "Model integrity check failed"@,
        _ => Seq::empty(),
    }
}

/// Turn a load-only lifecycle outcome into the response: success is
/// exactly `{"load":"Success"}`; every failure is an error object; the
/// connection-level answer always exists.
pub fn respond_load_outcome(model: &str, outcome: &RequestOutcome) -> (r: Response)
    ensures
        (*outcome == RequestOutcome::LoadDone) ==> spec_single_str(r, "load"@, "Success"@),
        (*outcome != RequestOutcome::LoadDone) ==> spec_is_error(r),
        match *outcome {
            RequestOutcome::LoadFailed { status } => spec_single_str(
                r,
                "error"@,
                spec_status_msg("Failed to load model '"@, model@, status),
            ),
            RequestOutcome::ExtractFailed { .. } | RequestOutcome::IntegrityFailed { .. } =>
                spec_single_str(r, "error"@, spec_prepare_error_msg(*outcome)),
            _ => true,
        },
{
    match outcome {
        RequestOutcome::LoadDone => respond_load_ok(),
        RequestOutcome::LoadFailed { status } => respond_error(
            status_msg("Failed to load model '", model, *status),
        ),
        RequestOutcome::ExtractFailed { .. } => respond_error(
            String::from_str("Model archive not found or unreadable"),
        ),
        RequestOutcome::IntegrityFailed { .. } => respond_error(
            String::from_str("Model integrity check failed"),
        ),
        _ => respond_error(String::from_str("Unexpected lifecycle outcome")),
    }
}

/// Turn a fetch lifecycle outcome (metadata or statistics) into the
/// outbound message: a success status forwards the body untouched, every
/// failure is an error object.
pub fn respond_fetch_outcome(model: &str, outcome: &RequestOutcome, body: String) -> (r: Outbound)
    ensures
        match *outcome {
            RequestOutcome::FetchDone { status } => if spec_is_success(status) {
                r is Passthrough && r->Passthrough_0@ == body@
            } else {
                r is Object && spec_is_error(r->Object_0)
            },
            _ => r is Object && spec_is_error(r->Object_0),
        },
{
    match outcome {
        RequestOutcome::FetchDone { status } => {
            if crate::backend::is_success(*status) {
                Outbound::Passthrough(body)
            } else {
                Outbound::Object(
                    respond_error(status_msg("Failed to fetch for model '", model, *status)),
                )
            }
        },
        RequestOutcome::LoadFailed { status } => Outbound::Object(
            respond_error(status_msg("Failed to load model '", model, *status)),
        ),
        RequestOutcome::ExtractFailed { .. } => Outbound::Object(
            respond_error(String::from_str("Model archive not found or unreadable")),
        ),
        RequestOutcome::IntegrityFailed { .. } => Outbound::Object(
            respond_error(String::from_str("Model integrity check failed")),
        ),
        _ => Outbound::Object(respond_error(String::from_str("Unexpected lifecycle outcome"))),
    }
}

/// The text path's reply rule: when the backend's first output held ids
/// that decoded back to text, answer with the text beside the raw body;
/// when decoding yielded nothing, forward the raw body untouched rather
/// than fail.
pub fn respond_infer_text(decoded: Option<String>, raw: String) -> (r: Outbound)
    ensures
        match decoded {
            Some(t) => r is Object && {
                let obj = r->Object_0;
                &&& obj.fields@.len() == 2
                &&& obj.fields@[0].0@ == "text"@
                &&& obj.fields@[0].1 is Str
                &&& obj.fields@[0].1->Str_0@ == t@
                &&& obj.fields@[1].0@ == "raw"@
                &&& obj.fields@[1].1 is Raw
                &&& obj.fields@[1].1->Raw_0@ == raw@
            },
            None => r is Passthrough && r->Passthrough_0@ == raw@,
        },
{
    match decoded {
        Some(t) => {
            let mut fields: Vec<(String, RespValue)> = Vec::new();
            fields.push((String::from_str("text"), RespValue::Str(t)));
            fields.push((String::from_str("raw"), RespValue::Raw(raw)));
            Outbound::Object(Response { fields })
        },
        None => Outbound::Passthrough(raw),
    }
}

/// Turn the end of an inference lifecycle into the outbound message: a
/// successful inference with a clean unload forwards the backend body; a
/// successful inference whose unload failed surfaces both; a failed
/// inference is an error object carrying the backend's text.
pub fn respond_infer_done(infer_ok: bool, unload_ok: bool, payload: String) -> (r: Outbound)
    ensures
        (infer_ok && unload_ok) ==> (r is Passthrough && r->Passthrough_0@ == payload@),
        (infer_ok && !unload_ok) ==> (r is Object && {
            let obj = r->Object_0;
            &&& obj.fields@.len() == 2
            &&& obj.fields@[0].0@ == "result"@
            &&& obj.fields@[0].1 is Raw
            &&& obj.fields@[0].1->Raw_0@ == payload@
            &&& obj.fields@[1].0@ == "unload_error"@
            &&& obj.fields@[1].1 is Str
        }),
        (!infer_ok) ==> (r is Object && spec_single_str(
            r->Object_0,
            "error"@,
            "Inference error: "@ + payload@,
        )),
{
    if !infer_ok {
        let mut m = String::from_str("Inference error: ");
        m.append(payload.as_str());
        Outbound::Object(respond_error(m))
    } else if unload_ok {
        Outbound::Passthrough(payload)
    } else {
        let mut fields: Vec<(String, RespValue)> = Vec::new();
        fields.push((String::from_str("result"), RespValue::Raw(payload)));
        fields.push(
            (
                String::from_str("unload_error"),
                RespValue::Str(String::from_str("Unload failed after inference")),
            ),
        );
        Outbound::Object(Response { fields })
    }
}

} // verus!
