//! Command parsing, dispatch, the lifecycle machine, and backend reply
//! interpretation.

use inference_gateway::backend::{
    body_reports_error, health_live_url, health_ready_url, interpret_unload_precheck,
    interpret_unload_reply, is_success, model_infer_url, model_load_url, model_stats_url,
    model_unload_url, model_url, repository_index_url, HttpReply, UnloadPrecheck, UnloadResult,
};
use inference_gateway::command::CommandKind;
use inference_gateway::dispatch::{
    align_error_msg, dispatch_begin, parse_message, respond_error, respond_fetch_outcome,
    respond_health, respond_infer_done, respond_load_outcome, respond_models, respond_ping,
    respond_unload_not_loaded, respond_unload_ok, DispatchStart, Outbound,
};
use inference_gateway::lifecycle::{
    lifecycle_step, LifecycleAction, LifecycleEvent, LifecycleGoal, LifecycleState,
    RequestOutcome,
};
use inference_gateway::align::{AlignError, NamedTensor};
use inference_gateway::archive::ExtractOutcome;
use inference_gateway::integrity::IntegrityOutcome;
use inference_gateway::render::{render_infer_request, render_response};
use inference_gateway::tensor::TensorData;

#[test]
fn plain_text_load_command() {
    let cmd = parse_message("load densenet_onnx");
    assert_eq!(cmd.kind, CommandKind::Load);
    assert_eq!(cmd.word, "load");
    assert_eq!(cmd.model_name.as_deref(), Some("densenet_onnx"));
    match dispatch_begin(&cmd) {
        DispatchStart::RunLifecycle(goal) => assert_eq!(goal, LifecycleGoal::LoadOnly),
        other => panic!("expected a lifecycle start, got {:?}", other),
    }
}

#[test]
fn load_response_is_success_or_error() {
    // The successful load renders to exactly this object.
    let ok = respond_load_outcome("densenet_onnx", &RequestOutcome::LoadDone);
    assert_eq!(render_response(&ok), "{\"load\":\"Success\"}");
    // Every failing outcome renders to an error object.
    let failed = respond_load_outcome(
        "densenet_onnx",
        &RequestOutcome::LoadFailed { status: 503 },
    );
    assert_eq!(
        render_response(&failed),
        "{\"error\":\"Failed to load model 'densenet_onnx'. HTTP: 503\"}"
    );
}

#[test]
fn structured_unload_of_unknown_model() {
    let cmd = parse_message("{\"command\":\"unload\",\"model_name\":\"x\"}");
    assert_eq!(cmd.kind, CommandKind::Unload);
    assert_eq!(cmd.model_name.as_deref(), Some("x"));
    match dispatch_begin(&cmd) {
        DispatchStart::RunUnload => {}
        other => panic!("expected the unload sequence, got {:?}", other),
    }
    // The backend's status probe says the model was never loaded: the
    // unload is a legitimate no-op, not an error.
    assert_eq!(interpret_unload_precheck(404), UnloadPrecheck::NotLoaded);
    let resp = respond_unload_not_loaded();
    assert_eq!(render_response(&resp), "{\"unload\":\"Model was not loaded\"}");
}

#[test]
fn unknown_command_answers_with_help() {
    let cmd = parse_message("frobnicate now");
    assert_eq!(cmd.kind, CommandKind::Unknown);
    match dispatch_begin(&cmd) {
        DispatchStart::Respond(r) => {
            let text = render_response(&r);
            assert!(text.starts_with("{\"message\":\"Unknown command: 'frobnicate'"));
            assert!(text.contains("Available commands"));
        }
        other => panic!("expected an immediate response, got {:?}", other),
    }
}

#[test]
fn every_command_word_routes() {
    let words = [
        ("infer", CommandKind::Infer),
        ("infertext", CommandKind::InferText),
        ("metadata", CommandKind::Metadata),
        ("load", CommandKind::Load),
        ("unload", CommandKind::Unload),
        ("stats", CommandKind::Stats),
        ("list", CommandKind::List),
        ("ping", CommandKind::Ping),
        ("live", CommandKind::Live),
        ("ready", CommandKind::Ready),
    ];
    for (word, kind) in words {
        assert_eq!(parse_message(word).kind, kind);
    }
    // Structured messages without a command word default to inference.
    assert_eq!(parse_message("{}").kind, CommandKind::Infer);
    // A blank message has an empty command word, which is unrecognized.
    assert_eq!(parse_message("   ").kind, CommandKind::Unknown);
}

#[test]
fn ping_answers_pong() {
    let cmd = parse_message("ping");
    match dispatch_begin(&cmd) {
        DispatchStart::Respond(r) => {
            assert_eq!(render_response(&r), "{\"response\":\"pong\"}")
        }
        other => panic!("expected an immediate response, got {:?}", other),
    }
    assert_eq!(render_response(&respond_ping()), "{\"response\":\"pong\"}");
}

/// Drive the lifecycle machine over a full event run and count the unload
/// attempts it asks for.
fn run_machine(goal: LifecycleGoal, events: &[LifecycleEvent]) -> (Vec<LifecycleAction>, LifecycleState) {
    let mut state = LifecycleState::Idle;
    let mut actions = Vec::new();
    for event in events {
        let (next, action) = lifecycle_step(goal, state, event);
        state = next;
        actions.push(action);
    }
    (actions, state)
}

fn unload_count(actions: &[LifecycleAction]) -> usize {
    actions.iter().filter(|a| **a == LifecycleAction::CallUnload).count()
}

#[test]
fn inference_success_unloads_exactly_once() {
    let (actions, state) = run_machine(
        LifecycleGoal::Infer,
        &[
            LifecycleEvent::Started,
            LifecycleEvent::StatusProbed { status: 404 },
            LifecycleEvent::Extracted { outcome: ExtractOutcome::Extracted },
            LifecycleEvent::Verified { outcome: IntegrityOutcome::Valid },
            LifecycleEvent::LoadReplied { status: 200 },
            LifecycleEvent::Aligned { ok: true },
            LifecycleEvent::InferReplied { ok: true },
            LifecycleEvent::UnloadFinished { ok: true },
        ],
    );
    assert_eq!(state, LifecycleState::Done);
    assert_eq!(unload_count(&actions), 1);
    assert_eq!(
        *actions.last().unwrap(),
        LifecycleAction::Finish {
            outcome: RequestOutcome::InferDone { infer_ok: true, unload_ok: true }
        }
    );
}

#[test]
fn inference_failure_still_unloads_exactly_once() {
    let (actions, state) = run_machine(
        LifecycleGoal::Infer,
        &[
            LifecycleEvent::Started,
            LifecycleEvent::StatusProbed { status: 200 },
            LifecycleEvent::Aligned { ok: true },
            LifecycleEvent::InferReplied { ok: false },
            LifecycleEvent::UnloadFinished { ok: true },
        ],
    );
    assert_eq!(state, LifecycleState::Done);
    assert_eq!(unload_count(&actions), 1);
    assert_eq!(
        *actions.last().unwrap(),
        LifecycleAction::Finish {
            outcome: RequestOutcome::InferDone { infer_ok: false, unload_ok: true }
        }
    );
}

#[test]
fn alignment_failure_aborts_without_unload() {
    let (actions, state) = run_machine(
        LifecycleGoal::Infer,
        &[
            LifecycleEvent::Started,
            LifecycleEvent::StatusProbed { status: 200 },
            LifecycleEvent::Aligned { ok: false },
        ],
    );
    assert_eq!(state, LifecycleState::Done);
    assert_eq!(unload_count(&actions), 0);
}

#[test]
fn load_failure_aborts_without_unload() {
    let (actions, state) = run_machine(
        LifecycleGoal::Infer,
        &[
            LifecycleEvent::Started,
            LifecycleEvent::StatusProbed { status: 500 },
        ],
    );
    assert_eq!(state, LifecycleState::Done);
    assert_eq!(unload_count(&actions), 0);
}

#[test]
fn integrity_mismatch_aborts_the_request() {
    let (actions, state) = run_machine(
        LifecycleGoal::Infer,
        &[
            LifecycleEvent::Started,
            LifecycleEvent::StatusProbed { status: 404 },
            LifecycleEvent::Extracted { outcome: ExtractOutcome::AlreadyPresent },
            LifecycleEvent::Verified { outcome: IntegrityOutcome::Mismatch },
        ],
    );
    assert_eq!(state, LifecycleState::Done);
    assert_eq!(unload_count(&actions), 0);
    assert_eq!(
        *actions.last().unwrap(),
        LifecycleAction::Finish {
            outcome: RequestOutcome::IntegrityFailed { outcome: IntegrityOutcome::Mismatch }
        }
    );
}

#[test]
fn metadata_goal_fetches_after_load() {
    let (actions, state) = run_machine(
        LifecycleGoal::FetchMetadata,
        &[
            LifecycleEvent::Started,
            LifecycleEvent::StatusProbed { status: 200 },
            LifecycleEvent::FetchReplied { status: 200 },
        ],
    );
    assert_eq!(state, LifecycleState::Done);
    assert_eq!(actions[1], LifecycleAction::CallFetch);
    assert_eq!(unload_count(&actions), 0);
}

#[test]
fn success_statuses() {
    assert!(is_success(200));
    assert!(is_success(204));
    assert!(!is_success(301));
    assert!(!is_success(404));
}

#[test]
fn unload_reply_interpretation() {
    let clean = HttpReply { status: 200, body: "unloaded".to_string() };
    assert_eq!(interpret_unload_reply(&clean), UnloadResult::Unloaded);
    let body_error = HttpReply { status: 200, body: "internal ERROR while unloading".to_string() };
    assert_eq!(interpret_unload_reply(&body_error), UnloadResult::BodyError);
    let http_error = HttpReply { status: 503, body: String::new() };
    assert_eq!(interpret_unload_reply(&http_error), UnloadResult::HttpError);

    assert!(body_reports_error("Error: boom"));
    assert!(body_reports_error("an eRrOr happened"));
    assert!(!body_reports_error("all fine"));
    assert!(!body_reports_error("err"));
}

#[test]
fn request_paths() {
    assert_eq!(model_url("http://h/v2", "m"), "http://h/v2/models/m");
    assert_eq!(model_stats_url("http://h/v2", "m"), "http://h/v2/models/m/stats");
    assert_eq!(model_infer_url("http://h/v2", "m"), "http://h/v2/models/m/infer");
    assert_eq!(model_load_url("http://h/v2", "m"), "http://h/v2/repository/models/m/load");
    assert_eq!(model_unload_url("http://h/v2", "m"), "http://h/v2/repository/models/m/unload");
    assert_eq!(repository_index_url("http://h/v2"), "http://h/v2/repository/index");
    assert_eq!(health_live_url("http://h/v2"), "http://h/v2/health/live");
    assert_eq!(health_ready_url("http://h/v2"), "http://h/v2/health/ready");
}

#[test]
fn fetch_outcome_forwards_or_reports() {
    let body = "{\"name\":\"m\"}".to_string();
    match respond_fetch_outcome("m", &RequestOutcome::FetchDone { status: 200 }, body.clone()) {
        Outbound::Passthrough(s) => assert_eq!(s, body),
        other => panic!("expected a passthrough, got {:?}", other),
    }
    match respond_fetch_outcome("m", &RequestOutcome::FetchDone { status: 500 }, body.clone()) {
        Outbound::Object(r) => assert_eq!(
            render_response(&r),
            "{\"error\":\"Failed to fetch for model 'm'. HTTP: 500\"}"
        ),
        other => panic!("expected an error object, got {:?}", other),
    }
    match respond_fetch_outcome("m", &RequestOutcome::LoadFailed { status: 0 }, body) {
        Outbound::Object(r) => assert_eq!(
            render_response(&r),
            "{\"error\":\"Failed to load model 'm'. HTTP: 0\"}"
        ),
        other => panic!("expected an error object, got {:?}", other),
    }
}

#[test]
fn alignment_errors_have_exact_messages() {
    assert_eq!(
        align_error_msg(&AlignError::MissingInput { name: "data_0".to_string() }),
        "Missing input 'data_0'"
    );
    assert_eq!(
        align_error_msg(&AlignError::ShapeMismatch {
            name: "data_0".to_string(),
            expected_shape: vec![3, 224, 224],
            expected_len: 150528,
            actual_len: 3,
        }),
        "Shape mismatch for input 'data_0': expected 150528 elements, got 3"
    );
    assert_eq!(
        align_error_msg(&AlignError::UnsupportedDatatype {
            name: "x".to_string(),
            datatype: "FP16".to_string(),
        }),
        "Unsupported datatype 'FP16' for input 'x'"
    );
}

#[test]
fn infer_request_serializes_exactly() {
    let tensors = vec![
        NamedTensor {
            name: "data_0".to_string(),
            data: TensorData::F32(vec!["0.5".to_string(), "1.5".to_string()]),
            shape: vec![1, 2],
        },
        NamedTensor {
            name: "ids".to_string(),
            data: TensorData::I64(vec![-3, 4]),
            shape: vec![2],
        },
        NamedTensor {
            name: "flags".to_string(),
            data: TensorData::Bool(vec![true, false]),
            shape: vec![2],
        },
    ];
    assert_eq!(
        render_infer_request(&tensors),
        "{\"inputs\":[\
         {\"name\":\"data_0\",\"shape\":[1,2],\"datatype\":\"FP32\",\"data\":[0.5,1.5]},\
         {\"name\":\"ids\",\"shape\":[2],\"datatype\":\"INT64\",\"data\":[-3,4]},\
         {\"name\":\"flags\",\"shape\":[2],\"datatype\":\"BOOL\",\"data\":[true,false]}]}"
    );
}

#[test]
fn outbound_responses_render() {
    assert_eq!(render_response(&respond_unload_ok()), "{\"unload\":\"Success\"}");
    assert_eq!(render_response(&respond_health("live", true)), "{\"live\":true}");
    assert_eq!(render_response(&respond_health("ready", false)), "{\"ready\":false}");
    assert_eq!(
        render_response(&respond_models(vec!["a".to_string(), "b".to_string()])),
        "{\"models\":[\"a\",\"b\"]}"
    );
    assert_eq!(
        render_response(&respond_error("boom \"quoted\"".to_string())),
        "{\"error\":\"boom \\\"quoted\\\"\"}"
    );
    match respond_infer_done(true, true, "{\"outputs\":[]}".to_string()) {
        Outbound::Passthrough(s) => assert_eq!(s, "{\"outputs\":[]}"),
        other => panic!("expected a passthrough, got {:?}", other),
    }
    match respond_infer_done(true, false, "{\"outputs\":[]}".to_string()) {
        Outbound::Object(r) => assert_eq!(
            render_response(&r),
            "{\"result\":{\"outputs\":[]},\"unload_error\":\"Unload failed after inference\"}"
        ),
        other => panic!("expected an object, got {:?}", other),
    }
    match respond_infer_done(false, true, "backend said no".to_string()) {
        Outbound::Object(r) => assert_eq!(
            render_response(&r),
            "{\"error\":\"Inference error: backend said no\"}"
        ),
        other => panic!("expected an object, got {:?}", other),
    }
}
