use capworker::engine::{
    cancel_terminal, claim_id, finish, parse_method, route, task_transcript, EventBody, Method,
    RouteOutcome, TaskOutcome, Terminal, ValidatedParams,
};
use capworker::json::JsonValue;
use capworker::registry::CancellationRegistry;
use capworker::rpc::{decode_event, decode_request};

fn route_line(line: &str, fresh_id: &str) -> RouteOutcome {
    route(decode_request(line), fresh_id.to_string())
}

#[test]
fn ping_answers_ok_true() {
    let outcome = route_line(r#"{"id":"1","method":"ping"}"#, "fresh");
    let resp = match outcome {
        RouteOutcome::Reply(resp) => resp,
        _ => panic!("ping should reply immediately"),
    };
    assert_eq!(resp.encode(), r#"{"id":"1","result":{"ok":true}}"#);
}

#[test]
fn unknown_method_is_rejected_under_its_own_id() {
    let outcome = route_line(r#"{"id":"3","method":"unknownThing"}"#, "fresh");
    let err = match outcome {
        RouteOutcome::Reject(err) => err,
        _ => panic!("unknown method should be rejected"),
    };
    assert_eq!(err.encode(), r#"{"id":"3","error":"Unknown method: unknownThing"}"#);
}

#[test]
fn cancel_for_unregistered_id_yields_not_found_error() {
    let outcome = route_line(r#"{"id":"2","method":"cancel","params":"ghost"}"#, "fresh");
    let (id, target) = match outcome {
        RouteOutcome::CancelRequest { id, target } => (id, target),
        _ => panic!("cancel should become a cancellation request"),
    };
    let registry: CancellationRegistry<u8> = CancellationRegistry::new();
    let found = registry.lookup(&target).is_some();
    assert!(!found);
    let terminal = cancel_terminal(id, &target, found);
    match terminal {
        Terminal::Failed(err) => {
            assert_eq!(err.encode(), r#"{"id":"2","error":"Task with id ghost not found"}"#);
        }
        Terminal::Done(_) => panic!("cancel of an unknown id must fail"),
    }
}

#[test]
fn cancel_of_active_id_reports_cancelled_true() {
    let mut registry: CancellationRegistry<u8> = CancellationRegistry::new();
    assert!(registry.register("task-1".to_string(), 7));
    let outcome = route_line(r#"{"id":"c","method":"cancel","params":"task-1"}"#, "fresh");
    let (id, target) = match outcome {
        RouteOutcome::CancelRequest { id, target } => (id, target),
        _ => panic!("cancel should become a cancellation request"),
    };
    let found = registry.lookup(&target).is_some();
    assert!(found);
    let terminal = cancel_terminal(id, &target, found);
    match terminal {
        Terminal::Done(resp) => {
            assert_eq!(resp.encode(), r#"{"id":"c","result":{"cancelled":true}}"#);
        }
        Terminal::Failed(_) => panic!("cancel of an active id must succeed"),
    }
}

#[test]
fn malformed_line_gets_error_under_fresh_id_and_stream_continues() {
    let outcome = route_line("this is not json", "fresh-uuid");
    let err = match outcome {
        RouteOutcome::Reject(err) => err,
        _ => panic!("malformed line must be rejected"),
    };
    assert_eq!(err.id, "fresh-uuid");
    assert_eq!(err.error, "Bad request: malformed line");

    // The next line is handled as if the bad one had never come.
    let next = route_line(r#"{"id":"1","method":"ping"}"#, "fresh2");
    assert!(matches!(next, RouteOutcome::Reply(_)));
}

#[test]
fn truncated_and_garbled_lines_never_panic() {
    for line in [
        "",
        "{",
        "[1,",
        r#"{"id": "x""#,
        r#"{"id":}"#,
        "\\u0000",
        "{\"id\":\"a\",\"method\":\"ping\"} trailing",
        "1e9",
        "-",
        "\"unterminated",
    ] {
        assert!(decode_request(line).is_none());
    }
}

#[test]
fn validation_failure_is_rejected_before_any_task() {
    // generateCaptions without its required fields never becomes a task.
    let outcome = route_line(r#"{"id":"v","method":"generateCaptions","params":{}}"#, "fresh");
    let err = match outcome {
        RouteOutcome::Reject(err) => err,
        _ => panic!("invalid params must be rejected"),
    };
    assert_eq!(err.id, "v");
    assert_eq!(err.error, "Invalid params for generateCaptions");
}

#[test]
fn valid_generate_captions_request_is_accepted() {
    let line = r#"{"id":"g","method":"generateCaptions","params":{
        "inputVideo":"/in.mp4","exportFormats":["9:16","16:9"],
        "karaoke":true,"splitByWords":false}}"#;
    let outcome = route_line(line, "fresh");
    let (id, work) = match outcome {
        RouteOutcome::Accept { id, work } => (id, work),
        _ => panic!("a valid request must be accepted"),
    };
    assert_eq!(id, "g");
    match work {
        ValidatedParams::GenerateCaptions(p) => {
            assert_eq!(p.input_video, "/in.mp4");
            assert_eq!(p.export_formats, vec!["9:16".to_string(), "16:9".to_string()]);
            assert!(p.karaoke);
            assert!(!p.split_by_words);
            // multiline and glowEffect default to false when absent
            assert!(!p.multiline);
            assert!(!p.glow_effect);
            assert!(p.font_name.is_none());
            assert!(p.font_size.is_none());
        }
        _ => panic!("wrong params variant"),
    }
}

#[test]
fn method_table_is_closed() {
    assert_eq!(parse_method("ping"), Some(Method::Ping));
    assert_eq!(parse_method("cancel"), Some(Method::Cancel));
    assert_eq!(parse_method("generateCaptions"), Some(Method::GenerateCaptions));
    assert_eq!(parse_method("downloadModel"), Some(Method::DownloadModel));
    assert_eq!(parse_method("checkModelExists"), Some(Method::CheckModelExists));
    assert_eq!(parse_method("extractFirstFrame"), Some(Method::ExtractFirstFrame));
    assert_eq!(parse_method("transcribe"), Some(Method::Transcribe));
    assert_eq!(parse_method("burn"), Some(Method::Burn));
    assert_eq!(parse_method("previewLayout"), Some(Method::PreviewLayout));
    assert_eq!(parse_method("Ping"), None);
    assert_eq!(parse_method(""), None);
}

#[test]
fn exactly_one_terminal_after_events_for_one_id() {
    let events = vec![
        EventBody::Progress { status: "Extracting audio...".to_string(), progress_hundredths: 25 },
        EventBody::Log { message: "audio ready".to_string() },
        EventBody::Progress { status: "Transcribing...".to_string(), progress_hundredths: 90 },
    ];
    let lines = task_transcript(
        "task-9",
        events,
        TaskOutcome::Completed(Ok(JsonValue::Str("done".to_string()))),
    );
    assert_eq!(lines.len(), 4);
    // every event precedes the terminal and carries the owning id
    for line in &lines[..3] {
        let ev = decode_event(line).expect("event lines decode as events");
        let id = match ev {
            capworker::rpc::RpcEvent::Progress { id, .. } => id,
            capworker::rpc::RpcEvent::Log { id, .. } => id,
        };
        assert_eq!(id, "task-9");
        assert!(capworker::rpc::decode_response(line).is_none());
        assert!(capworker::rpc::decode_error(line).is_none());
    }
    // the last line is the one terminal, for the same id
    assert_eq!(lines[3], r#"{"id":"task-9","result":"done"}"#);
}

#[test]
fn race_outcome_is_response_or_cancelled_error_for_same_id() {
    let won = finish("r".to_string(), TaskOutcome::Completed(Ok(JsonValue::Bool(true))));
    match won {
        Terminal::Done(resp) => assert_eq!(resp.encode(), r#"{"id":"r","result":true}"#),
        Terminal::Failed(_) => panic!("a completed task must answer with its response"),
    }

    let lost = finish("r".to_string(), TaskOutcome::Cancelled);
    match lost {
        Terminal::Failed(err) => assert_eq!(err.encode(), r#"{"id":"r","error":"Cancelled"}"#),
        Terminal::Done(_) => panic!("a cancelled task must answer with the Cancelled error"),
    }

    let failed = finish("r".to_string(), TaskOutcome::Completed(Err("boom".to_string())));
    match failed {
        Terminal::Failed(err) => assert_eq!(err.encode(), r#"{"id":"r","error":"boom"}"#),
        Terminal::Done(_) => panic!("a failed task must answer with its error"),
    }
}

#[test]
fn duplicate_in_flight_id_is_rejected_and_first_entry_kept() {
    let mut registry: CancellationRegistry<u32> = CancellationRegistry::new();
    assert!(claim_id(&mut registry, "dup".to_string(), 1).is_none());
    let refused = claim_id(&mut registry, "dup".to_string(), 2);
    let err = refused.expect("a reused in-flight id must be refused");
    assert_eq!(err.id, "dup");
    assert_eq!(err.error, "Duplicate request id");
    // the earlier task's handle is untouched
    assert_eq!(registry.lookup("dup"), Some(&1));
    assert_eq!(registry.len(), 1);
}

#[test]
fn deregister_runs_on_every_exit_and_scopes_cancellation() {
    let mut registry: CancellationRegistry<u32> = CancellationRegistry::new();
    assert!(registry.register("a".to_string(), 1));
    assert!(registry.register("b".to_string(), 2));
    registry.deregister("a");
    assert!(registry.lookup("a").is_none());
    // a sibling task's entry is unaffected
    assert_eq!(registry.lookup("b"), Some(&2));
    // removing an absent id is a harmless no-op
    registry.deregister("a");
    assert_eq!(registry.len(), 1);
}
