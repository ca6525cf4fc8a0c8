use capworker::json::{obj_get, JsonNum, JsonValue};
use capworker::rpc::{
    decode_error, decode_event, decode_request, decode_response, new_id, RpcError, RpcEvent,
    RpcRequest, RpcResponse,
};

fn obj(fields: Vec<(&str, JsonValue)>) -> JsonValue {
    JsonValue::Obj(fields.into_iter().map(|(k, v)| (k.to_string(), v)).collect())
}

fn s(text: &str) -> JsonValue {
    JsonValue::Str(text.to_string())
}

#[test]
fn test_rpc_request_serialization() {
    let req = RpcRequest {
        id: "test-123".to_string(),
        method: "probe".to_string(),
        params: obj(vec![("path", s("/test.mp4"))]),
    };

    let json = req.encode();
    assert!(json.contains("test-123"));
    assert!(json.contains("probe"));
    assert!(json.contains("/test.mp4"));
}

#[test]
fn test_rpc_request_deserialization() {
    let json = r#"{"id":"req-456","method":"transcribe","params":{"audio":"/audio.wav"}}"#;
    let req: RpcRequest = decode_request(json).unwrap();

    assert_eq!(req.id, "req-456");
    assert_eq!(req.method, "transcribe");
    let fields = match &req.params {
        JsonValue::Obj(fields) => fields,
        _ => panic!("params should be an object"),
    };
    let audio = obj_get(fields, "audio").unwrap();
    assert!(matches!(audio, JsonValue::Str(p) if p == "/audio.wav"));
}

#[test]
fn test_rpc_request_default_params() {
    // If params is missing, it should default to null/empty
    let json = r#"{"id":"req-789","method":"ping"}"#;
    let req: RpcRequest = decode_request(json).unwrap();

    assert_eq!(req.id, "req-789");
    assert_eq!(req.method, "ping");
    assert!(req.params.is_null());
}

#[test]
fn test_rpc_request_roundtrip() {
    let original = RpcRequest {
        id: "roundtrip-test".to_string(),
        method: "export".to_string(),
        params: obj(vec![
            ("input", s("/video.mp4")),
            ("format", s("9:16")),
            ("quality", JsonValue::Num(JsonNum { neg: false, mantissa: 18, scale: 0 })),
        ]),
    };

    let json = original.encode();
    let parsed: RpcRequest = decode_request(&json).unwrap();

    assert_eq!(parsed.id, original.id);
    assert_eq!(parsed.method, original.method);
    let fields = match &parsed.params {
        JsonValue::Obj(fields) => fields,
        _ => panic!("params should be an object"),
    };
    let format = obj_get(fields, "format").unwrap();
    assert!(matches!(format, JsonValue::Str(f) if f == "9:16"));
}

#[test]
fn test_rpc_response_serialization() {
    let resp = RpcResponse {
        id: "resp-123".to_string(),
        result: obj(vec![
            ("duration", JsonValue::Num(JsonNum { neg: false, mantissa: 105, scale: 1 })),
            ("width", JsonValue::Num(JsonNum { neg: false, mantissa: 1920, scale: 0 })),
        ]),
    };

    let json = resp.encode();
    assert!(json.contains("resp-123"));
    assert!(json.contains("10.5"));
    assert!(json.contains("1920"));
}

#[test]
fn test_rpc_response_deserialization() {
    let json = r#"{"id":"resp-456","result":{"success":true}}"#;
    let resp: RpcResponse = decode_response(json).unwrap();

    assert_eq!(resp.id, "resp-456");
    let fields = match &resp.result {
        JsonValue::Obj(fields) => fields,
        _ => panic!("result should be an object"),
    };
    let success = obj_get(fields, "success").unwrap();
    assert!(matches!(success, JsonValue::Bool(true)));
}

#[test]
fn test_rpc_error_serialization() {
    let err = RpcError {
        id: "err-123".to_string(),
        error: "File not found".to_string(),
    };

    let json = err.encode();
    assert!(json.contains("err-123"));
    assert!(json.contains("File not found"));
}

#[test]
fn test_rpc_error_deserialization() {
    let json = r#"{"id":"err-456","error":"Invalid format"}"#;
    let err: RpcError = decode_error(json).unwrap();

    assert_eq!(err.id, "err-456");
    assert_eq!(err.error, "Invalid format");
}

#[test]
fn test_rpc_event_progress_serialization() {
    let event = RpcEvent::Progress {
        id: "op-1".to_string(),
        status: "Processing...".to_string(),
        progress_hundredths: 50,
    };

    let json = event.encode();
    // Should use camelCase for event type
    assert!(json.contains("\"event\":\"progress\""));
    assert!(json.contains("0.5"));
    assert!(json.contains("Processing"));
}

#[test]
fn test_rpc_event_log_serialization() {
    let event = RpcEvent::Log {
        id: "op-2".to_string(),
        message: "Starting export".to_string(),
    };

    let json = event.encode();
    assert!(json.contains("\"event\":\"log\""));
    assert!(json.contains("Starting export"));
}

#[test]
fn test_rpc_event_progress_deserialization() {
    let json = r#"{"event":"progress","id":"op-3","status":"Encoding...","progress":0.75}"#;
    let event: RpcEvent = decode_event(json).unwrap();

    match event {
        RpcEvent::Progress {
            id,
            status,
            progress_hundredths,
        } => {
            assert_eq!(id, "op-3");
            assert_eq!(status, "Encoding...");
            assert_eq!(progress_hundredths, 75);
        }
        _ => panic!("Expected Progress event"),
    }
}

#[test]
fn test_rpc_event_log_deserialization() {
    let json = r#"{"event":"log","id":"op-4","message":"Done!"}"#;
    let event: RpcEvent = decode_event(json).unwrap();

    match event {
        RpcEvent::Log { id, message } => {
            assert_eq!(id, "op-4");
            assert_eq!(message, "Done!");
        }
        _ => panic!("Expected Log event"),
    }
}

#[test]
fn progress_outside_unit_interval_is_rejected() {
    let too_big = r#"{"event":"progress","id":"x","status":"s","progress":1.5}"#;
    assert!(decode_event(too_big).is_none());
    let too_fine = r#"{"event":"progress","id":"x","status":"s","progress":0.755}"#;
    assert!(decode_event(too_fine).is_none());
    let negative = r#"{"event":"progress","id":"x","status":"s","progress":-0.5}"#;
    assert!(decode_event(negative).is_none());
}

#[test]
fn progress_boundaries_encode_and_decode() {
    let full = RpcEvent::Progress {
        id: "x".to_string(),
        status: "done".to_string(),
        progress_hundredths: 100,
    };
    let line = full.encode();
    assert!(line.contains("\"progress\":1"));
    match decode_event(&line).unwrap() {
        RpcEvent::Progress { progress_hundredths, .. } => assert_eq!(progress_hundredths, 100),
        _ => panic!("Expected Progress event"),
    }

    let none = RpcEvent::Progress {
        id: "x".to_string(),
        status: "start".to_string(),
        progress_hundredths: 0,
    };
    let line = none.encode();
    assert!(line.contains("\"progress\":0"));
    match decode_event(&line).unwrap() {
        RpcEvent::Progress { progress_hundredths, .. } => assert_eq!(progress_hundredths, 0),
        _ => panic!("Expected Progress event"),
    }

    // trailing fractional zeros read back to the same fraction
    let padded = r#"{"event":"progress","id":"x","status":"s","progress":0.750}"#;
    match decode_event(padded).unwrap() {
        RpcEvent::Progress { progress_hundredths, .. } => assert_eq!(progress_hundredths, 75),
        _ => panic!("Expected Progress event"),
    }
}

#[test]
fn test_new_id_is_uuid_format() {
    let id = new_id();
    // UUID v4 format: 8-4-4-4-12 = 36 characters
    assert_eq!(id.len(), 36);
    assert_eq!(id.matches('-').count(), 4);
}

#[test]
fn test_new_id_is_unique() {
    let id1 = new_id();
    let id2 = new_id();
    let id3 = new_id();

    assert_ne!(id1, id2);
    assert_ne!(id2, id3);
    assert_ne!(id1, id3);
}

#[test]
fn test_new_id_is_valid_uuid() {
    let id = new_id();
    // Should be parseable as a UUID
    let parsed = uuid::Uuid::parse_str(&id);
    assert!(parsed.is_ok());
}
