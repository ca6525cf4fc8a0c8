//! The protocol envelopes — request, response, error, event — and their
//! line codec. Encoding is pinned down to the exact character sequence;
//! decoding is total and extraction from a parsed document is exact.
//!
//! A line that does not parse as a request has no usable id; the dispatcher
//! answers it under a freshly generated id instead (`new_id`).
use vstd::prelude::*;

use crate::json::{
    clone_json, encode_json, jview_fields, obj_get, parse_json, spec_json_text, spec_obj_lookup,
    JsonNum, JsonV, JsonValue,
};

verus! {

/// One incoming operation: a caller-chosen id, a method name, and
/// method-specific parameters (`Null` when the line omits them).
#[derive(Debug)]
pub struct RpcRequest {
    pub id: String,
    pub method: String,
    pub params: JsonValue,
}

/// The one success envelope of a request.
#[derive(Debug)]
pub struct RpcResponse {
    pub id: String,
    pub result: JsonValue,
}

/// The one failure envelope of a request.
#[derive(Debug)]
pub struct RpcError {
    pub id: String,
    pub error: String,
}

/// A non-terminal notification owned by one request. Progress is carried in
/// hundredths: 0 stands for 0.0, 100 for 1.0.
#[derive(Debug)]
pub enum RpcEvent {
    Progress { id: String, status: String, progress_hundredths: u32 },
    Log { id: String, message: String },
}

/// The number that writes a progress fraction of `h` hundredths: whole
/// hundredths are shortened so that 50 prints as `0.5` and 100 as `1`.
pub open spec fn spec_hundredths_num(h: u32) -> JsonNum {
    if h % 100 == 0 {
        JsonNum { neg: false, mantissa: (h / 100) as u64, scale: 0 }
    } else if h % 10 == 0 {
        JsonNum { neg: false, mantissa: (h / 10) as u64, scale: 1 }
    } else {
        JsonNum { neg: false, mantissa: h as u64, scale: 2 }
    }
}

/// Exactly `spec_hundredths_num`.
pub fn hundredths_num(h: u32) -> (r: JsonNum)
    ensures
        r == spec_hundredths_num(h),
{
    if h % 100 == 0 {
        JsonNum { neg: false, mantissa: (h / 100) as u64, scale: 0 }
    } else if h % 10 == 0 {
        JsonNum { neg: false, mantissa: (h / 10) as u64, scale: 1 }
    } else {
        JsonNum { neg: false, mantissa: h as u64, scale: 2 }
    }
}

/// Drops trailing fractional zeros until at most two fractional digits
/// remain; a non-zero digit beyond the second place does not fit.
pub open spec fn spec_strip(m: nat, sc: nat) -> Option<(nat, nat)>
    decreases sc,
{
    if sc <= 2 {
        Some((m, sc))
    } else if m % 10 == 0 {
        spec_strip(m / 10, (sc - 1) as nat)
    } else {
        None
    }
}

/// The progress fraction in hundredths that `n` denotes, if `n` is a
/// non-negative number no greater than one with at most two decimal places
/// of precision.
pub open spec fn spec_num_hundredths(n: JsonNum) -> Option<u32> {
    if n.neg && n.mantissa != 0 {
        None
    } else {
        match spec_strip(n.mantissa as nat, n.scale as nat) {
            None => None,
            Some((m, sc)) => {
                let h = m * (if sc == 0 { 100nat } else if sc == 1 { 10nat } else { 1nat });
                if h <= 100 {
                    Some(h as u32)
                } else {
                    None
                }
            },
        }
    }
}

/// Exactly `spec_num_hundredths`.
pub fn num_hundredths(n: &JsonNum) -> (r: Option<u32>)
    ensures
        r == spec_num_hundredths(*n),
{
    if n.neg && n.mantissa != 0 {
        return None;
    }
    let mut m = n.mantissa;
    let mut sc = n.scale;
    while sc > 2
        invariant
            spec_strip(n.mantissa as nat, n.scale as nat) == spec_strip(m as nat, sc as nat),
        decreases sc,
    {
        if m % 10 != 0 {
            return None;
        }
        m = m / 10;
        sc = sc - 1;
    }
    let mult: u64 = if sc == 0 { 100 } else if sc == 1 { 10 } else { 1 };
    match m.checked_mul(mult) {
        Some(h) => {
            if h <= 100 {
                Some(h as u32)
            } else {
                None
            }
        },
        None => {
            proof {
                assert((m as nat) * (mult as nat) > u64::MAX);
            }
            None
        },
    }
}

/// The document a response writes: `{"id":…,"result":…}`.
pub open spec fn spec_response_v(id: Seq<char>, result: JsonV) -> JsonV {
    JsonV::Obj(seq![("id"@, JsonV::Str(id)), ("result"@, result)])
}

/// The document an error writes: `{"id":…,"error":…}`.
pub open spec fn spec_error_v(id: Seq<char>, error: Seq<char>) -> JsonV {
    JsonV::Obj(seq![("id"@, JsonV::Str(id)), ("error"@, JsonV::Str(error))])
}

/// The document a request writes: `{"id":…,"method":…,"params":…}`.
pub open spec fn spec_request_v(id: Seq<char>, method: Seq<char>, params: JsonV) -> JsonV {
    JsonV::Obj(
        seq![("id"@, JsonV::Str(id)), ("method"@, JsonV::Str(method)), ("params"@, params)],
    )
}

/// The document a progress event writes, tagged `"event":"progress"`.
pub open spec fn spec_progress_v(id: Seq<char>, status: Seq<char>, h: u32) -> JsonV {
    JsonV::Obj(
        seq![
            ("event"@, JsonV::Str("progress"@)),
            ("id"@, JsonV::Str(id)),
            ("status"@, JsonV::Str(status)),
            ("progress"@, JsonV::Num(spec_hundredths_num(h))),
        ],
    )
}

/// The document a log event writes, tagged `"event":"log"`.
pub open spec fn spec_log_v(id: Seq<char>, message: Seq<char>) -> JsonV {
    JsonV::Obj(
        seq![("event"@, JsonV::Str("log"@)), ("id"@, JsonV::Str(id)), ("message"@, JsonV::Str(
            message,
        ))],
    )
}

/// The view a terminal or event line must have, by envelope.
pub open spec fn spec_event_line(ev: RpcEvent) -> Seq<char> {
    match ev {
        RpcEvent::Progress { id, status, progress_hundredths } => spec_json_text(
            spec_progress_v(id@, status@, progress_hundredths),
        ),
        RpcEvent::Log { id, message } => spec_json_text(spec_log_v(id@, message@)),
    }
}

impl RpcResponse {
    /// The response's line, exactly the text of `spec_response_v`.
    pub fn encode(&self) -> (r: String)
        ensures
            r@ == spec_json_text(spec_response_v(self.id@, self.result@)),
    {
        let fields = vec![
            (String::from_str("id"), JsonValue::Str(self.id.clone())),
            (String::from_str("result"), clone_json(&self.result)),
        ];
        let doc = JsonValue::Obj(fields);
        proof {
            crate::json::lemma_jview_fields_index(doc->Obj_0@, 0);
            crate::json::lemma_jview_fields_index(doc->Obj_0@, 1);
            assert(jview_fields(doc->Obj_0@) =~= spec_response_v(self.id@, self.result@)->Obj_0);
        }
        encode_json(&doc)
    }
}

impl RpcError {
    /// The error's line, exactly the text of `spec_error_v`.
    pub fn encode(&self) -> (r: String)
        ensures
            r@ == spec_json_text(spec_error_v(self.id@, self.error@)),
    {
        let fields = vec![
            (String::from_str("id"), JsonValue::Str(self.id.clone())),
            (String::from_str("error"), JsonValue::Str(self.error.clone())),
        ];
        let doc = JsonValue::Obj(fields);
        proof {
            crate::json::lemma_jview_fields_index(doc->Obj_0@, 0);
            crate::json::lemma_jview_fields_index(doc->Obj_0@, 1);
            assert(jview_fields(doc->Obj_0@) =~= spec_error_v(self.id@, self.error@)->Obj_0);
        }
        encode_json(&doc)
    }
}

impl RpcRequest {
    /// The request's line, exactly the text of `spec_request_v`.
    pub fn encode(&self) -> (r: String)
        ensures
            r@ == spec_json_text(spec_request_v(self.id@, self.method@, self.params@)),
    {
        let fields = vec![
            (String::from_str("id"), JsonValue::Str(self.id.clone())),
            (String::from_str("method"), JsonValue::Str(self.method.clone())),
            (String::from_str("params"), clone_json(&self.params)),
        ];
        let doc = JsonValue::Obj(fields);
        proof {
            crate::json::lemma_jview_fields_index(doc->Obj_0@, 0);
            crate::json::lemma_jview_fields_index(doc->Obj_0@, 1);
            crate::json::lemma_jview_fields_index(doc->Obj_0@, 2);
            assert(jview_fields(doc->Obj_0@) =~= spec_request_v(
                self.id@,
                self.method@,
                self.params@,
            )->Obj_0);
        }
        encode_json(&doc)
    }
}

impl RpcEvent {
    /// Progress is a fraction of one: at most 100 hundredths.
    pub open spec fn wf(&self) -> bool {
        match self {
            RpcEvent::Progress { progress_hundredths, .. } => *progress_hundredths <= 100,
            RpcEvent::Log { .. } => true,
        }
    }

    /// The event's line, exactly `spec_event_line`.
    pub fn encode(&self) -> (r: String)
        requires
            self.wf(),
        ensures
            r@ == spec_event_line(*self),
    {
        match self {
            RpcEvent::Progress { id, status, progress_hundredths } => {
                let fields = vec![
                    (String::from_str("event"), JsonValue::Str(String::from_str("progress"))),
                    (String::from_str("id"), JsonValue::Str(id.clone())),
                    (String::from_str("status"), JsonValue::Str(status.clone())),
                    (String::from_str("progress"), JsonValue::Num(hundredths_num(
                        *progress_hundredths,
                    ))),
                ];
                let doc = JsonValue::Obj(fields);
                proof {
                    crate::json::lemma_jview_fields_index(doc->Obj_0@, 0);
                    crate::json::lemma_jview_fields_index(doc->Obj_0@, 1);
                    crate::json::lemma_jview_fields_index(doc->Obj_0@, 2);
                    crate::json::lemma_jview_fields_index(doc->Obj_0@, 3);
                    assert(jview_fields(doc->Obj_0@) =~= spec_progress_v(
                        id@,
                        status@,
                        *progress_hundredths,
                    )->Obj_0);
                }
                encode_json(&doc)
            },
            RpcEvent::Log { id, message } => {
                let fields = vec![
                    (String::from_str("event"), JsonValue::Str(String::from_str("log"))),
                    (String::from_str("id"), JsonValue::Str(id.clone())),
                    (String::from_str("message"), JsonValue::Str(message.clone())),
                ];
                let doc = JsonValue::Obj(fields);
                proof {
                    crate::json::lemma_jview_fields_index(doc->Obj_0@, 0);
                    crate::json::lemma_jview_fields_index(doc->Obj_0@, 1);
                    crate::json::lemma_jview_fields_index(doc->Obj_0@, 2);
                    assert(jview_fields(doc->Obj_0@) =~= spec_log_v(id@, message@)->Obj_0);
                }
                encode_json(&doc)
            },
        }
    }
}

/// What a parsed document must hold to be a request: an object with string
/// `id` and `method` fields; `params` defaults to `Null` when absent.
pub open spec fn spec_request_of(v: JsonV) -> Option<(Seq<char>, Seq<char>, JsonV)> {
    match v {
        JsonV::Obj(o) => match spec_obj_lookup(o, "id"@) {
            Some(JsonV::Str(id)) => match spec_obj_lookup(o, "method"@) {
                Some(JsonV::Str(m)) => {
                    let p = match spec_obj_lookup(o, "params"@) {
                        Some(pv) => pv,
                        None => JsonV::Null,
                    };
                    Some((id, m, p))
                },
                _ => None,
            },
            _ => None,
        },
        _ => None,
    }
}

/// Reads a request out of a parsed document, exactly `spec_request_of`.
pub fn request_from_json(v: &JsonValue) -> (r: Option<RpcRequest>)
    ensures
        match r {
            Some(req) => spec_request_of(v@) == Some((req.id@, req.method@, req.params@)),
            None => spec_request_of(v@) is None,
        },
{
    let o = match v.as_obj() {
        Some(o) => o,
        None => { return None; },
    };
    let id = match obj_get(o, "id") {
        Some(f) => match f.as_str() {
            Some(s) => s.clone(),
            None => { return None; },
        },
        None => { return None; },
    };
    let method = match obj_get(o, "method") {
        Some(f) => match f.as_str() {
            Some(s) => s.clone(),
            None => { return None; },
        },
        None => { return None; },
    };
    let params = match obj_get(o, "params") {
        Some(p) => clone_json(p),
        None => JsonValue::Null,
    };
    Some(RpcRequest { id, method, params })
}

/// What a line must hold to decode as a request: a parse of the grammar
/// yielding a request document.
pub open spec fn spec_decode_request(s: Seq<char>) -> Option<(Seq<char>, Seq<char>, JsonV)> {
    match crate::json::spec_parse(s) {
        Some(v) => spec_request_of(v),
        None => None,
    }
}

/// Decodes one input line, exactly `spec_decode_request`. Total: a malformed
/// line yields `None` — reported under a fresh id by the dispatcher — and
/// never a panic, so one bad line cannot stop the stream.
pub fn decode_request(line: &str) -> (r: Option<RpcRequest>)
    ensures
        match r {
            Some(req) => spec_decode_request(line@) == Some((req.id@, req.method@, req.params@)),
            None => spec_decode_request(line@) is None,
        },
{
    match parse_json(line) {
        Some(v) => request_from_json(&v),
        None => None,
    }
}

/// What a parsed document must hold to be a response: string `id`, any
/// `result`.
pub open spec fn spec_response_of(v: JsonV) -> Option<(Seq<char>, JsonV)> {
    match v {
        JsonV::Obj(o) => match (spec_obj_lookup(o, "id"@), spec_obj_lookup(o, "result"@)) {
            (Some(JsonV::Str(id)), Some(res)) => Some((id, res)),
            _ => None,
        },
        _ => None,
    }
}

/// Reads a response out of a parsed document, exactly `spec_response_of`.
pub fn response_from_json(v: &JsonValue) -> (r: Option<RpcResponse>)
    ensures
        match r {
            Some(resp) => spec_response_of(v@) == Some((resp.id@, resp.result@)),
            None => spec_response_of(v@) is None,
        },
{
    let o = match v.as_obj() {
        Some(o) => o,
        None => { return None; },
    };
    let id = match obj_get(o, "id") {
        Some(f) => match f.as_str() {
            Some(s) => s.clone(),
            None => { return None; },
        },
        None => { return None; },
    };
    let result = match obj_get(o, "result") {
        Some(p) => clone_json(p),
        None => { return None; },
    };
    Some(RpcResponse { id, result })
}

/// What a line must hold to decode as a response.
pub open spec fn spec_decode_response(s: Seq<char>) -> Option<(Seq<char>, JsonV)> {
    match crate::json::spec_parse(s) {
        Some(v) => spec_response_of(v),
        None => None,
    }
}

/// Decodes one response line, exactly `spec_decode_response`; total like
/// `decode_request`.
pub fn decode_response(line: &str) -> (r: Option<RpcResponse>)
    ensures
        match r {
            Some(resp) => spec_decode_response(line@) == Some((resp.id@, resp.result@)),
            None => spec_decode_response(line@) is None,
        },
{
    match parse_json(line) {
        Some(v) => response_from_json(&v),
        None => None,
    }
}

/// What a parsed document must hold to be an error envelope: string `id`,
/// string `error`.
pub open spec fn spec_rpc_error_of(v: JsonV) -> Option<(Seq<char>, Seq<char>)> {
    match v {
        JsonV::Obj(o) => match (spec_obj_lookup(o, "id"@), spec_obj_lookup(o, "error"@)) {
            (Some(JsonV::Str(id)), Some(JsonV::Str(msg))) => Some((id, msg)),
            _ => None,
        },
        _ => None,
    }
}

/// Reads an error envelope out of a parsed document, exactly
/// `spec_rpc_error_of`.
pub fn error_from_json(v: &JsonValue) -> (r: Option<RpcError>)
    ensures
        match r {
            Some(e) => spec_rpc_error_of(v@) == Some((e.id@, e.error@)),
            None => spec_rpc_error_of(v@) is None,
        },
{
    let o = match v.as_obj() {
        Some(o) => o,
        None => { return None; },
    };
    let id = match obj_get(o, "id") {
        Some(f) => match f.as_str() {
            Some(s) => s.clone(),
            None => { return None; },
        },
        None => { return None; },
    };
    let error = match obj_get(o, "error") {
        Some(f) => match f.as_str() {
            Some(s) => s.clone(),
            None => { return None; },
        },
        None => { return None; },
    };
    Some(RpcError { id, error })
}

/// What a line must hold to decode as an error envelope.
pub open spec fn spec_decode_error(s: Seq<char>) -> Option<(Seq<char>, Seq<char>)> {
    match crate::json::spec_parse(s) {
        Some(v) => spec_rpc_error_of(v),
        None => None,
    }
}

/// Decodes one error line, exactly `spec_decode_error`; total like
/// `decode_request`.
pub fn decode_error(line: &str) -> (r: Option<RpcError>)
    ensures
        match r {
            Some(e) => spec_decode_error(line@) == Some((e.id@, e.error@)),
            None => spec_decode_error(line@) is None,
        },
{
    match parse_json(line) {
        Some(v) => error_from_json(&v),
        None => None,
    }
}

/// What a parsed document must hold to be an event. The first component
/// says whether it is a progress event; the third is the status or the
/// message; the fourth is the progress in hundredths (0 for a log event).
pub open spec fn spec_event_of(v: JsonV) -> Option<(bool, Seq<char>, Seq<char>, u32)> {
    match v {
        JsonV::Obj(o) => match spec_obj_lookup(o, "event"@) {
            Some(JsonV::Str(kind)) => if kind == "progress"@ {
                match (spec_obj_lookup(o, "id"@), spec_obj_lookup(o, "status"@), spec_obj_lookup(
                    o,
                    "progress"@,
                )) {
                    (Some(JsonV::Str(id)), Some(JsonV::Str(st)), Some(JsonV::Num(n))) => match
                        spec_num_hundredths(n) {
                        Some(h) => Some((true, id, st, h)),
                        None => None,
                    },
                    _ => None,
                }
            } else if kind == "log"@ {
                match (spec_obj_lookup(o, "id"@), spec_obj_lookup(o, "message"@)) {
                    (Some(JsonV::Str(id)), Some(JsonV::Str(msg))) => Some((false, id, msg, 0)),
                    _ => None,
                }
            } else {
                None
            },
            _ => None,
        },
        _ => None,
    }
}

/// Reads an event out of a parsed document, exactly `spec_event_of`.
pub fn event_from_json(v: &JsonValue) -> (r: Option<RpcEvent>)
    ensures
        match r {
            Some(ev) => match ev {
                RpcEvent::Progress { id, status, progress_hundredths } => spec_event_of(v@)
                    == Some((true, id@, status@, progress_hundredths)),
                RpcEvent::Log { id, message } => spec_event_of(v@) == Some(
                    (false, id@, message@, 0u32),
                ),
            },
            None => spec_event_of(v@) is None,
        },
{
    let o = match v.as_obj() {
        Some(o) => o,
        None => { return None; },
    };
    let kind = match obj_get(o, "event") {
        Some(f) => match f.as_str() {
            Some(s) => s,
            None => { return None; },
        },
        None => { return None; },
    };
    if crate::str_eq(kind.as_str(), "progress") {
        let id = match obj_get(o, "id") {
            Some(f) => match f.as_str() {
                Some(s) => s.clone(),
                None => { return None; },
            },
            None => { return None; },
        };
        let status = match obj_get(o, "status") {
            Some(f) => match f.as_str() {
                Some(s) => s.clone(),
                None => { return None; },
            },
            None => { return None; },
        };
        let n = match obj_get(o, "progress") {
            Some(f) => match f {
                JsonValue::Num(n) => *n,
                _ => { return None; },
            },
            None => { return None; },
        };
        let h = match num_hundredths(&n) {
            Some(h) => h,
            None => { return None; },
        };
        Some(RpcEvent::Progress { id, status, progress_hundredths: h })
    } else if crate::str_eq(kind.as_str(), "log") {
        let id = match obj_get(o, "id") {
            Some(f) => match f.as_str() {
                Some(s) => s.clone(),
                None => { return None; },
            },
            None => { return None; },
        };
        let message = match obj_get(o, "message") {
            Some(f) => match f.as_str() {
                Some(s) => s.clone(),
                None => { return None; },
            },
            None => { return None; },
        };
        Some(RpcEvent::Log { id, message })
    } else {
        None
    }
}

/// What a line must hold to decode as an event.
pub open spec fn spec_decode_event(s: Seq<char>) -> Option<(bool, Seq<char>, Seq<char>, u32)> {
    match crate::json::spec_parse(s) {
        Some(v) => spec_event_of(v),
        None => None,
    }
}

/// Decodes one event line, exactly `spec_decode_event`; total like
/// `decode_request`.
pub fn decode_event(line: &str) -> (r: Option<RpcEvent>)
    ensures
        match r {
            Some(ev) => match ev {
                RpcEvent::Progress { id, status, progress_hundredths } => spec_decode_event(line@)
                    == Some((true, id@, status@, progress_hundredths)),
                RpcEvent::Log { id, message } => spec_decode_event(line@) == Some(
                    (false, id@, message@, 0u32),
                ),
            },
            None => spec_decode_event(line@) is None,
        },
{
    match parse_json(line) {
        Some(v) => event_from_json(&v),
        None => None,
    }
}

/// A progress fraction of at most one survives its number encoding: writing
/// `h` hundredths and reading the number back yields `h` again.
pub proof fn lemma_hundredths_round_trip(h: u32)
    requires
        h <= 100,
    ensures
        spec_num_hundredths(spec_hundredths_num(h)) == Some(h),
{
    if h % 100 == 0 {
        assert(h == (h / 100) * 100 + h % 100);
    } else if h % 10 == 0 {
        assert(h == (h / 10) * 10 + h % 10);
    }
}

/// A request document written by the codec reads back as the same request:
/// building `{"id":…,"method":…,"params":…}` and extracting a request from
/// it are inverse.
pub proof fn lemma_request_doc_reads_back(id: Seq<char>, method: Seq<char>, params: JsonV)
    ensures
        spec_request_of(spec_request_v(id, method, params)) == Some((id, method, params)),
{
    reveal_strlit("id");
    reveal_strlit("method");
    reveal_strlit("params");
    let o = spec_request_v(id, method, params)->Obj_0;
    let o1 = o.drop_first();
    let o2 = o1.drop_first();
    assert(o1 =~= seq![("method"@, JsonV::Str(method)), ("params"@, params)]);
    assert(o2 =~= seq![("params"@, params)]);
    assert("method"@[0] != "id"@[0]);
    assert("params"@[0] != "id"@[0]);
    assert("params"@[0] != "method"@[0]);
    assert(spec_obj_lookup(o, "id"@) == Some(JsonV::Str(id)));
    assert(spec_obj_lookup(o1, "method"@) == Some(JsonV::Str(method)));
    assert(spec_obj_lookup(o, "method"@) == Some(JsonV::Str(method)));
    assert(spec_obj_lookup(o2, "params"@) == Some(params));
    assert(spec_obj_lookup(o1, "params"@) == Some(params));
    assert(spec_obj_lookup(o, "params"@) == Some(params));
}

/// A response document written by the codec reads back as the same response.
pub proof fn lemma_response_doc_reads_back(id: Seq<char>, result: JsonV)
    ensures
        spec_response_of(spec_response_v(id, result)) == Some((id, result)),
{
    reveal_strlit("id");
    reveal_strlit("result");
    let o = spec_response_v(id, result)->Obj_0;
    let o1 = o.drop_first();
    assert(o1 =~= seq![("result"@, result)]);
    assert("result"@[0] != "id"@[0]);
    assert(spec_obj_lookup(o, "id"@) == Some(JsonV::Str(id)));
    assert(spec_obj_lookup(o1, "result"@) == Some(result));
    assert(spec_obj_lookup(o, "result"@) == Some(result));
}

/// An error document written by the codec reads back as the same error.
pub proof fn lemma_error_doc_reads_back(id: Seq<char>, error: Seq<char>)
    ensures
        spec_rpc_error_of(spec_error_v(id, error)) == Some((id, error)),
{
    reveal_strlit("id");
    reveal_strlit("error");
    let o = spec_error_v(id, error)->Obj_0;
    let o1 = o.drop_first();
    assert(o1 =~= seq![("error"@, JsonV::Str(error))]);
    assert("error"@[0] != "id"@[0]);
    assert(spec_obj_lookup(o, "id"@) == Some(JsonV::Str(id)));
    assert(spec_obj_lookup(o1, "error"@) == Some(JsonV::Str(error)));
    assert(spec_obj_lookup(o, "error"@) == Some(JsonV::Str(error)));
}

/// A progress event document written by the codec reads back as the same
/// event, the fraction included.
pub proof fn lemma_progress_doc_reads_back(id: Seq<char>, status: Seq<char>, h: u32)
    requires
        h <= 100,
    ensures
        spec_event_of(spec_progress_v(id, status, h)) == Some((true, id, status, h)),
{
    reveal_strlit("event");
    reveal_strlit("progress");
    reveal_strlit("id");
    reveal_strlit("status");
    let o = spec_progress_v(id, status, h)->Obj_0;
    let o1 = o.drop_first();
    let o2 = o1.drop_first();
    let o3 = o2.drop_first();
    assert(o1 =~= seq![
        ("id"@, JsonV::Str(id)),
        ("status"@, JsonV::Str(status)),
        ("progress"@, JsonV::Num(spec_hundredths_num(h))),
    ]);
    assert(o2 =~= seq![
        ("status"@, JsonV::Str(status)),
        ("progress"@, JsonV::Num(spec_hundredths_num(h))),
    ]);
    assert(o3 =~= seq![("progress"@, JsonV::Num(spec_hundredths_num(h)))]);
    assert("id"@.len() != "event"@.len());
    assert("status"@[0] != "event"@[0]);
    assert("status"@[0] != "id"@[0]);
    assert("progress"@[0] != "event"@[0]);
    assert("progress"@.len() != "id"@.len());
    assert("progress"@[0] != "status"@[0]);
    assert(spec_obj_lookup(o, "event"@) == Some(JsonV::Str("progress"@)));
    assert(spec_obj_lookup(o1, "id"@) == Some(JsonV::Str(id)));
    assert(spec_obj_lookup(o, "id"@) == Some(JsonV::Str(id)));
    assert(spec_obj_lookup(o2, "status"@) == Some(JsonV::Str(status)));
    assert(spec_obj_lookup(o1, "status"@) == Some(JsonV::Str(status)));
    assert(spec_obj_lookup(o, "status"@) == Some(JsonV::Str(status)));
    assert(spec_obj_lookup(o3, "progress"@) == Some(JsonV::Num(spec_hundredths_num(h))));
    assert(spec_obj_lookup(o2, "progress"@) == Some(JsonV::Num(spec_hundredths_num(h))));
    assert(spec_obj_lookup(o1, "progress"@) == Some(JsonV::Num(spec_hundredths_num(h))));
    assert(spec_obj_lookup(o, "progress"@) == Some(JsonV::Num(spec_hundredths_num(h))));
    lemma_hundredths_round_trip(h);
}

/// A log event document written by the codec reads back as the same event.
pub proof fn lemma_log_doc_reads_back(id: Seq<char>, message: Seq<char>)
    ensures
        spec_event_of(spec_log_v(id, message)) == Some((false, id, message, 0u32)),
{
    reveal_strlit("event");
    reveal_strlit("log");
    reveal_strlit("progress");
    reveal_strlit("id");
    reveal_strlit("message");
    let o = spec_log_v(id, message)->Obj_0;
    let o1 = o.drop_first();
    let o2 = o1.drop_first();
    assert(o1 =~= seq![("id"@, JsonV::Str(id)), ("message"@, JsonV::Str(message))]);
    assert(o2 =~= seq![("message"@, JsonV::Str(message))]);
    assert("id"@.len() != "event"@.len());
    assert("message"@[0] != "event"@[0]);
    assert("message"@[0] != "id"@[0]);
    assert("log"@.len() != "progress"@.len());
    assert(spec_obj_lookup(o, "event"@) == Some(JsonV::Str("log"@)));
    assert(spec_obj_lookup(o1, "id"@) == Some(JsonV::Str(id)));
    assert(spec_obj_lookup(o, "id"@) == Some(JsonV::Str(id)));
    assert(spec_obj_lookup(o2, "message"@) == Some(JsonV::Str(message)));
    assert(spec_obj_lookup(o1, "message"@) == Some(JsonV::Str(message)));
    assert(spec_obj_lookup(o, "message"@) == Some(JsonV::Str(message)));
}

/// A fresh id for answering a line whose own id could not be read.
///
/// Relies on uuid::Uuid::new_v4 and its hyphenated `to_string` form: the
/// uuid source writes a fixed 36-byte buffer with hyphens at offsets 8, 13,
/// 18 and 23 and lower-case hex digits everywhere else. The value itself is
/// random; nothing else is assumed of it.
#[verifier::external_body]
pub fn new_id() -> (r: String)
    ensures
        r@.len() == 36,
        r@[8] == '-' && r@[13] == '-' && r@[18] == '-' && r@[23] == '-',
        forall|i: int|
            0 <= i < 36 && i != 8 && i != 13 && i != 18 && i != 23 ==> (48 <= #[trigger] r@[i]
                as u32 <= 57 || 97 <= r@[i] as u32 <= 102),
{
    uuid::Uuid::new_v4().to_string()
}

} // verus!
