//! The dispatch core: what the worker decides about each input line. The
//! surrounding process only reads lines, spawns tasks, runs the external
//! work and writes what these functions hand it — every decision (method
//! table, parameter validation, cancellation answers, the one terminal
//! message per request) is made and specified here.
//!
//! The flow of one line: `route` turns the decoded line into a rejection, an
//! immediate reply, a cancellation request or an accepted task; `claim_id`
//! claims the id in the registry before the task starts; the task's events
//! and its end run through `task_transcript` and `finish`, which fix that
//! exactly one terminal message leaves for that id, after its events, all
//! under its id.
use vstd::prelude::*;

use crate::json::{spec_as_str, spec_json_text, JsonV, JsonValue};
use crate::registry::CancellationRegistry;
use crate::rpc::{
    spec_error_v, spec_log_v, spec_progress_v, spec_response_v, RpcError, RpcRequest, RpcResponse,
};
use crate::types::{
    BurnCaptionsParams, DownloadModelParams, ExtractFirstFrameParams, GenerateCaptionsParams,
    PreviewLayoutParams,
};

verus! {

/// The closed method set of the protocol.
#[derive(Clone, Copy, PartialEq, Eq, Structural, Debug)]
pub enum Method {
    Ping,
    Cancel,
    GenerateCaptions,
    DownloadModel,
    CheckModelExists,
    ExtractFirstFrame,
    Transcribe,
    Burn,
    PreviewLayout,
}

/// The method table; any other name is unknown.
pub open spec fn spec_parse_method(m: Seq<char>) -> Option<Method> {
    if m == "ping"@ { Some(Method::Ping) }
    else if m == "cancel"@ { Some(Method::Cancel) }
    else if m == "generateCaptions"@ { Some(Method::GenerateCaptions) }
    else if m == "downloadModel"@ { Some(Method::DownloadModel) }
    else if m == "checkModelExists"@ { Some(Method::CheckModelExists) }
    else if m == "extractFirstFrame"@ { Some(Method::ExtractFirstFrame) }
    else if m == "transcribe"@ { Some(Method::Transcribe) }
    else if m == "burn"@ { Some(Method::Burn) }
    else if m == "previewLayout"@ { Some(Method::PreviewLayout) }
    else { None }
}

/// Exactly `spec_parse_method`.
pub fn parse_method(m: &str) -> (r: Option<Method>)
    ensures
        r == spec_parse_method(m@),
{
    if crate::str_eq(m, "ping") { Some(Method::Ping) }
    else if crate::str_eq(m, "cancel") { Some(Method::Cancel) }
    else if crate::str_eq(m, "generateCaptions") { Some(Method::GenerateCaptions) }
    else if crate::str_eq(m, "downloadModel") { Some(Method::DownloadModel) }
    else if crate::str_eq(m, "checkModelExists") { Some(Method::CheckModelExists) }
    else if crate::str_eq(m, "extractFirstFrame") { Some(Method::ExtractFirstFrame) }
    else if crate::str_eq(m, "transcribe") { Some(Method::Transcribe) }
    else if crate::str_eq(m, "burn") { Some(Method::Burn) }
    else if crate::str_eq(m, "previewLayout") { Some(Method::PreviewLayout) }
    else { None }
}

/// A request's parameters after validation against its method's schema.
#[derive(Debug)]
pub enum ValidatedParams {
    Ping,
    Cancel(String),
    GenerateCaptions(GenerateCaptionsParams),
    DownloadModel(DownloadModelParams),
    CheckModelExists(String),
    ExtractFirstFrame(ExtractFirstFrameParams),
    Transcribe(GenerateCaptionsParams),
    Burn(BurnCaptionsParams),
    PreviewLayout(PreviewLayoutParams),
}

/// When a method accepts a parameter document.
pub open spec fn spec_params_valid(m: Method, v: JsonV) -> bool {
    match m {
        Method::Ping => true,
        Method::Cancel => spec_as_str(v) is Some,
        Method::GenerateCaptions => GenerateCaptionsParams::spec_valid(v),
        Method::DownloadModel => DownloadModelParams::spec_valid(v),
        Method::CheckModelExists => spec_as_str(v) is Some,
        Method::ExtractFirstFrame => ExtractFirstFrameParams::spec_valid(v),
        Method::Transcribe => GenerateCaptionsParams::spec_valid(v),
        Method::Burn => BurnCaptionsParams::spec_valid(v),
        Method::PreviewLayout => PreviewLayoutParams::spec_valid(v),
    }
}

/// The validated record belongs to the method and was read from the
/// document, field for field.
pub open spec fn spec_validated(m: Method, v: JsonV, w: ValidatedParams) -> bool {
    match m {
        Method::Ping => w is Ping,
        Method::Cancel => w matches ValidatedParams::Cancel(t) && Some(t@) == spec_as_str(v),
        Method::GenerateCaptions => w matches ValidatedParams::GenerateCaptions(p)
            && p.spec_matches(v),
        Method::DownloadModel => w matches ValidatedParams::DownloadModel(p) && p.spec_matches(v),
        Method::CheckModelExists => w matches ValidatedParams::CheckModelExists(t) && Some(t@)
            == spec_as_str(v),
        Method::ExtractFirstFrame => w matches ValidatedParams::ExtractFirstFrame(p)
            && p.spec_matches(v),
        Method::Transcribe => w matches ValidatedParams::Transcribe(p) && p.spec_matches(v),
        Method::Burn => w matches ValidatedParams::Burn(p) && p.spec_matches(v),
        Method::PreviewLayout => w matches ValidatedParams::PreviewLayout(p) && p.spec_matches(v),
    }
}

/// Validates a request's parameters against its method's schema — exactly
/// `spec_params_valid`, the record exactly `spec_validated`. A request
/// refused here is answered with an error under its own id and never becomes
/// a task.
pub fn validate_params(m: Method, params: &JsonValue) -> (r: Option<ValidatedParams>)
    ensures
        (r is Some) == spec_params_valid(m, params@),
        r matches Some(w) ==> spec_validated(m, params@, w),
{
    match m {
        Method::Ping => Some(ValidatedParams::Ping),
        Method::Cancel => match params.as_str() {
            Some(t) => Some(ValidatedParams::Cancel(t.clone())),
            None => None,
        },
        Method::GenerateCaptions => match GenerateCaptionsParams::from_json(params) {
            Some(p) => Some(ValidatedParams::GenerateCaptions(p)),
            None => None,
        },
        Method::DownloadModel => match DownloadModelParams::from_json(params) {
            Some(p) => Some(ValidatedParams::DownloadModel(p)),
            None => None,
        },
        Method::CheckModelExists => match params.as_str() {
            Some(t) => Some(ValidatedParams::CheckModelExists(t.clone())),
            None => None,
        },
        Method::ExtractFirstFrame => match ExtractFirstFrameParams::from_json(params) {
            Some(p) => Some(ValidatedParams::ExtractFirstFrame(p)),
            None => None,
        },
        Method::Transcribe => match GenerateCaptionsParams::from_json(params) {
            Some(p) => Some(ValidatedParams::Transcribe(p)),
            None => None,
        },
        Method::Burn => match BurnCaptionsParams::from_json(params) {
            Some(p) => Some(ValidatedParams::Burn(p)),
            None => None,
        },
        Method::PreviewLayout => match PreviewLayoutParams::from_json(params) {
            Some(p) => Some(ValidatedParams::PreviewLayout(p)),
            None => None,
        },
    }
}

/// The one closing message of a request: its response or its error.
#[derive(Debug)]
pub enum Terminal {
    Done(RpcResponse),
    Failed(RpcError),
}

impl Terminal {
    /// The id the terminal answers.
    pub open spec fn spec_id(&self) -> Seq<char> {
        match self {
            Terminal::Done(r) => r.id@,
            Terminal::Failed(e) => e.id@,
        }
    }

    /// The line this terminal writes.
    pub open spec fn spec_line(&self) -> Seq<char> {
        match self {
            Terminal::Done(r) => spec_json_text(spec_response_v(r.id@, r.result@)),
            Terminal::Failed(e) => spec_json_text(spec_error_v(e.id@, e.error@)),
        }
    }

    /// Exactly `spec_line`.
    pub fn encode(&self) -> (r: String)
        ensures
            r@ == self.spec_line(),
    {
        match self {
            Terminal::Done(resp) => resp.encode(),
            Terminal::Failed(err) => err.encode(),
        }
    }
}

/// What the dispatcher does with one input line.
#[derive(Debug)]
pub enum RouteOutcome {
    /// A terminal error before any task exists: malformed line (under the
    /// fresh id), unknown method, or parameters failing their schema.
    Reject(RpcError),
    /// A terminal response with no task: `ping`.
    Reply(RpcResponse),
    /// A `cancel` request, to be answered after the registry lookup.
    CancelRequest { id: String, target: String },
    /// A request that becomes one concurrent task.
    Accept { id: String, work: ValidatedParams },
}

/// The document `ping` answers with: `{"ok":true}`.
pub open spec fn spec_pong_v() -> JsonV {
    JsonV::Obj(seq![("ok"@, JsonV::Bool(true))])
}

fn pong() -> (r: JsonValue)
    ensures
        r@ == spec_pong_v(),
{
    let fields = vec![(String::from_str("ok"), JsonValue::Bool(true))];
    let r = JsonValue::Obj(fields);
    proof {
        crate::json::lemma_jview_fields_index(r->Obj_0@, 0);
        assert(crate::json::jview_fields(r->Obj_0@) =~= spec_pong_v()->Obj_0);
    }
    r
}

/// Routes one decoded line.
///
/// A line that did not decode is answered with exactly one error under the
/// freshly generated id — its own id is unknowable — and nothing else
/// changes, so the lines after it are read as if it had never come. A known
/// method with valid parameters becomes a reply (`ping`), a cancellation
/// request, or one accepted task; everything else is rejected under the
/// request's own id.
pub fn route(decoded: Option<RpcRequest>, fresh_id: String) -> (r: RouteOutcome)
    ensures
        decoded is None ==> (r matches RouteOutcome::Reject(e) && e.id@ == fresh_id@ && e.error@
            == "Bad request: malformed line"@),
        decoded matches Some(req) ==> match spec_parse_method(req.method@) {
            None => r matches RouteOutcome::Reject(e) && e.id@ == req.id@ && e.error@
                == "Unknown method: "@ + req.method@,
            Some(m) => {
                if m is Ping {
                    r matches RouteOutcome::Reply(resp) && resp.id@ == req.id@ && resp.result@
                        == spec_pong_v()
                } else if m is Cancel {
                    match spec_as_str(req.params@) {
                        Some(t) => r matches RouteOutcome::CancelRequest { id, target } && id@
                            == req.id@ && target@ == t,
                        None => r matches RouteOutcome::Reject(e) && e.id@ == req.id@ && e.error@
                            == "Invalid params for cancel, expected string id"@,
                    }
                } else {
                    if spec_params_valid(m, req.params@) {
                        r matches RouteOutcome::Accept { id, work } && id@ == req.id@
                            && spec_validated(m, req.params@, work)
                    } else {
                        r matches RouteOutcome::Reject(e) && e.id@ == req.id@ && e.error@
                            == "Invalid params for "@ + req.method@
                    }
                }
            },
        },
{
    let req = match decoded {
        Some(req) => req,
        None => {
            return RouteOutcome::Reject(
                RpcError { id: fresh_id, error: String::from_str("Bad request: malformed line") },
            );
        },
    };
    let m = match parse_method(req.method.as_str()) {
        Some(m) => m,
        None => {
            let msg = String::from_str("Unknown method: ").concat(req.method.as_str());
            return RouteOutcome::Reject(RpcError { id: req.id, error: msg });
        },
    };
    match m {
        Method::Ping => RouteOutcome::Reply(RpcResponse { id: req.id, result: pong() }),
        Method::Cancel => match req.params.as_str() {
            Some(t) => RouteOutcome::CancelRequest { id: req.id, target: t.clone() },
            None => RouteOutcome::Reject(
                RpcError {
                    id: req.id,
                    error: String::from_str("Invalid params for cancel, expected string id"),
                },
            ),
        },
        _ => match validate_params(m, &req.params) {
            Some(work) => RouteOutcome::Accept { id: req.id, work },
            None => {
                let msg = String::from_str("Invalid params for ").concat(req.method.as_str());
                RouteOutcome::Reject(RpcError { id: req.id, error: msg })
            },
        },
    }
}

/// Answers a `cancel` request once the registry has been consulted: found
/// and signalled gives `{"cancelled":true}`; an id with no registered task
/// gives exactly the not-found error — an answer, never a crash, and in
/// either case under the cancelling request's own id.
pub fn cancel_terminal(id: String, target: &str, found: bool) -> (t: Terminal)
    ensures
        t.spec_id() == id@,
        found ==> (t matches Terminal::Done(resp) && resp.result@ == JsonV::Obj(
            seq![("cancelled"@, JsonV::Bool(true))],
        )),
        !found ==> (t matches Terminal::Failed(e) && e.error@ == "Task with id "@ + target@
            + " not found"@),
{
    if found {
        let fields = vec![(String::from_str("cancelled"), JsonValue::Bool(true))];
        let result = JsonValue::Obj(fields);
        proof {
            crate::json::lemma_jview_fields_index(result->Obj_0@, 0);
            assert(crate::json::jview_fields(result->Obj_0@) =~= JsonV::Obj(
                seq![("cancelled"@, JsonV::Bool(true))],
            )->Obj_0);
        }
        Terminal::Done(RpcResponse { id, result })
    } else {
        let msg = String::from_str("Task with id ").concat(target).concat(" not found");
        Terminal::Failed(RpcError { id, error: msg })
    }
}

/// How a task's underlying work ended: with a result or error of its own, or
/// losing the race against a cancellation notice for its id.
#[derive(Debug)]
pub enum TaskOutcome {
    Completed(Result<JsonValue, String>),
    Cancelled,
}

/// The line that closes a task with outcome `o` under id `id`.
pub open spec fn spec_outcome_line(id: Seq<char>, o: TaskOutcome) -> Seq<char> {
    match o {
        TaskOutcome::Completed(Ok(v)) => spec_json_text(spec_response_v(id, v@)),
        TaskOutcome::Completed(Err(e)) => spec_json_text(spec_error_v(id, e@)),
        TaskOutcome::Cancelled => spec_json_text(spec_error_v(id, "Cancelled"@)),
    }
}

/// Closes a task: for every outcome exactly one terminal, and always under
/// the task's own id — the work's response, the work's error, or the
/// `Cancelled` error when the cancellation notice won the race. Never both,
/// never neither, never another id.
pub fn finish(id: String, outcome: TaskOutcome) -> (t: Terminal)
    ensures
        t.spec_id() == id@,
        t.spec_line() == spec_outcome_line(id@, outcome),
        outcome matches TaskOutcome::Completed(Ok(v)) ==> (t matches Terminal::Done(resp)
            && resp.result@ == v@),
        outcome matches TaskOutcome::Completed(Err(e)) ==> (t matches Terminal::Failed(err)
            && err.error@ == e@),
        outcome is Cancelled ==> (t matches Terminal::Failed(err) && err.error@ == "Cancelled"@),
{
    match outcome {
        TaskOutcome::Completed(Ok(v)) => Terminal::Done(RpcResponse { id, result: v }),
        TaskOutcome::Completed(Err(e)) => Terminal::Failed(RpcError { id, error: e }),
        TaskOutcome::Cancelled => Terminal::Failed(
            RpcError { id, error: String::from_str("Cancelled") },
        ),
    }
}

/// A non-terminal notification as a task produces it, before the task's id
/// is stamped on.
#[derive(Debug)]
pub enum EventBody {
    Progress { status: String, progress_hundredths: u32 },
    Log { message: String },
}

impl EventBody {
    /// Progress is a fraction of one: at most 100 hundredths.
    pub open spec fn wf(&self) -> bool {
        match self {
            EventBody::Progress { progress_hundredths, .. } => *progress_hundredths <= 100,
            EventBody::Log { .. } => true,
        }
    }
}

/// The line an event writes once stamped with its task's id.
pub open spec fn spec_stamped_line(id: Seq<char>, b: EventBody) -> Seq<char> {
    match b {
        EventBody::Progress { status, progress_hundredths } => spec_json_text(
            spec_progress_v(id, status@, progress_hundredths),
        ),
        EventBody::Log { message } => spec_json_text(spec_log_v(id, message@)),
    }
}

/// The whole output of one task, in emission order: each event stamped with
/// the task's id, then exactly one terminal line for the task's outcome —
/// the serialization discipline for a single id: events first, one terminal,
/// every line under the owning id.
pub fn task_transcript(id: &str, events: Vec<EventBody>, outcome: TaskOutcome) -> (lines: Vec<
    String,
>)
    requires
        forall|i: int| 0 <= i < events@.len() ==> (#[trigger] events@[i]).wf(),
    ensures
        lines@.len() == events@.len() + 1,
        forall|i: int|
            0 <= i < events@.len() ==> lines@[i]@ == spec_stamped_line(id@, events@[i]),
        lines@.last()@ == spec_outcome_line(id@, outcome),
{
    let mut lines: Vec<String> = Vec::new();
    let mut j: usize = 0;
    let n = events.len();
    while j < n
        invariant
            j <= events@.len(),
            n == events@.len(),
            lines@.len() == j,
            forall|i: int| 0 <= i < events@.len() ==> (#[trigger] events@[i]).wf(),
            forall|i: int|
                0 <= i < j ==> lines@[i]@ == spec_stamped_line(id@, events@[i]),
        decreases events@.len() - j,
    {
        let line = match &events[j] {
            EventBody::Progress { status, progress_hundredths } => {
                let ev = crate::rpc::RpcEvent::Progress {
                    id: String::from_str(id),
                    status: status.clone(),
                    progress_hundredths: *progress_hundredths,
                };
                ev.encode()
            },
            EventBody::Log { message } => {
                let ev = crate::rpc::RpcEvent::Log {
                    id: String::from_str(id),
                    message: message.clone(),
                };
                ev.encode()
            },
        };
        lines.push(line);
        j += 1;
    }
    let terminal = finish(String::from_str(id), outcome);
    lines.push(terminal.encode());
    lines
}

/// Claims `id` in the registry before its task starts. A duplicate id — one
/// whose earlier request is still in flight — is refused and answered with
/// an error under that id, and the registry keeps the earlier entry: the
/// fixed arbitration policy for a reused in-flight id.
pub fn claim_id<T>(reg: &mut CancellationRegistry<T>, id: String, handle: T) -> (r: Option<RpcError>)
    requires
        old(reg).wf(),
    ensures
        final(reg).wf(),
        r is None ==> !old(reg).spec_contains(id@) && final(reg).view_entries() == old(
            reg,
        ).view_entries().push((id@, handle)),
        r matches Some(e) ==> (old(reg).spec_contains(id@) && e.id@ == id@ && e.error@
            == "Duplicate request id"@ && final(reg).view_entries() == old(reg).view_entries()),
{
    let id2 = id.clone();
    if reg.register(id, handle) {
        None
    } else {
        Some(RpcError { id: id2, error: String::from_str("Duplicate request id") })
    }
}

} // verus!
