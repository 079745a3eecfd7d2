//! Running the HIS token script in QuickJS: asking it for the next request
//! and for the headers it extracts from the responses.

use vstd::prelude::*;
use rquickjs::{Context, Function, Object, Persistent, Runtime, Value};
use std::time::{Duration, Instant};
use crate::text::{str_trim, str_eq, trim_chars, join2, owned};
use crate::header_list::{HeaderStrings, HeaderText};
use crate::his_token::{
    ScriptHttpResponse, build_script_with_input, serialize_script_response, responses_json,
    input_headers_json, script_with_input, string_object_text, response_text, response_texts,
    json_array_text, HIS_TOKEN_MAX_CHAINED_REQUESTS,
};

verus! {

#[verifier::external_type_specification]
#[verifier::external_body]
pub struct ExRuntime(Runtime);

#[verifier::external_type_specification]
#[verifier::external_body]
pub struct ExContext(Context);

#[verifier::external_type_specification]
#[verifier::external_body]
#[verifier::reject_recursive_types(T)]
pub struct ExPersistent<T>(Persistent<T>);

#[verifier::external_type_specification]
#[verifier::external_body]
pub struct ExObject<'js>(Object<'js>);

#[verifier::external_type_specification]
#[verifier::external_body]
pub struct ExFunction<'js>(Function<'js>);

#[verifier::external_type_specification]
#[verifier::external_body]
pub struct ExValue<'js>(Value<'js>);

#[verifier::external_type_specification]
#[verifier::external_body]
pub struct ExJsString<'js>(rquickjs::String<'js>);

#[verifier::external_type_specification]
#[verifier::external_body]
pub struct ExInstant(Instant);

/// How a JavaScript value of a script run came about.
pub enum JsTerm {
    /// What the script text evaluates to.
    Script(Seq<char>),
    /// The property of a value with the given name.
    Member(Box<JsTerm>, Seq<char>),
    /// What a JSON text parses to.
    Json(Seq<char>),
    /// A function called with three arguments, in order.
    Call(Box<JsTerm>, Box<JsTerm>, Box<JsTerm>, Box<JsTerm>),
    /// The JSON text of a value, as a JavaScript string.
    Stringified(Box<JsTerm>),
}

/// A JavaScript value of a script run, with how it came about.
#[verifier::reject_recursive_types(T)]
pub struct JsRef<T> {
    raw: Persistent<T>,
    origin: Ghost<JsTerm>,
}

impl<T> JsRef<T> {
    /// How the value came about.
    pub closed spec fn origin(&self) -> JsTerm {
        self.origin@
    }
}

/// `error` is an error that the engine may give when it works out the
/// value `term`. Nothing more is said of it: what a script does may depend
/// on chance and on the clock.
pub uninterp spec fn js_error(term: JsTerm, error: Seq<char>) -> bool;

/// The engine may find that the value `term` has no JSON form.
pub uninterp spec fn js_no_json(term: JsTerm) -> bool;

/// `text` is a text that the engine may give for the JavaScript string
/// `term`.
pub uninterp spec fn js_text_of(term: JsTerm, text: Seq<char>) -> bool;

/// `Runtime::new`; its error as text.
#[verifier::external_body]
fn js_runtime() -> Result<Runtime, String> {
    Runtime::new().map_err(|e| e.to_string())
}

/// `Runtime::set_memory_limit`: an allocation of the runtime past `bytes`
/// becomes an out-of-memory exception.
#[verifier::external_body]
fn js_set_memory_limit(runtime: &Runtime, bytes: usize) {
    runtime.set_memory_limit(bytes)
}

/// `Runtime::set_interrupt_handler`: while the engine runs script code it
/// calls [`run_is_overdue`] for `start` and `limit_secs` regularly, and
/// raises an uncatchable exception once that gives `true`.
#[verifier::external_body]
fn js_set_time_limit(runtime: &Runtime, start: Instant, limit_secs: u64) {
    runtime.set_interrupt_handler(Some(Box::new(move || run_is_overdue(&start, limit_secs))))
}

/// `Instant::now`.
#[verifier::external_body]
fn clock_now() -> Instant {
    Instant::now()
}

/// `Instant::elapsed`: the time since `start` by the clock.
#[verifier::external_body]
fn clock_elapsed(start: &Instant) -> Duration {
    start.elapsed()
}

/// `Duration::as_secs`: the whole seconds of `d`.
#[verifier::external_body]
fn whole_secs(d: &Duration) -> u64 {
    d.as_secs()
}

/// A run that has taken `elapsed_secs` whole seconds has reached a limit
/// of `limit_secs` seconds.
pub fn limit_reached(elapsed_secs: u64, limit_secs: u64) -> (r: bool)
    ensures
        r == (elapsed_secs >= limit_secs),
{
    elapsed_secs >= limit_secs
}

/// Whether a run that started at `start` has reached its limit of
/// `limit_secs` seconds, by the clock.
pub fn run_is_overdue(start: &Instant, limit_secs: u64) -> bool {
    let elapsed = clock_elapsed(start);
    limit_reached(whole_secs(&elapsed), limit_secs)
}

/// How long one run of the HIS token script may take, in seconds.
pub const SCRIPT_TIME_LIMIT_SECS: u64 = 30;

/// How much memory one run of the HIS token script may take, in bytes.
pub const SCRIPT_MEMORY_LIMIT_BYTES: usize = 268435456;

/// `Context::full` on `runtime`; its error as text.
#[verifier::external_body]
fn js_context(runtime: &Runtime) -> Result<Context, String> {
    Context::full(runtime).map_err(|e| e.to_string())
}

/// `Ctx::eval` of `code` to an object: what the script evaluates to, or an
/// error of doing so, as text. The code runs under the runtime's limits,
/// so the call returns.
#[verifier::external_body]
fn js_eval_object(context: &Context, code: &str) -> (r: Result<JsRef<Object<'static>>, String>)
    ensures
        match r {
            Ok(o) => o.origin() == JsTerm::Script(code@),
            Err(e) => js_error(JsTerm::Script(code@), e@),
        },
{
    context.with(|ctx| ctx.eval::<Persistent<Object<'static>>, _>(code))
        .map(|raw| JsRef { raw, origin: Ghost(JsTerm::Script(code@)) })
        .map_err(|e| e.to_string())
}

/// `Object::get` of the function `name` of `object`: that property, or an
/// error when it is missing or no function, as text. A getter runs under
/// the runtime's limits, so the call returns.
#[verifier::external_body]
fn js_function(context: &Context, object: &JsRef<Object<'static>>, name: &str) -> (r: Result<JsRef<Function<'static>>, String>)
    ensures
        match r {
            Ok(f) => f.origin() == JsTerm::Member(Box::new(object.origin()), name@),
            Err(e) => js_error(JsTerm::Member(Box::new(object.origin()), name@), e@),
        },
{
    context.with(|ctx| object.raw.clone().restore(&ctx)?.get::<_, Persistent<Function<'static>>>(name))
        .map(|raw| JsRef { raw, origin: Ghost(JsTerm::Member(Box::new(object.origin()), name@)) })
        .map_err(|e| e.to_string())
}

/// `Object::get` of the object `name` of `object`, as a value: that
/// property, or an error when it is missing or no object, as text. A getter
/// runs under the runtime's limits, so the call returns.
#[verifier::external_body]
fn js_object(context: &Context, object: &JsRef<Object<'static>>, name: &str) -> (r: Result<JsRef<Value<'static>>, String>)
    ensures
        match r {
            Ok(v) => v.origin() == JsTerm::Member(Box::new(object.origin()), name@),
            Err(e) => js_error(JsTerm::Member(Box::new(object.origin()), name@), e@),
        },
{
    context.with(|ctx| {
        let member = object.raw.clone().restore(&ctx)?.get::<_, Object>(name)?;
        Ok(Persistent::save(&ctx, member.into_value()))
    }).map(|raw| JsRef { raw, origin: Ghost(JsTerm::Member(Box::new(object.origin()), name@)) })
        .map_err(|e: rquickjs::Error| e.to_string())
}

/// `Ctx::json_parse` of `text`: the value it stands for, or an error, as
/// text.
#[verifier::external_body]
fn js_json_parse(context: &Context, text: &str) -> (r: Result<JsRef<Value<'static>>, String>)
    ensures
        match r {
            Ok(v) => v.origin() == JsTerm::Json(text@),
            Err(e) => js_error(JsTerm::Json(text@), e@),
        },
{
    context.with(|ctx| ctx.json_parse(text).map(|v| Persistent::save(&ctx, v)))
        .map(|raw| JsRef { raw, origin: Ghost(JsTerm::Json(text@)) })
        .map_err(|e| e.to_string())
}

/// `Function::call` of `function` with the arguments `a`, `b`, `c` in that
/// order: what it returns, or an error (such as what it throws), as text.
/// The function runs under the runtime's limits, so the call returns.
#[verifier::external_body]
fn js_call(
    context: &Context,
    function: &JsRef<Function<'static>>,
    a: &JsRef<Value<'static>>,
    b: &JsRef<Value<'static>>,
    c: &JsRef<Value<'static>>,
) -> (r: Result<JsRef<Value<'static>>, String>)
    ensures
        match r {
            Ok(v) => v.origin() == JsTerm::Call(
                Box::new(function.origin()), Box::new(a.origin()), Box::new(b.origin()), Box::new(c.origin())),
            Err(e) => js_error(JsTerm::Call(
                Box::new(function.origin()), Box::new(a.origin()), Box::new(b.origin()), Box::new(c.origin())), e@),
        },
{
    context.with(|ctx| function.raw.clone().restore(&ctx)?.call((a.raw.clone(), b.raw.clone(), c.raw.clone())))
        .map(|raw| JsRef { raw, origin: Ghost(JsTerm::Call(
            Box::new(function.origin()), Box::new(a.origin()), Box::new(b.origin()), Box::new(c.origin()))) })
        .map_err(|e| e.to_string())
}

/// `Ctx::json_stringify` of a value: its JSON text as a JavaScript string;
/// nothing when it has no JSON form (`undefined`, a function); or an
/// error, as text. A `toJSON` method runs under the runtime's limits, so
/// the call returns.
#[verifier::external_body]
fn js_stringify_value(context: &Context, value: &JsRef<Value<'static>>) -> (r: Result<Option<JsRef<rquickjs::String<'static>>>, String>)
    ensures
        match r {
            Ok(Some(s)) => s.origin() == JsTerm::Stringified(Box::new(value.origin())),
            Ok(None) => js_no_json(value.origin()),
            Err(e) => js_error(JsTerm::Stringified(Box::new(value.origin())), e@),
        },
{
    context.with(|ctx| ctx.json_stringify(value.raw.clone()).map(|s| s.map(|s| Persistent::save(&ctx, s))))
        .map(|s| s.map(|raw| JsRef { raw, origin: Ghost(JsTerm::Stringified(Box::new(value.origin()))) }))
        .map_err(|e| e.to_string())
}

/// `rquickjs::String::to_string`, the Rust text of a JavaScript string; or
/// an error, as text.
#[verifier::external_body]
fn js_text(context: &Context, text: &JsRef<rquickjs::String<'static>>) -> (r: Result<String, String>)
    ensures
        match r {
            Ok(t) => js_text_of(text.origin(), t@),
            Err(e) => js_error(text.origin(), e@),
        },
{
    context.with(|ctx| text.raw.clone().restore(&ctx)?.to_string()).map_err(|e| e.to_string())
}

/// `what: cause`, the form of every error of a script run.
pub open spec fn failure_text(what: Seq<char>, cause: Seq<char>) -> Seq<char> {
    what + ": "@ + cause
}

fn failure(what: &str, cause: String) -> (r: String)
    ensures
        r@ == failure_text(what@, cause@),
{
    let mut r = join2(what, ": ");
    r.append(cause.as_str());
    r
}

/// `m` is `what: cause` for some cause.
pub open spec fn is_failure(m: Seq<char>, what: Seq<char>) -> bool {
    exists|cause: Seq<char>| m == #[trigger] failure_text(what, cause)
}

/// A failure starts as its `what` does.
proof fn lemma_failure_start(m: Seq<char>, what: Seq<char>, i: int)
    requires
        is_failure(m, what),
        0 <= i < what.len(),
    ensures
        m.len() > i,
        m[i] == what[i],
{
    let cause = choose|cause: Seq<char>| m == #[trigger] failure_text(what, cause);
    assert(m == failure_text(what, cause));
    assert(m[i] == (what + ": "@ + cause)[i]);
}

/// The function of the script's object that a run calls.
pub enum ScriptMember {
    /// `nextRequest(previousResponse, requestHeaders, responses)`.
    NextRequest,
    /// `extractor(lastResponse, requestHeaders, responses)`.
    Extractor,
}

/// The name of the function of the script's object that a run calls.
pub open spec fn member_name(member: ScriptMember) -> Seq<char> {
    match member {
        ScriptMember::NextRequest => "nextRequest"@,
        ScriptMember::Extractor => "extractor"@,
    }
}

/// The name of the function that `member` stands for.
pub fn member_str(member: &ScriptMember) -> (r: &'static str)
    ensures
        r@ == member_name(*member),
{
    match member {
        ScriptMember::NextRequest => "nextRequest",
        ScriptMember::Extractor => "extractor",
    }
}

/// What a run of the script evaluates and calls: the script with its input
/// headers, the function called, and the JSON texts of its three
/// arguments in order.
pub struct ScriptCall {
    pub member: ScriptMember,
    pub script: String,
    pub first: String,
    pub second: String,
    pub third: String,
}

/// The call that asks the script for its next request: `nextRequest` with
/// the last response (or `null` before the first), the input headers and
/// all responses.
pub fn next_request_call(
    script_code: &str,
    input_headers: &HeaderStrings,
    previous_response: Option<&ScriptHttpResponse>,
    responses: &[ScriptHttpResponse],
) -> (c: ScriptCall)
    ensures
        c.member == ScriptMember::NextRequest,
        c.script@ == script_with_input(script_code@, string_object_text(input_headers@)),
        c.first@ == match previous_response {
            Some(p) => response_text(*p),
            None => "null"@,
        },
        c.second@ == string_object_text(input_headers@),
        c.third@ == json_array_text(response_texts(responses@)),
{
    let script = build_script_with_input(script_code, input_headers);
    let first = match previous_response {
        Some(response) => serialize_script_response(response),
        None => owned("null"),
    };
    let second = input_headers_json(input_headers);
    let third = responses_json(responses);
    ScriptCall { member: ScriptMember::NextRequest, script, first, second, third }
}

/// The call that asks the script's extractor for the headers: `extractor`
/// with the last response, the input headers and all responses; none
/// without a response.
pub fn extractor_call(
    script_code: &str,
    input_headers: &HeaderStrings,
    responses: &[ScriptHttpResponse],
) -> (c: Option<ScriptCall>)
    ensures
        c is None <==> responses@.len() == 0,
        c matches Some(c) ==> {
            &&& c.member == ScriptMember::Extractor
            &&& c.script@ == script_with_input(script_code@, string_object_text(input_headers@))
            &&& c.first@ == response_text(responses@.last())
            &&& c.second@ == string_object_text(input_headers@)
            &&& c.third@ == json_array_text(response_texts(responses@))
        },
{
    let script = build_script_with_input(script_code, input_headers);
    if responses.len() == 0 {
        return None;
    }
    let first = serialize_script_response(&responses[responses.len() - 1]);
    let second = input_headers_json(input_headers);
    let third = responses_json(responses);
    Some(ScriptCall { member: ScriptMember::Extractor, script, first, second, third })
}

/// The errors of setting up a run: making the runtime or the context, or
/// evaluating the script.
pub open spec fn is_setup_error(m: Seq<char>) -> bool {
    ||| is_failure(m, "Failed to create HIS token JS runtime"@)
    ||| is_failure(m, "Failed to create HIS token JS context"@)
    ||| is_failure(m, "Failed to evaluate HIS token script"@)
}

/// The errors of calling `member` and reading what it gave.
pub open spec fn is_call_error(member: ScriptMember, m: Seq<char>) -> bool {
    match member {
        ScriptMember::NextRequest => {
            ||| is_failure(m, "Failed to parse HIS token previous response payload"@)
            ||| is_failure(m, "Failed to parse request header inputs"@)
            ||| is_failure(m, "Failed to parse HIS token response payloads"@)
            ||| is_failure(m, "Failed to execute HIS token nextRequest"@)
            ||| is_failure(m, "Failed to serialize HIS token nextRequest output"@)
            ||| is_failure(m, "Failed to read HIS token request JSON"@)
        },
        ScriptMember::Extractor => {
            ||| is_failure(m, "Failed to parse HIS token response payload"@)
            ||| is_failure(m, "Failed to parse request header inputs"@)
            ||| is_failure(m, "Failed to parse HIS token response payloads"@)
            ||| is_failure(m, "Failed to execute HIS token extractor"@)
            ||| is_failure(m, "Failed to serialize HIS token extractor output"@)
            ||| is_failure(m, "Failed to read HIS token extractor JSON"@)
        },
    }
}

/// The errors of reading the script's `request` object.
pub open spec fn is_request_object_error(m: Seq<char>) -> bool {
    ||| is_failure(m, "Failed to serialize HIS token request config"@)
    ||| is_failure(m, "Failed to read HIS token request JSON"@)
}

/// What became of a call of a function (or a read of an object) of the
/// script's object.
pub enum ScriptOutcome {
    /// The run failed, with its error.
    Failed(String),
    /// The object has no such member, with the lookup's error.
    MemberMissing(String),
    /// The member was called (or read): the JSON text of what it gave, or
    /// nothing when that has no JSON form (`undefined`, a function).
    Output(Option<String>),
}

/// `m` is the error `what: e` for an error `e` that the engine may give
/// when it works out `term`.
pub open spec fn stage_failure(m: Seq<char>, what: Seq<char>, term: JsTerm) -> bool {
    exists|e: Seq<char>| m == #[trigger] failure_text(what, e) && js_error(term, e)
}

/// The errors of setting up a run of `script`: making the runtime or the
/// context, whatever the cause, or an error that evaluating the script
/// may give.
pub open spec fn is_setup_failure(script: Seq<char>, m: Seq<char>) -> bool {
    ||| is_failure(m, "Failed to create HIS token JS runtime"@)
    ||| is_failure(m, "Failed to create HIS token JS context"@)
    ||| stage_failure(m, "Failed to evaluate HIS token script"@, JsTerm::Script(script))
}

/// What a failed parse of the first argument of `member` is called.
pub open spec fn first_parse_what(member: ScriptMember) -> Seq<char> {
    match member {
        ScriptMember::NextRequest => "Failed to parse HIS token previous response payload"@,
        ScriptMember::Extractor => "Failed to parse HIS token response payload"@,
    }
}

/// What a failed call of `member` is called.
pub open spec fn execute_what(member: ScriptMember) -> Seq<char> {
    match member {
        ScriptMember::NextRequest => "Failed to execute HIS token nextRequest"@,
        ScriptMember::Extractor => "Failed to execute HIS token extractor"@,
    }
}

/// What a failed JSON form of the output of `member` is called.
pub open spec fn serialize_what(member: ScriptMember) -> Seq<char> {
    match member {
        ScriptMember::NextRequest => "Failed to serialize HIS token nextRequest output"@,
        ScriptMember::Extractor => "Failed to serialize HIS token extractor output"@,
    }
}

/// What a failed read of the JSON text of the output of `member` is called.
pub open spec fn read_what(member: ScriptMember) -> Seq<char> {
    match member {
        ScriptMember::NextRequest => "Failed to read HIS token request JSON"@,
        ScriptMember::Extractor => "Failed to read HIS token extractor JSON"@,
    }
}

/// The value that calling the function `member` of the object `config`
/// with the JSON texts `first`, `second` and `third`, in that order, gives.
pub open spec fn member_call(config: JsTerm, member: ScriptMember, first: Seq<char>, second: Seq<char>, third: Seq<char>) -> JsTerm {
    JsTerm::Call(
        Box::new(JsTerm::Member(Box::new(config), member_name(member))),
        Box::new(JsTerm::Json(first)),
        Box::new(JsTerm::Json(second)),
        Box::new(JsTerm::Json(third)),
    )
}

/// `o` is what calling the function `member` of `config` with the JSON
/// texts `first`, `second`, `third` in that order may end in: the lookup's
/// error when there is no such function; an error of parsing an argument,
/// of the call, of its JSON form or of reading that, each under its own
/// name; no output when the result has no JSON form; otherwise the JSON
/// text of the result.
pub open spec fn is_call_outcome(
    config: JsTerm,
    member: ScriptMember,
    first: Seq<char>,
    second: Seq<char>,
    third: Seq<char>,
    o: ScriptOutcome,
) -> bool {
    let call = member_call(config, member, first, second, third);
    match o {
        ScriptOutcome::MemberMissing(e) => js_error(JsTerm::Member(Box::new(config), member_name(member)), e@),
        ScriptOutcome::Failed(m) => {
            ||| stage_failure(m@, first_parse_what(member), JsTerm::Json(first))
            ||| stage_failure(m@, "Failed to parse request header inputs"@, JsTerm::Json(second))
            ||| stage_failure(m@, "Failed to parse HIS token response payloads"@, JsTerm::Json(third))
            ||| stage_failure(m@, execute_what(member), call)
            ||| stage_failure(m@, serialize_what(member), JsTerm::Stringified(Box::new(call)))
            ||| stage_failure(m@, read_what(member), JsTerm::Stringified(Box::new(call)))
        },
        ScriptOutcome::Output(None) => js_no_json(call),
        ScriptOutcome::Output(Some(t)) => js_text_of(JsTerm::Stringified(Box::new(call)), t@),
    }
}

/// `o` is what reading the `request` object of `config` as JSON may end
/// in: the lookup's error when it is missing or no object; an error of its
/// JSON form or of reading that; no output when it has no JSON form;
/// otherwise its JSON text.
pub open spec fn is_request_object_outcome(config: JsTerm, o: ScriptOutcome) -> bool {
    let request = JsTerm::Member(Box::new(config), "request"@);
    match o {
        ScriptOutcome::MemberMissing(e) => js_error(request, e@),
        ScriptOutcome::Failed(m) => {
            ||| stage_failure(m@, "Failed to serialize HIS token request config"@, JsTerm::Stringified(Box::new(request)))
            ||| stage_failure(m@, "Failed to read HIS token request JSON"@, JsTerm::Stringified(Box::new(request)))
        },
        ScriptOutcome::Output(None) => js_no_json(request),
        ScriptOutcome::Output(Some(t)) => js_text_of(JsTerm::Stringified(Box::new(request)), t@),
    }
}

/// A script evaluated in a runtime of its own, ready for calls.
pub struct ScriptSession {
    config: JsRef<Object<'static>>,
    context: Context,
    runtime: Runtime,
}

impl ScriptSession {
    /// The object that the script evaluated to.
    pub closed spec fn config(&self) -> JsTerm {
        self.config.origin()
    }
}

/// `what: cause`, with `cause` an error that the engine may give for
/// `term`.
fn stage_error(what: &str, cause: String, term: Ghost<JsTerm>) -> (m: String)
    requires
        js_error(term@, cause@),
    ensures
        stage_failure(m@, what@, term@),
        is_failure(m@, what@),
{
    let ghost c = cause@;
    let m = failure(what, cause);
    assert(m@ == failure_text(what@, c));
    m
}

/// Evaluates `script` in a fresh runtime and context, whose runs stop once
/// they take [`SCRIPT_TIME_LIMIT_SECS`] seconds or more than
/// [`SCRIPT_MEMORY_LIMIT_BYTES`] bytes; or the error of doing so.
pub fn open_script(script: &str) -> (r: Result<ScriptSession, String>)
    ensures
        r matches Ok(s) ==> s.config() == JsTerm::Script(script@),
        r matches Err(m) ==> is_setup_failure(script@, m@) && is_setup_error(m@),
{
    let runtime = match js_runtime() {
        Ok(runtime) => runtime,
        Err(e) => {
            let m = failure("Failed to create HIS token JS runtime", e);
            assert(is_failure(m@, "Failed to create HIS token JS runtime"@));
            return Err(m);
        },
    };
    js_set_time_limit(&runtime, clock_now(), SCRIPT_TIME_LIMIT_SECS);
    js_set_memory_limit(&runtime, SCRIPT_MEMORY_LIMIT_BYTES);
    let context = match js_context(&runtime) {
        Ok(context) => context,
        Err(e) => {
            let m = failure("Failed to create HIS token JS context", e);
            assert(is_failure(m@, "Failed to create HIS token JS context"@));
            return Err(m);
        },
    };
    let config = match js_eval_object(&context, script) {
        Ok(config) => config,
        Err(e) => return Err(stage_error("Failed to evaluate HIS token script", e, Ghost(JsTerm::Script(script@)))),
    };
    Ok(ScriptSession { config, context, runtime })
}

/// The names under which the steps of calling `member` fail: parsing its
/// first argument, calling it, its output's JSON form, reading that.
fn stage_names(member: &ScriptMember) -> (r: (&'static str, &'static str, &'static str, &'static str))
    ensures
        r.0@ == first_parse_what(*member),
        r.1@ == execute_what(*member),
        r.2@ == serialize_what(*member),
        r.3@ == read_what(*member),
{
    match member {
        ScriptMember::NextRequest => (
            "Failed to parse HIS token previous response payload",
            "Failed to execute HIS token nextRequest",
            "Failed to serialize HIS token nextRequest output",
            "Failed to read HIS token request JSON",
        ),
        ScriptMember::Extractor => (
            "Failed to parse HIS token response payload",
            "Failed to execute HIS token extractor",
            "Failed to serialize HIS token extractor output",
            "Failed to read HIS token extractor JSON",
        ),
    }
}

/// Calls the function [`member_str`]`(call.member)` of the evaluated
/// script with the three JSON arguments of `call`, parsed in order, and
/// reads its output as JSON.
pub fn call_member(session: &ScriptSession, call: &ScriptCall) -> (o: ScriptOutcome)
    ensures
        is_call_outcome(session.config(), call.member, call.first@, call.second@, call.third@, o),
        o matches ScriptOutcome::Failed(m) ==> is_call_error(call.member, m@),
{
    let (parse_what, call_what, json_what, text_what) = stage_names(&call.member);
    let context = &session.context;
    let function = match js_function(context, &session.config, member_str(&call.member)) {
        Ok(f) => f,
        Err(e) => return ScriptOutcome::MemberMissing(e),
    };
    let first = match js_json_parse(context, call.first.as_str()) {
        Ok(v) => v,
        Err(e) => return ScriptOutcome::Failed(stage_error(parse_what, e, Ghost(JsTerm::Json(call.first@)))),
    };
    let second = match js_json_parse(context, call.second.as_str()) {
        Ok(v) => v,
        Err(e) => return ScriptOutcome::Failed(
            stage_error("Failed to parse request header inputs", e, Ghost(JsTerm::Json(call.second@))),
        ),
    };
    let third = match js_json_parse(context, call.third.as_str()) {
        Ok(v) => v,
        Err(e) => return ScriptOutcome::Failed(
            stage_error("Failed to parse HIS token response payloads", e, Ghost(JsTerm::Json(call.third@))),
        ),
    };
    let ghost called = member_call(session.config(), call.member, call.first@, call.second@, call.third@);
    let output = match js_call(context, &function, &first, &second, &third) {
        Ok(v) => v,
        Err(e) => return ScriptOutcome::Failed(stage_error(call_what, e, Ghost(called))),
    };
    let text = match js_stringify_value(context, &output) {
        Ok(Some(t)) => t,
        Ok(None) => return ScriptOutcome::Output(None),
        Err(e) => return ScriptOutcome::Failed(
            stage_error(json_what, e, Ghost(JsTerm::Stringified(Box::new(called)))),
        ),
    };
    match js_text(context, &text) {
        Ok(t) => ScriptOutcome::Output(Some(t)),
        Err(e) => ScriptOutcome::Failed(stage_error(text_what, e, Ghost(JsTerm::Stringified(Box::new(called))))),
    }
}

/// Reads the `request` object of the evaluated script as JSON.
pub fn request_object(session: &ScriptSession) -> (o: ScriptOutcome)
    ensures
        is_request_object_outcome(session.config(), o),
        o matches ScriptOutcome::Failed(m) ==> is_request_object_error(m@),
{
    let context = &session.context;
    let request = match js_object(context, &session.config, "request") {
        Ok(request) => request,
        Err(e) => {
            proof {
                reveal_strlit("request");
            }
            return ScriptOutcome::MemberMissing(e);
        },
    };
    proof {
        reveal_strlit("request");
    }
    let ghost stringified = JsTerm::Stringified(Box::new(JsTerm::Member(Box::new(session.config()), "request"@)));
    let text = match js_stringify_value(context, &request) {
        Ok(Some(t)) => t,
        Ok(None) => return ScriptOutcome::Output(None),
        Err(e) => return ScriptOutcome::Failed(
            stage_error("Failed to serialize HIS token request config", e, Ghost(stringified)),
        ),
    };
    match js_text(context, &text) {
        Ok(t) => ScriptOutcome::Output(Some(t)),
        Err(e) => ScriptOutcome::Failed(stage_error("Failed to read HIS token request JSON", e, Ghost(stringified))),
    }
}

/// The request that the output of `nextRequest` stands for: none when it
/// is `null`, surrounding white space aside; otherwise the output itself.
pub fn request_from_next_request_output(output: String) -> (r: Option<String>)
    ensures
        trim_chars(output@) == "null"@ ==> r is None,
        trim_chars(output@) != "null"@ ==> r == Some(output),
{
    if str_eq(str_trim(output.as_str()), "null") {
        None
    } else {
        Some(output)
    }
}

/// What follows a call of `nextRequest`.
pub enum NextRequestStep {
    /// The answer.
    Finished(Result<Option<String>, String>),
    /// The script has no `nextRequest` and no response came yet: its
    /// `request` object is the first request.
    ReadRequestObject,
}

/// What follows a call of `nextRequest`: its error; no request when its
/// output is `undefined` or `null`; the output otherwise. Without
/// `nextRequest` there is no further request once a response came, and
/// before that the `request` object is read.
pub fn next_request_step(outcome: ScriptOutcome, has_previous: bool) -> (r: NextRequestStep)
    ensures
        is_next_request_step(outcome, has_previous, r),
{
    match outcome {
        ScriptOutcome::Failed(m) => NextRequestStep::Finished(Err(m)),
        ScriptOutcome::MemberMissing(_) => if has_previous {
            NextRequestStep::Finished(Ok(None))
        } else {
            NextRequestStep::ReadRequestObject
        },
        ScriptOutcome::Output(None) => NextRequestStep::Finished(Ok(None)),
        ScriptOutcome::Output(Some(t)) => NextRequestStep::Finished(Ok(request_from_next_request_output(t))),
    }
}

/// `r` is what follows the outcome `outcome` of a call of `nextRequest`:
/// its error; no request when its output is `undefined` or `null`; the
/// output otherwise. Without `nextRequest` there is no further request once
/// a response came, and before that the `request` object is read.
pub open spec fn is_next_request_step(outcome: ScriptOutcome, has_previous: bool, r: NextRequestStep) -> bool {
        match outcome {
            ScriptOutcome::Failed(m) => r == NextRequestStep::Finished(Err(m)),
            ScriptOutcome::MemberMissing(_) => if has_previous {
                r == NextRequestStep::Finished(Ok(None))
            } else {
                r == NextRequestStep::ReadRequestObject
            },
            ScriptOutcome::Output(None) => r == NextRequestStep::Finished(Ok(None)),
            ScriptOutcome::Output(Some(t)) => if trim_chars(t@) == "null"@ {
                r == NextRequestStep::Finished(Ok(None))
            } else {
                r == NextRequestStep::Finished(Ok(Some(t)))
            },
        }
}

/// The error for a `request` object without a JSON form.
pub open spec fn request_without_json_error() -> Seq<char> {
    "HIS token request config serialization returned None"@
}

/// `r` is the first request that the outcome of reading the script's
/// `request` object gives: its JSON text; an error when it is missing, is
/// no object, or has no JSON form.
pub open spec fn is_request_from_object(outcome: ScriptOutcome, r: Result<Option<String>, String>) -> bool {
    match outcome {
        ScriptOutcome::Failed(m) => r == Err::<Option<String>, String>(m),
        ScriptOutcome::MemberMissing(e) => r matches Err(m)
            && m@ == failure_text("Missing request config in HIS token script"@, e@),
        ScriptOutcome::Output(None) => r matches Err(m) && m@ == request_without_json_error(),
        ScriptOutcome::Output(Some(t)) => r == Ok::<Option<String>, String>(Some(t)),
    }
}

/// The first request that the script's `request` object gives: its JSON
/// text; an error when it is missing, is no object, or has no JSON form.
pub fn request_from_object(outcome: ScriptOutcome) -> (r: Result<Option<String>, String>)
    ensures
        is_request_from_object(outcome, r),
{
    match outcome {
        ScriptOutcome::Failed(m) => Err(m),
        ScriptOutcome::MemberMissing(e) => Err(failure("Missing request config in HIS token script", e)),
        ScriptOutcome::Output(None) => Err(owned("HIS token request config serialization returned None")),
        ScriptOutcome::Output(Some(t)) => Ok(Some(t)),
    }
}

/// The error for an extractor output without a JSON form.
pub open spec fn extractor_without_json_error() -> Seq<char> {
    "HIS token extractor must return a JSON object"@
}

/// `r` is the headers' JSON text that the extractor's outcome gives: its
/// output; an error when it failed, is missing, or has no JSON form.
pub open spec fn is_extractor_result(outcome: ScriptOutcome, r: Result<String, String>) -> bool {
    match outcome {
        ScriptOutcome::Failed(m) => r == Err::<String, String>(m),
        ScriptOutcome::MemberMissing(e) => r matches Err(m)
            && m@ == failure_text("Missing extractor function in HIS token script"@, e@),
        ScriptOutcome::Output(None) => r matches Err(m) && m@ == extractor_without_json_error(),
        ScriptOutcome::Output(Some(t)) => r == Ok::<String, String>(t),
    }
}

/// The headers' JSON text that the extractor's outcome gives: its output;
/// an error when it failed, is missing, or has no JSON form.
pub fn extractor_result(outcome: ScriptOutcome) -> (r: Result<String, String>)
    ensures
        is_extractor_result(outcome, r),
{
    match outcome {
        ScriptOutcome::Failed(m) => Err(m),
        ScriptOutcome::MemberMissing(e) => Err(failure("Missing extractor function in HIS token script", e)),
        ScriptOutcome::Output(None) => Err(owned("HIS token extractor must return a JSON object")),
        ScriptOutcome::Output(Some(t)) => Ok(t),
    }
}

/// The errors that asking the script for its next request may end in.
pub open spec fn is_next_request_error(m: Seq<char>) -> bool {
    ||| is_setup_error(m)
    ||| is_call_error(ScriptMember::NextRequest, m)
    ||| is_request_object_error(m)
    ||| is_failure(m, "Missing request config in HIS token script"@)
    ||| m == request_without_json_error()
}

/// The errors that a run of the extractor may end in.
pub open spec fn is_extractor_run_error(m: Seq<char>) -> bool {
    ||| is_setup_error(m)
    ||| is_call_error(ScriptMember::Extractor, m)
    ||| is_failure(m, "Missing extractor function in HIS token script"@)
    ||| m == extractor_without_json_error()
}

/// `r` is what asking the script `script` for its next request may end in,
/// with `first`, `second`, `third` the JSON texts handed to `nextRequest`
/// in that order: an error of setting up the run; or the decision of
/// [`next_request_step`] on an outcome of that call, and when it reads the
/// `request` object, that of [`request_from_object`] on an outcome of the
/// read.
pub open spec fn is_next_request_run(
    script: Seq<char>,
    first: Seq<char>,
    second: Seq<char>,
    third: Seq<char>,
    has_previous: bool,
    r: Result<Option<String>, String>,
) -> bool {
    ||| r matches Err(m) && is_setup_failure(script, m@)
    ||| exists|o: ScriptOutcome, s: NextRequestStep|
        #[trigger] is_call_outcome(JsTerm::Script(script), ScriptMember::NextRequest, first, second, third, o)
            && #[trigger] is_next_request_step(o, has_previous, s)
            && match s {
            NextRequestStep::Finished(x) => r == x,
            NextRequestStep::ReadRequestObject => exists|q: ScriptOutcome|
                #[trigger] is_request_object_outcome(JsTerm::Script(script), q) && #[trigger] is_request_from_object(q, r),
        }
}

/// `r` is what a run of the extractor of the script `script` may end in,
/// with `first`, `second`, `third` the JSON texts handed to `extractor` in
/// that order: an error of setting up the run, or the decision of
/// [`extractor_result`] on an outcome of that call.
pub open spec fn is_extractor_run(
    script: Seq<char>,
    first: Seq<char>,
    second: Seq<char>,
    third: Seq<char>,
    r: Result<String, String>,
) -> bool {
    ||| r matches Err(m) && is_setup_failure(script, m@)
    ||| exists|o: ScriptOutcome|
        #[trigger] is_call_outcome(JsTerm::Script(script), ScriptMember::Extractor, first, second, third, o)
            && #[trigger] is_extractor_result(o, r)
}

/// Asks the HIS token script for the next request to send, given the
/// responses so far and the last of them: the call of
/// [`next_request_call`] is made, and [`next_request_step`] and
/// [`request_from_object`] decide on what came back.
pub fn extract_next_script_request(
    script_code: &str,
    input_headers: &HeaderStrings,
    previous_response: Option<&ScriptHttpResponse>,
    responses: &[ScriptHttpResponse],
) -> (r: Result<Option<String>, String>)
    ensures
        is_next_request_run(
            script_with_input(script_code@, string_object_text(input_headers@)),
            match previous_response {
                Some(p) => response_text(*p),
                None => "null"@,
            },
            string_object_text(input_headers@),
            json_array_text(response_texts(responses@)),
            previous_response is Some,
            r,
        ),
        previous_response is Some ==> (r matches Ok(Some(t)) ==> trim_chars(t@) != "null"@),
        r matches Err(m) ==> is_next_request_error(m@),
{
    let call = next_request_call(script_code, input_headers, previous_response, responses);
    let session = match open_script(call.script.as_str()) {
        Ok(session) => session,
        Err(m) => return Err(m),
    };
    let outcome = call_member(&session, &call);
    let ghost o = outcome;
    let step = next_request_step(outcome, previous_response.is_some());
    let ghost st = step;
    match step {
        NextRequestStep::Finished(r) => {
            assert(is_call_outcome(JsTerm::Script(call.script@), ScriptMember::NextRequest, call.first@, call.second@, call.third@, o));
            assert(is_next_request_step(o, previous_response is Some, st));
            r
        },
        NextRequestStep::ReadRequestObject => {
            let q = request_object(&session);
            let ghost qq = q;
            let r = request_from_object(q);
            assert(is_request_object_outcome(JsTerm::Script(call.script@), qq) && is_request_from_object(qq, r));
            assert(is_call_outcome(JsTerm::Script(call.script@), ScriptMember::NextRequest, call.first@, call.second@, call.third@, o));
            assert(is_next_request_step(o, previous_response is Some, st));
            r
        },
    }
}

/// The error when the script gives no first request.
pub open spec fn no_initial_request_error() -> Seq<char> {
    "HIS token script did not produce an initial request config"@
}

/// `r` is the first request, given what the script answered when asked
/// for the next request before any response: that request; an error when
/// it gave none; its error.
pub open spec fn is_initial_request(next: Result<Option<String>, String>, r: Result<String, String>) -> bool {
    match next {
        Ok(Some(t)) => r == Ok::<String, String>(t),
        Ok(None) => r matches Err(m) && m@ == no_initial_request_error(),
        Err(e) => r == Err::<String, String>(e),
    }
}

/// The first request, given what the script answered when asked for the
/// next request before any response: that request; an error when it gave
/// none; its error.
pub fn initial_request(next: Result<Option<String>, String>) -> (r: Result<String, String>)
    ensures
        is_initial_request(next, r),
{
    match next {
        Ok(Some(request)) => Ok(request),
        Ok(None) => Err(owned("HIS token script did not produce an initial request config")),
        Err(e) => Err(e),
    }
}

/// The first request of the HIS token script, or why there is none: the
/// script is asked for its next request before any response, and
/// [`initial_request`] decides on the answer.
pub fn extract_script_request(script_code: &str, input_headers: &HeaderStrings) -> (r: Result<String, String>)
    ensures
        exists|next: Result<Option<String>, String>|
            #[trigger] is_next_request_run(
                script_with_input(script_code@, string_object_text(input_headers@)),
                "null"@,
                string_object_text(input_headers@),
                json_array_text(response_texts(Seq::<ScriptHttpResponse>::empty())),
                false,
                next,
            ) && is_initial_request(next, r),
        r matches Err(m) ==> is_next_request_error(m@) || m@ == no_initial_request_error(),
{
    let responses: Vec<ScriptHttpResponse> = Vec::new();
    let next = extract_next_script_request(script_code, input_headers, None, responses.as_slice());
    let ghost n = next;
    let r = initial_request(next);
    assert(responses@ =~= Seq::<ScriptHttpResponse>::empty());
    assert(is_initial_request(n, r));
    r
}

/// The error for an extractor run without responses.
pub open spec fn no_responses_error() -> Seq<char> {
    "HIS token script did not receive any responses"@
}

/// No run error of the extractor is the error for a run without responses.
proof fn lemma_extractor_errors_distinct(m: Seq<char>)
    requires
        is_extractor_run_error(m),
    ensures
        m != no_responses_error(),
        m != no_request_error(),
{
    reveal_strlit("HIS token script did not receive any responses");
    reveal_strlit("HIS token script did not produce any HTTP request");
    reveal_strlit("HIS token extractor must return a JSON object");
    reveal_strlit("Failed to create HIS token JS runtime");
    reveal_strlit("Failed to create HIS token JS context");
    reveal_strlit("Failed to evaluate HIS token script");
    reveal_strlit("Failed to parse HIS token response payload");
    reveal_strlit("Failed to parse request header inputs");
    reveal_strlit("Failed to parse HIS token response payloads");
    reveal_strlit("Failed to execute HIS token extractor");
    reveal_strlit("Failed to serialize HIS token extractor output");
    reveal_strlit("Failed to read HIS token extractor JSON");
    reveal_strlit("Missing extractor function in HIS token script");
    if m == extractor_without_json_error() {
        assert(m[10] != no_responses_error()[10]);
        assert(m[10] != no_request_error()[10]);
    } else {
        let whats = seq![
            "Failed to create HIS token JS runtime"@,
            "Failed to create HIS token JS context"@,
            "Failed to evaluate HIS token script"@,
            "Failed to parse HIS token response payload"@,
            "Failed to parse request header inputs"@,
            "Failed to parse HIS token response payloads"@,
            "Failed to execute HIS token extractor"@,
            "Failed to serialize HIS token extractor output"@,
            "Failed to read HIS token extractor JSON"@,
            "Missing extractor function in HIS token script"@,
        ];
        assert(exists|k: int| 0 <= k < whats.len() && is_failure(m, #[trigger] whats[k]));
        let k = choose|k: int| 0 <= k < whats.len() && is_failure(m, #[trigger] whats[k]);
        lemma_failure_start(m, whats[k], 0);
        assert(m[0] != no_responses_error()[0]);
        assert(m[0] != no_request_error()[0]);
    }
}

/// The JSON text of what the script's `extractor` gives for the responses:
/// the call of [`extractor_call`] is made and [`extractor_result`] decides
/// on what came back. A run without responses is refused, and only such a
/// run gets that error.
pub fn extract_script_headers_from_responses(
    script_code: &str,
    input_headers: &HeaderStrings,
    responses: &[ScriptHttpResponse],
) -> (r: Result<String, String>)
    ensures
        responses@.len() == 0 ==> (r matches Err(m) && m@ == no_responses_error()),
        responses@.len() > 0 ==> is_extractor_run(
            script_with_input(script_code@, string_object_text(input_headers@)),
            response_text(responses@.last()),
            string_object_text(input_headers@),
            json_array_text(response_texts(responses@)),
            r,
        ),
        responses@.len() > 0 ==> (r matches Err(m) ==> is_extractor_run_error(m@)),
        (r matches Err(m) && m@ == no_responses_error()) <==> responses@.len() == 0,
{
    let call = match extractor_call(script_code, input_headers, responses) {
        Some(call) => call,
        None => return Err(owned("HIS token script did not receive any responses")),
    };
    let session = match open_script(call.script.as_str()) {
        Ok(session) => session,
        Err(m) => {
            proof {
                lemma_extractor_errors_distinct(m@);
            }
            return Err(m);
        },
    };
    let outcome = call_member(&session, &call);
    let ghost o = outcome;
    let r = extractor_result(outcome);
    assert(is_call_outcome(JsTerm::Script(call.script@), ScriptMember::Extractor, call.first@, call.second@, call.third@, o));
    assert(is_extractor_result(o, r));
    proof {
        if let Err(m) = &r {
            lemma_extractor_errors_distinct(m@);
        }
    }
    r
}

/// What the script's `extractor` gives for a single response: a run of
/// the extractor with the list of that one response.
pub fn extract_script_headers(
    script_code: &str,
    input_headers: &HeaderStrings,
    response: ScriptHttpResponse,
) -> (r: Result<String, String>)
    ensures
        is_extractor_run(
            script_with_input(script_code@, string_object_text(input_headers@)),
            response_text(response),
            string_object_text(input_headers@),
            json_array_text(response_texts(seq![response])),
            r,
        ),
        r matches Err(m) ==> is_extractor_run_error(m@),
{
    let ghost one = response;
    let responses = vec![response];
    assert(responses@ =~= seq![one]);
    extract_script_headers_from_responses(script_code, input_headers, responses.as_slice())
}

/// The error once the script has asked for as many requests as it may.
pub open spec fn chain_limit_error() -> Seq<char> {
    "HIS token script exceeded the maximum chained request limit (8)"@
}

/// No error of asking for the next request is the chain limit's.
proof fn lemma_next_request_errors_distinct(m: Seq<char>)
    requires
        is_next_request_error(m),
    ensures
        m != chain_limit_error(),
{
    reveal_strlit("HIS token script exceeded the maximum chained request limit (8)");
    reveal_strlit("HIS token request config serialization returned None");
    reveal_strlit("Failed to create HIS token JS runtime");
    reveal_strlit("Failed to create HIS token JS context");
    reveal_strlit("Failed to evaluate HIS token script");
    reveal_strlit("Failed to parse HIS token previous response payload");
    reveal_strlit("Failed to parse request header inputs");
    reveal_strlit("Failed to parse HIS token response payloads");
    reveal_strlit("Failed to execute HIS token nextRequest");
    reveal_strlit("Failed to serialize HIS token nextRequest output");
    reveal_strlit("Failed to read HIS token request JSON");
    reveal_strlit("Failed to serialize HIS token request config");
    reveal_strlit("Missing request config in HIS token script");
    if m == request_without_json_error() {
        assert(m[10] != chain_limit_error()[10]);
    } else {
        let whats = seq![
            "Failed to create HIS token JS runtime"@,
            "Failed to create HIS token JS context"@,
            "Failed to evaluate HIS token script"@,
            "Failed to parse HIS token previous response payload"@,
            "Failed to parse request header inputs"@,
            "Failed to parse HIS token response payloads"@,
            "Failed to execute HIS token nextRequest"@,
            "Failed to serialize HIS token nextRequest output"@,
            "Failed to read HIS token request JSON"@,
            "Failed to serialize HIS token request config"@,
            "Missing request config in HIS token script"@,
        ];
        assert(exists|k: int| 0 <= k < whats.len() && is_failure(m, #[trigger] whats[k]));
        let k = choose|k: int| 0 <= k < whats.len() && is_failure(m, #[trigger] whats[k]);
        lemma_failure_start(m, whats[k], 0);
        assert(m[0] != chain_limit_error()[0]);
    }
}

/// The next request of a HIS token run, given the responses so far: a run
/// that already made the most requests it may is refused, and only such a
/// run; otherwise the script is asked with the last response as the
/// previous one.
pub fn next_his_token_request(
    script_code: &str,
    input_headers: &HeaderStrings,
    responses: &Vec<ScriptHttpResponse>,
) -> (r: Result<Option<String>, String>)
    ensures
        responses@.len() >= HIS_TOKEN_MAX_CHAINED_REQUESTS ==> (r matches Err(m) && m@ == chain_limit_error()),
        responses@.len() < HIS_TOKEN_MAX_CHAINED_REQUESTS ==> is_his_token_request(script_code@, input_headers@, responses@, r),
        responses@.len() < HIS_TOKEN_MAX_CHAINED_REQUESTS ==> (r matches Err(m) ==> is_next_request_error(m@)),
        (r matches Err(m) && m@ == chain_limit_error()) <==> responses@.len() >= HIS_TOKEN_MAX_CHAINED_REQUESTS,
        responses@.len() > 0 ==> (r matches Ok(Some(t)) ==> trim_chars(t@) != "null"@),
{
    if responses.len() >= HIS_TOKEN_MAX_CHAINED_REQUESTS {
        return Err(owned("HIS token script exceeded the maximum chained request limit (8)"));
    }
    let r = if responses.len() == 0 {
        extract_next_script_request(script_code, input_headers, None, responses.as_slice())
    } else {
        extract_next_script_request(script_code, input_headers, Some(&responses[responses.len() - 1]), responses.as_slice())
    };
    proof {
        if let Err(m) = &r {
            lemma_next_request_errors_distinct(m@);
        }
    }
    r
}

/// The error for a finished run that made no request.
pub open spec fn no_request_error() -> Seq<char> {
    "HIS token script did not produce any HTTP request"@
}

/// The JSON text of the headers that a finished HIS token run gives; a run
/// that made no request is refused, and only such a run.
pub fn his_token_headers_json(
    script_code: &str,
    input_headers: &HeaderStrings,
    responses: &Vec<ScriptHttpResponse>,
) -> (r: Result<String, String>)
    ensures
        responses@.len() == 0 ==> (r matches Err(m) && m@ == no_request_error()),
        responses@.len() > 0 ==> is_his_token_extraction(script_code@, input_headers@, responses@, r),
        responses@.len() > 0 ==> (r matches Err(m) ==> is_extractor_run_error(m@)),
        (r matches Err(m) && m@ == no_request_error()) <==> responses@.len() == 0,
{
    if responses.len() == 0 {
        return Err(owned("HIS token script did not produce any HTTP request"));
    }
    let r = extract_script_headers_from_responses(script_code, input_headers, responses.as_slice());
    proof {
        if let Err(m) = &r {
            lemma_extractor_errors_distinct(m@);
        }
    }
    r
}

/// The JSON text of the last of `responses`, or `null` when there is none:
/// what `nextRequest` is given as the previous response.
pub open spec fn previous_text(responses: Seq<ScriptHttpResponse>) -> Seq<char> {
    if responses.len() == 0 {
        "null"@
    } else {
        response_text(responses.last())
    }
}

/// `r` is what asking the script for the next request of a HIS token run
/// may end in, with the last of `responses` as the previous response.
pub open spec fn is_his_token_request(
    script_code: Seq<char>,
    input_headers: Seq<HeaderText>,
    responses: Seq<ScriptHttpResponse>,
    r: Result<Option<String>, String>,
) -> bool {
    is_next_request_run(
        script_with_input(script_code, string_object_text(input_headers)),
        previous_text(responses),
        string_object_text(input_headers),
        json_array_text(response_texts(responses)),
        responses.len() > 0,
        r,
    )
}

/// `h` is what a run of the extractor of a finished HIS token run may end
/// in, with the last of `responses` as the last response.
pub open spec fn is_his_token_extraction(
    script_code: Seq<char>,
    input_headers: Seq<HeaderText>,
    responses: Seq<ScriptHttpResponse>,
    h: Result<String, String>,
) -> bool {
    is_extractor_run(
        script_with_input(script_code, string_object_text(input_headers)),
        response_text(responses.last()),
        string_object_text(input_headers),
        json_array_text(response_texts(responses)),
        h,
    )
}

/// What a HIS token run does next.
pub enum HisTokenAction {
    /// Send the request with this JSON text, then take the next step with
    /// its response added to the responses.
    Send(String),
    /// The run is over: the JSON text of the object that the extractor gave.
    Finish(String),
}

/// The next step of a HIS token run, given the responses so far: the
/// request that the script asks for next; once it asks for none, the
/// extractor's object for all the responses; a run past the chain limit, a
/// run that ends without any request, and a failed script run are refused.
pub fn his_token_step(
    script_code: &str,
    input_headers: &HeaderStrings,
    responses: &Vec<ScriptHttpResponse>,
) -> (r: Result<HisTokenAction, String>)
    ensures
        responses@.len() >= HIS_TOKEN_MAX_CHAINED_REQUESTS ==> (r matches Err(m) && m@ == chain_limit_error()),
        responses@.len() < HIS_TOKEN_MAX_CHAINED_REQUESTS ==> exists|next: Result<Option<String>, String>|
            #[trigger] is_his_token_request(script_code@, input_headers@, responses@, next) && match next {
                Err(e) => r == Err::<HisTokenAction, String>(e),
                Ok(Some(t)) => r == Ok::<HisTokenAction, String>(HisTokenAction::Send(t)),
                Ok(None) => if responses@.len() == 0 {
                    r matches Err(m) && m@ == no_request_error()
                } else {
                    exists|h: Result<String, String>|
                        #[trigger] is_his_token_extraction(script_code@, input_headers@, responses@, h) && match h {
                            Ok(t) => r == Ok::<HisTokenAction, String>(HisTokenAction::Finish(t)),
                            Err(e) => r == Err::<HisTokenAction, String>(e),
                        }
                },
            },
{
    if responses.len() >= HIS_TOKEN_MAX_CHAINED_REQUESTS {
        return Err(owned("HIS token script exceeded the maximum chained request limit (8)"));
    }
    let next = next_his_token_request(script_code, input_headers, responses);
    let ghost n = next;
    assert(is_his_token_request(script_code@, input_headers@, responses@, n));
    match next {
        Err(e) => Err(e),
        Ok(Some(t)) => Ok(HisTokenAction::Send(t)),
        Ok(None) => {
            let h = his_token_headers_json(script_code, input_headers, responses);
            let ghost hh = h;
            proof {
                if responses@.len() > 0 {
                    assert(is_his_token_extraction(script_code@, input_headers@, responses@, hh));
                }
            }
            match h {
                Ok(t) => Ok(HisTokenAction::Finish(t)),
                Err(e) => Err(e),
            }
        },
    }
}

} // verus!
