//! The HIS token flow around the script: where the script lives, the
//! requests it asks for, and the responses it is shown.

use vstd::prelude::*;
use vstd::string::StringSliceAdditionalSpecFns;
use vstd::string::StrSliceExecFns;
use vstd::utf8::encode_utf8;
use reqwest::Method;
use crate::text::{str_trim, str_eq, trim_chars, owned, join2};
use crate::wire::is_token_byte;
use crate::header_list::{HeaderText, HeaderStrings};
use crate::custom::{
    normalized_header_name, invalid_value_error, normalize_header_name, validate_header_value,
    merge_json, header_map_of, header_strings_from_json_value, header_map_from_strings,
};
use crate::wire::{valid_header_value, header_map_entries, MAX_HEADER_MAP_NAMES};
use crate::json::JsonValue;
use reqwest::header::HeaderMap;

verus! {

#[verifier::external_type_specification]
#[verifier::external_body]
pub struct ExJsonDocument(serde_json::Value);

/// The most requests that one run of the HIS token script may chain.
pub const HIS_TOKEN_MAX_CHAINED_REQUESTS: usize = 8;

/// The timeout of a script request when the script gives none, in seconds.
pub const DEFAULT_REQUEST_TIMEOUT_SECS: u64 = 10;

/// The shortest timeout a script request may have, in seconds.
pub const MIN_REQUEST_TIMEOUT_SECS: u64 = 2;

/// The longest timeout a script request may have, in seconds.
pub const MAX_REQUEST_TIMEOUT_SECS: u64 = 30;

/// A Windows verbatim path, which starts with `\\?\`.
pub open spec fn is_verbatim_path(p: Seq<char>) -> bool {
    p.len() >= 4 && p[0] == '\\' && p[1] == '\\' && p[2] == '?' && p[3] == '\\'
}

/// `rel` starts with a letter or a digit and holds no `:`: a relative
/// path with neither root nor prefix (such as the drive of `c:x`) on every
/// platform.
pub open spec fn plain_relative_path(rel: Seq<char>) -> bool {
    &&& rel.len() > 0
    &&& ('a' <= rel[0] <= 'z' || 'A' <= rel[0] <= 'Z' || '0' <= rel[0] <= '9')
    &&& forall|i: int| 0 <= i < rel.len() ==> #[trigger] rel[i] != ':'
}

/// `base` is a bare Windows drive such as `C:`.
pub open spec fn is_bare_drive(base: Seq<char>) -> bool {
    base.len() == 2 && base[1] == ':' && ('a' <= base[0] <= 'z' || 'A' <= base[0] <= 'Z')
}

/// `rel` joined to `base` as `PathBuf::push` joins a plain relative path:
/// alone after an empty base, directly after a base that ends with the
/// separator `/` (or `\\` where that is the separator) or is a bare drive
/// (on Windows), and otherwise after the platform's separator, `/` or `\\`.
pub open spec fn joined_path(base: Seq<char>, rel: Seq<char>, r: Seq<char>) -> bool {
    if base.len() == 0 {
        r == rel
    } else if base.last() == '/' {
        r == base + rel
    } else if base.last() == '\\' || is_bare_drive(base) {
        r == base + rel || r == base + seq!['/'] + rel
    } else {
        r == base + seq!['/'] + rel || r == base + seq!['\\'] + rel
    }
}

/// `Path::new(base).join(rel)`, as text. `rel` is a plain relative path,
/// so it is appended to `base`, after the platform's separator when `base`
/// is not empty, does not end with a separator and is not a bare Windows
/// drive. Under a Windows verbatim `base` (`\\?\`) the components are
/// rewritten, and nothing is stated of that case.
#[verifier::external_body]
fn path_join(base: &str, rel: &str) -> (r: String)
    requires
        plain_relative_path(rel@),
    ensures
        !is_verbatim_path(base@) ==> joined_path(base@, rel@, r@),
{
    std::path::Path::new(base).join(rel).to_string_lossy().into_owned()
}

/// The path of the HIS token script in the app's configuration directory.
pub fn his_token_script_path(config_dir: &str) -> (r: String)
    ensures
        !is_verbatim_path(config_dir@) ==> joined_path(config_dir@, "scripts/provider-auth/his_token.js"@, r@),
{
    proof {
        reveal_strlit("scripts/provider-auth/his_token.js");
    }
    path_join(config_dir, "scripts/provider-auth/his_token.js")
}

/// What became known about the script file.
pub enum ScriptFileEvent {
    /// Whether the file exists.
    Checked(bool),
    /// How writing the default script to it ended.
    Written(Result<(), String>),
}

/// What to do next about the script file.
pub enum ScriptFileAction {
    /// Write the default script to the path.
    CreateDefault,
    /// The script is at the path.
    Ready,
    /// The script cannot be had, for the reason given.
    Failed(String),
}

/// The error for a script file that could not be written.
pub open spec fn script_create_error(path: Seq<char>, error: Seq<char>) -> Seq<char> {
    "Failed to create HIS token script at "@ + path + ": "@ + error
}

/// The error for a script file that could not be read.
pub open spec fn script_read_error(path: Seq<char>, error: Seq<char>) -> Seq<char> {
    "Failed to read HIS token script at "@ + path + ": "@ + error
}

/// `action` is what follows `event` for the script file at `path`: a file
/// that exists is used as it is; a missing one gets the default script; a
/// failed write is an error.
pub open spec fn is_script_file_step(path: Seq<char>, event: ScriptFileEvent, action: ScriptFileAction) -> bool {
    match event {
        ScriptFileEvent::Checked(true) => action is Ready,
        ScriptFileEvent::Checked(false) => action is CreateDefault,
        ScriptFileEvent::Written(Ok(())) => action is Ready,
        ScriptFileEvent::Written(Err(e)) => action matches ScriptFileAction::Failed(m) && m@
            == script_create_error(path, e@),
    }
}

/// Makes sure the script exists at `path`: a file that exists is used as
/// it is; a missing one gets the default script; a failed write is an error.
pub fn ensure_his_token_script_exists(path: &str, event: ScriptFileEvent) -> (r: ScriptFileAction)
    ensures
        is_script_file_step(path@, event, r),
{
    match event {
        ScriptFileEvent::Checked(exists) => if exists {
            ScriptFileAction::Ready
        } else {
            ScriptFileAction::CreateDefault
        },
        ScriptFileEvent::Written(Ok(())) => ScriptFileAction::Ready,
        ScriptFileEvent::Written(Err(e)) => {
            let mut message = join2("Failed to create HIS token script at ", path);
            message.append(": ");
            message.append(e.as_str());
            ScriptFileAction::Failed(message)
        },
    }
}

/// The default script is written at most once: a missing file is written,
/// a written file is ready, and a file that exists, as it does after it was
/// written, is used as it is, with nothing written again.
pub proof fn law_script_written_once(
    path: Seq<char>,
    missing: ScriptFileAction,
    written: ScriptFileAction,
    checked_again: ScriptFileAction,
)
    requires
        is_script_file_step(path, ScriptFileEvent::Checked(false), missing),
        is_script_file_step(path, ScriptFileEvent::Written(Ok(())), written),
        is_script_file_step(path, ScriptFileEvent::Checked(true), checked_again),
    ensures
        missing is CreateDefault,
        written is Ready,
        checked_again is Ready,
{
}

/// The script's code, or why it could not be read from `path`.
pub fn his_token_script_code(path: &str, read: Result<String, String>) -> (r: Result<String, String>)
    ensures
        match read {
            Ok(code) => r matches Ok(c) && c@ == code@,
            Err(e) => r matches Err(m) && m@ == script_read_error(path@, e@),
        },
{
    match read {
        Ok(code) => Ok(code),
        Err(e) => {
            let mut message = join2("Failed to read HIS token script at ", path);
            message.append(": ");
            message.append(e.as_str());
            Err(message)
        },
    }
}

/// A status that counts as a success: 200 to 299.
pub open spec fn is_success_status(status: u16) -> bool {
    200 <= status <= 299
}

/// Whether a response status counts as a success: 200 to 299.
pub fn status_is_ok(status: u16) -> (r: bool)
    ensures
        r == (200 <= status <= 299),
{
    200 <= status && status <= 299
}

/// The timeout of a script request, in seconds: the script's own, held
/// between the shortest and the longest allowed, or the default.
pub open spec fn request_timeout(timeout_secs: Option<u64>) -> u64 {
    match timeout_secs {
        None => DEFAULT_REQUEST_TIMEOUT_SECS,
        Some(t) => if t < MIN_REQUEST_TIMEOUT_SECS {
            MIN_REQUEST_TIMEOUT_SECS
        } else if t > MAX_REQUEST_TIMEOUT_SECS {
            MAX_REQUEST_TIMEOUT_SECS
        } else {
            t
        },
    }
}

/// The timeout of a script request: the script's own, held between 2 and
/// 30 seconds, or 10 seconds when it gives none.
pub fn script_request_timeout_secs(timeout_secs: Option<u64>) -> (r: u64)
    ensures
        r == request_timeout(timeout_secs),
        MIN_REQUEST_TIMEOUT_SECS <= r <= MAX_REQUEST_TIMEOUT_SECS,
{
    let t = match timeout_secs {
        Some(t) => t,
        None => DEFAULT_REQUEST_TIMEOUT_SECS,
    };
    if t < MIN_REQUEST_TIMEOUT_SECS {
        MIN_REQUEST_TIMEOUT_SECS
    } else if t > MAX_REQUEST_TIMEOUT_SECS {
        MAX_REQUEST_TIMEOUT_SECS
    } else {
        t
    }
}

/// A request that the HIS token script asks for.
pub struct ScriptRequestConfig {
    pub url: String,
    pub method: String,
    /// Header names and values, in the order the script gave them.
    pub headers: Vec<(String, String)>,
    /// The body: a JSON string is sent as it is, any other value as JSON.
    pub body: Option<serde_json::Value>,
    pub timeout_secs: Option<u64>,
}

/// The error for a script request without a URL.
pub open spec fn empty_url_error() -> Seq<char> {
    "HIS token request.url cannot be empty"@
}

/// A script request is refused when its URL is empty once trimmed;
/// otherwise it is kept as it is.
pub fn validate_script_request_config(request: ScriptRequestConfig) -> (r: Result<ScriptRequestConfig, String>)
    ensures
        trim_chars(request.url@).len() == 0 ==> (r matches Err(m) && m@ == empty_url_error()),
        trim_chars(request.url@).len() != 0 ==> r == Ok::<ScriptRequestConfig, String>(request),
{
    if str_trim(request.url.as_str()).is_empty() {
        return Err(owned("HIS token request.url cannot be empty"));
    }
    Ok(request)
}

/// Bytes that `Method::from_bytes` accepts: one or more token bytes.
pub open spec fn valid_method(b: Seq<u8>) -> bool {
    &&& b.len() >= 1
    &&& forall|i: int| 0 <= i < b.len() ==> is_token_byte(#[trigger] b[i])
}

/// `str::parse::<Method>` succeeds: it accepts exactly the methods of one
/// or more token bytes, standard or not.
#[verifier::external_body]
fn is_http_method(text: &str) -> (r: bool)
    ensures
        r <==> valid_method(text.spec_bytes()),
{
    text.parse::<Method>().is_ok()
}

/// The error for a script request whose method HTTP does not accept.
pub open spec fn method_error(method: Seq<char>) -> Seq<char> {
    "HIS token script contains unsupported HTTP method: "@ + method
}

/// Where the headers of script requests come from, in errors.
pub open spec fn script_request_headers_source() -> Seq<char> {
    "hisToken.request.headers"@
}

/// The headers of a script request, names trimmed, in order; or the error
/// of the first one that is refused.
pub open spec fn script_request_headers(headers: Seq<HeaderText>) -> Result<Seq<HeaderText>, Seq<char>>
    decreases headers.len(),
{
    if headers.len() == 0 {
        Ok(Seq::empty())
    } else {
        match script_request_headers(headers.drop_last()) {
            Err(e) => Err(e),
            Ok(before) => {
                let last = headers.last();
                match normalized_header_name(script_request_headers_source(), last.0) {
                    Err(e) => Err(e),
                    Ok(name) => if valid_header_value(encode_utf8(last.1)) {
                        Ok(before.push((name, last.1)))
                    } else {
                        Err(invalid_value_error(script_request_headers_source(), name))
                    },
                }
            },
        }
    }
}

/// A script request checked and ready to be sent.
pub struct PreparedScriptRequest {
    /// The method as the script wrote it, which HTTP accepts.
    pub method: String,
    pub url: String,
    pub timeout_secs: u64,
    pub headers: Vec<(String, String)>,
    pub body: Option<serde_json::Value>,
}

/// Pairs of strings as pairs of texts.
pub open spec fn pair_texts(pairs: Seq<(String, String)>) -> Seq<HeaderText> {
    pairs.map_values(|e: (String, String)| (e.0@, e.1@))
}

/// Checks a script request before it is sent: its method, then each of its
/// headers; works out its timeout.
pub fn prepare_script_request(config: ScriptRequestConfig) -> (r: Result<PreparedScriptRequest, String>)
    ensures
        !valid_method(encode_utf8(config.method@)) ==> (r matches Err(m) && m@ == method_error(config.method@)),
        valid_method(encode_utf8(config.method@)) ==> match script_request_headers(pair_texts(config.headers@)) {
            Err(e) => r matches Err(m) && m@ == e,
            Ok(headers) => r matches Ok(p) && {
                &&& p.method == config.method
                &&& p.url == config.url
                &&& p.timeout_secs == request_timeout(config.timeout_secs)
                &&& pair_texts(p.headers@) == headers
                &&& p.body == config.body
            },
        },
{
    if !is_http_method(config.method.as_str()) {
        return Err(join2("HIS token script contains unsupported HTTP method: ", config.method.as_str()));
    }
    let timeout_secs = script_request_timeout_secs(config.timeout_secs);
    let ghost inputs = pair_texts(config.headers@);
    let mut headers: Vec<(String, String)> = Vec::new();
    let mut i: usize = 0;
    assert(inputs.take(0) =~= Seq::<HeaderText>::empty());
    assert(pair_texts(headers@) =~= Seq::<HeaderText>::empty());
    while i < config.headers.len()
        invariant
            i <= config.headers@.len(),
            valid_method(encode_utf8(config.method@)),
            inputs == pair_texts(config.headers@),
            script_request_headers(inputs.take(i as int)) == Ok::<_, Seq<char>>(pair_texts(headers@)),
        decreases config.headers@.len() - i,
    {
        assert(inputs.take(i + 1).drop_last() =~= inputs.take(i as int));
        assert(inputs.take(i + 1).last() == inputs[i as int]);
        let key = config.headers[i].0.as_str();
        let value = config.headers[i].1.as_str();
        let name = match normalize_header_name("hisToken.request.headers", key) {
            Ok(name) => name,
            Err(e) => {
                proof {
                    lemma_request_headers_error_stays(inputs, i + 1);
                }
                return Err(e);
            },
        };
        match validate_header_value("hisToken.request.headers", name.as_str(), value) {
            Ok(()) => {},
            Err(e) => {
                proof {
                    lemma_request_headers_error_stays(inputs, i + 1);
                }
                return Err(e);
            },
        }
        let ghost before = pair_texts(headers@);
        headers.push((name, owned(value)));
        assert(pair_texts(headers@) =~= before.push((trim_chars(inputs[i as int].0), inputs[i as int].1)));
        i = i + 1;
    }
    assert(inputs.take(config.headers@.len() as int) =~= inputs);
    Ok(PreparedScriptRequest { method: config.method, url: config.url, timeout_secs, headers, body: config.body })
}

/// Once a header is refused, the headers after it change nothing.
pub proof fn lemma_request_headers_error_stays(headers: Seq<HeaderText>, k: int)
    requires
        0 <= k <= headers.len(),
        script_request_headers(headers.take(k)) is Err,
    ensures
        script_request_headers(headers) == script_request_headers(headers.take(k)),
    decreases headers.len() - k,
{
    if k == headers.len() {
        assert(headers.take(k) =~= headers);
    } else {
        assert(headers.take(k + 1).drop_last() =~= headers.take(k));
        lemma_request_headers_error_stays(headers, k + 1);
    }
}

/// A character that a header value shows as text: visible ASCII, a space
/// or a tab.
pub open spec fn is_visible_char(c: char) -> bool {
    c == '\t' || (' ' <= c && c <= '~')
}

/// Every character of `s` is one that a header value shows as text.
pub open spec fn is_visible_text(s: Seq<char>) -> bool {
    forall|i: int| 0 <= i < s.len() ==> is_visible_char(#[trigger] s[i])
}

/// Whether every character of `s` is one that a header value shows as text.
pub fn visible_text(s: &str) -> (r: bool)
    ensures
        r == is_visible_text(s@),
{
    let n = s.unicode_len();
    let mut i: usize = 0;
    while i < n
        invariant
            n == s@.len(),
            i <= n,
            forall|j: int| 0 <= j < i ==> is_visible_char(#[trigger] s@[j]),
        decreases n - i,
    {
        let c = s.get_char(i);
        if !(c == '\t' || (' ' <= c && c <= '~')) {
            assert(!is_visible_char(s@[i as int]));
            return false;
        }
        i = i + 1;
    }
    true
}

/// The response headers that the script is shown: those whose values are
/// text, in order.
pub open spec fn visible_headers(headers: Seq<HeaderText>) -> Seq<HeaderText>
    decreases headers.len(),
{
    if headers.len() == 0 {
        Seq::empty()
    } else if is_visible_text(headers.last().1) {
        visible_headers(headers.drop_last()).push(headers.last())
    } else {
        visible_headers(headers.drop_last())
    }
}

/// The response headers that the script is shown, out of all that came:
/// those whose values are text, in order.
pub fn script_response_headers(headers: &Vec<(String, String)>) -> (r: Vec<(String, String)>)
    ensures
        pair_texts(r@) == visible_headers(pair_texts(headers@)),
{
    let ghost texts = pair_texts(headers@);
    let mut r: Vec<(String, String)> = Vec::new();
    let mut i: usize = 0;
    assert(texts.take(0) =~= Seq::<HeaderText>::empty());
    assert(pair_texts(r@) =~= Seq::<HeaderText>::empty());
    while i < headers.len()
        invariant
            i <= headers@.len(),
            texts == pair_texts(headers@),
            pair_texts(r@) == visible_headers(texts.take(i as int)),
        decreases headers@.len() - i,
    {
        assert(texts.take(i + 1).drop_last() =~= texts.take(i as int));
        assert(texts.take(i + 1).last() == texts[i as int]);
        if visible_text(headers[i].1.as_str()) {
            let ghost before = pair_texts(r@);
            r.push((headers[i].0.clone(), headers[i].1.clone()));
            assert(pair_texts(r@) =~= before.push(texts[i as int]));
        }
        i = i + 1;
    }
    assert(texts.take(headers@.len() as int) =~= texts);
    r
}

/// A response to a script request, as the script is shown it.
pub struct ScriptHttpResponse {
    pub status: u16,
    /// Response headers whose values are text, name and value, in order.
    pub headers: Vec<(String, String)>,
    /// The body as it came.
    pub body: String,
}

/// The lower-case hexadecimal digit `d`.
pub open spec fn hex_digit(d: nat) -> char {
    if d < 10 {
        (48 + d) as char
    } else {
        (87 + d) as char
    }
}

/// How `serde_json` writes the character `c` inside a JSON string: `"`
/// and `\` after a backslash; backspace, tab, line feed, form feed and
/// carriage return as `\b`, `\t`, `\n`, `\f`, `\r`; the other control
/// characters below 32 as `\u00` and two lower-case hexadecimal digits;
/// every other character as it is.
pub open spec fn escaped_char(c: char) -> Seq<char> {
    let n = c as u32;
    if c == '"' {
        seq!['\\', '"']
    } else if c == '\\' {
        seq!['\\', '\\']
    } else if n == 8 {
        seq!['\\', 'b']
    } else if n == 9 {
        seq!['\\', 't']
    } else if n == 10 {
        seq!['\\', 'n']
    } else if n == 12 {
        seq!['\\', 'f']
    } else if n == 13 {
        seq!['\\', 'r']
    } else if n < 32 {
        seq!['\\', 'u', '0', '0', hex_digit((n / 16) as nat), hex_digit((n % 16) as nat)]
    } else {
        seq![c]
    }
}

/// The characters of `s`, each as `serde_json` writes it inside a string.
pub open spec fn escaped_text(s: Seq<char>) -> Seq<char>
    decreases s.len(),
{
    if s.len() == 0 {
        Seq::empty()
    } else {
        escaped_text(s.drop_last()) + escaped_char(s.last())
    }
}

/// The JSON string literal of `s`, as `serde_json` writes it: `s` escaped,
/// between double quotes.
pub open spec fn json_string_text(s: Seq<char>) -> Seq<char> {
    seq!['"'] + escaped_text(s) + seq!['"']
}

/// `serde_json::to_string` of a `str`: the JSON string literal of `s`,
/// escaped as [`escaped_char`] says (the escape table of `serde_json`'s
/// `format_escaped_str`). It never fails for a string.
#[verifier::external_body]
fn json_string(s: &str) -> (r: String)
    ensures
        r@ == json_string_text(s@),
{
    serde_json::to_string(s).unwrap()
}

/// The compact JSON text that `serde_json` writes for the document `text`
/// once parsed, or nothing when `text` is no JSON document.
pub uninterp spec fn compact_json_text(text: Seq<char>) -> Option<Seq<char>>;

/// `serde_json::from_str::<Value>` of `text`, written again with
/// `Value::to_string`: the compact text of the document, or nothing when
/// `text` does not parse.
#[verifier::external_body]
fn compact_json(text: &str) -> (r: Option<String>)
    ensures
        match r {
            Some(t) => compact_json_text(text@) == Some(t@),
            None => compact_json_text(text@) is None,
        },
{
    serde_json::from_str::<serde_json::Value>(text).ok().map(|v| v.to_string())
}

/// The JSON text that a response body stands for: the body itself as
/// compact JSON when it is a JSON document, otherwise the body as a JSON
/// string.
pub open spec fn body_json_text(body: Seq<char>) -> Seq<char> {
    match compact_json_text(body) {
        Some(t) => t,
        None => json_string_text(body),
    }
}

/// The JSON text of a response body: the body as compact JSON when it is a
/// JSON document, otherwise the body as a JSON string.
pub fn response_body_json(body: &str) -> (r: String)
    ensures
        r@ == body_json_text(body@),
{
    match compact_json(body) {
        Some(t) => t,
        None => json_string(body),
    }
}

/// `items` separated by commas.
pub open spec fn comma_joined(items: Seq<Seq<char>>) -> Seq<char>
    decreases items.len(),
{
    if items.len() == 0 {
        Seq::empty()
    } else if items.len() == 1 {
        items[0]
    } else {
        comma_joined(items.drop_last()) + ","@ + items.last()
    }
}

/// `items` separated by commas.
pub fn comma_join(items: &Vec<String>) -> (r: String)
    ensures
        r@ == comma_joined(items@.map_values(|s: String| s@)),
{
    let ghost texts = items@.map_values(|s: String| s@);
    let mut joined = String::new();
    let mut i: usize = 0;
    assert(texts.take(0) =~= Seq::<Seq<char>>::empty());
    while i < items.len()
        invariant
            i <= items@.len(),
            texts == items@.map_values(|s: String| s@),
            joined@ == comma_joined(texts.take(i as int)),
        decreases items@.len() - i,
    {
        assert(texts.take(i + 1).drop_last() =~= texts.take(i as int));
        if i > 0 {
            joined.append(",");
        }
        joined.append(items[i].as_str());
        if i == 0 {
            assert(texts.take(1) =~= seq![texts[0]]);
            assert(joined@ =~= comma_joined(texts.take(1)));
        }
        i = i + 1;
    }
    assert(texts.take(items@.len() as int) =~= texts);
    joined
}

/// The JSON array whose elements have the JSON texts `items`.
pub open spec fn json_array_text(items: Seq<Seq<char>>) -> Seq<char> {
    "["@ + comma_joined(items) + "]"@
}

/// The JSON array of the JSON texts `items`, as `serde_json` writes it.
pub fn json_array_of(items: &Vec<String>) -> (r: String)
    ensures
        r@ == json_array_text(items@.map_values(|s: String| s@)),
{
    let joined = comma_join(items);
    let mut r = join2("[", joined.as_str());
    r.append("]");
    r
}

/// The JSON object member `name: value` for a string value.
pub open spec fn string_member_text(member: HeaderText) -> Seq<char> {
    json_string_text(member.0) + ":"@ + json_string_text(member.1)
}

/// The compact JSON object whose members are the names and string values
/// of `pairs`, in order.
pub open spec fn string_object_text(pairs: Seq<HeaderText>) -> Seq<char> {
    "{"@ + comma_joined(pairs.map_values(|p: HeaderText| string_member_text(p))) + "}"@
}

/// The compact JSON object whose members are the names and string values
/// of `pairs`, in order.
pub fn string_object_json(pairs: &Vec<(String, String)>) -> (r: String)
    ensures
        r@ == string_object_text(pair_texts(pairs@)),
{
    let ghost texts = pair_texts(pairs@);
    let mut members: Vec<String> = Vec::new();
    let mut i: usize = 0;
    while i < pairs.len()
        invariant
            i <= pairs@.len(),
            texts == pair_texts(pairs@),
            members@.len() == i,
            forall|j: int| 0 <= j < i ==> #[trigger] members@[j]@ == string_member_text(texts[j]),
        decreases pairs@.len() - i,
    {
        let mut member = json_string(pairs[i].0.as_str());
        member.append(":");
        let value = json_string(pairs[i].1.as_str());
        member.append(value.as_str());
        members.push(member);
        i = i + 1;
    }
    let joined = comma_join(&members);
    assert(members@.map_values(|s: String| s@) =~= texts.map_values(|p: HeaderText| string_member_text(p)));
    let mut r = join2("{", joined.as_str());
    r.append("}");
    r
}

/// The decimal digit `d`.
pub open spec fn digit_char(d: nat) -> char {
    (48 + d) as char
}

/// The decimal text of `n`, without leading zeros.
pub open spec fn decimal_text(n: nat) -> Seq<char>
    decreases n,
{
    if n < 10 {
        seq![digit_char(n)]
    } else {
        decimal_text(n / 10) + seq![digit_char(n % 10)]
    }
}

fn digit_text(d: u64) -> (r: &'static str)
    requires
        d < 10,
    ensures
        r@ == seq![digit_char(d as nat)],
{
    proof {
        reveal_strlit("0");
        reveal_strlit("1");
        reveal_strlit("2");
        reveal_strlit("3");
        reveal_strlit("4");
        reveal_strlit("5");
        reveal_strlit("6");
        reveal_strlit("7");
        reveal_strlit("8");
        reveal_strlit("9");
    }
    if d == 0 { "0" } else if d == 1 { "1" } else if d == 2 { "2" } else if d == 3 { "3" }
    else if d == 4 { "4" } else if d == 5 { "5" } else if d == 6 { "6" } else if d == 7 { "7" }
    else if d == 8 { "8" } else { "9" }
}

/// `n` in decimal, as `serde_json` and `to_string` write an integer.
pub fn decimal(n: u64) -> (r: String)
    ensures
        r@ == decimal_text(n as nat),
    decreases n,
{
    if n < 10 {
        owned(digit_text(n))
    } else {
        let mut r = decimal(n / 10);
        r.append(digit_text(n % 10));
        r
    }
}

/// `a` comes before `b` in the order of `String`: by the first character
/// where they differ, or `a` is a proper prefix of `b`.
pub open spec fn text_less(a: Seq<char>, b: Seq<char>) -> bool
    decreases a.len(),
{
    if a.len() == 0 {
        b.len() > 0
    } else if b.len() == 0 {
        false
    } else if a[0] != b[0] {
        a[0] < b[0]
    } else {
        text_less(a.drop_first(), b.drop_first())
    }
}

/// Whether `a` comes before `b` in the order of `String`.
pub fn str_less(a: &str, b: &str) -> (r: bool)
    ensures
        r == text_less(a@, b@),
{
    let n = a.unicode_len();
    let m = b.unicode_len();
    let mut i: usize = 0;
    assert(a@.skip(0) =~= a@);
    assert(b@.skip(0) =~= b@);
    while i < n && i < m
        invariant
            n == a@.len(),
            m == b@.len(),
            i <= n,
            i <= m,
            text_less(a@, b@) == text_less(a@.skip(i as int), b@.skip(i as int)),
        decreases n - i,
    {
        let ca = a.get_char(i);
        let cb = b.get_char(i);
        assert(a@.skip(i as int)[0] == ca && b@.skip(i as int)[0] == cb);
        if ca != cb {
            return ca < cb;
        }
        assert(a@.skip(i as int).drop_first() =~= a@.skip(i + 1));
        assert(b@.skip(i as int).drop_first() =~= b@.skip(i + 1));
        i = i + 1;
    }
    assert(i == n ==> a@.skip(i as int).len() == 0);
    assert(i == m ==> b@.skip(i as int).len() == 0);
    i == n && i < m
}

/// `headers` with `header` put in place, looking from index `i` on: it
/// replaces the value of the first header of its name; or it goes before
/// the first header whose name comes after its own; or at the end.
pub open spec fn insert_from(headers: Seq<HeaderText>, header: HeaderText, i: nat) -> Seq<HeaderText>
    decreases headers.len() - i,
{
    if i >= headers.len() {
        headers.push(header)
    } else if headers[i as int].0 == header.0 {
        headers.update(i as int, header)
    } else if text_less(header.0, headers[i as int].0) {
        headers.insert(i as int, header)
    } else {
        insert_from(headers, header, i + 1)
    }
}

/// Headers keyed by name in the order of `String`, the last value of each
/// name kept: the map of names to values that `serde_json` writes.
pub open spec fn keyed_headers(headers: Seq<HeaderText>) -> Seq<HeaderText>
    decreases headers.len(),
{
    if headers.len() == 0 {
        Seq::empty()
    } else {
        insert_from(keyed_headers(headers.drop_last()), headers.last(), 0)
    }
}

/// `header` put in place in `headers`, as [`insert_from`] says.
fn insert_keyed(headers: &mut Vec<(String, String)>, name: &str, value: &str)
    ensures
        pair_texts(final(headers)@) == insert_from(pair_texts(old(headers)@), (name@, value@), 0),
{
    let ghost start = pair_texts(headers@);
    let ghost header = (name@, value@);
    let mut i: usize = 0;
    while i < headers.len()
        invariant
            i <= headers@.len(),
            pair_texts(headers@) == start,
            header == (name@, value@),
            start == pair_texts(old(headers)@),
            insert_from(start, header, 0) == insert_from(start, header, i as nat),
        decreases headers@.len() - i,
    {
        assert(start[i as int] == (headers@[i as int].0@, headers@[i as int].1@));
        if str_eq(headers[i].0.as_str(), name) {
            let ghost before = headers@;
            let entry = (owned(name), owned(value));
            headers.set(i, entry);
            assert forall|j: int| 0 <= j < headers@.len() implies #[trigger] pair_texts(headers@)[j] == start.update(i as int, header)[j] by {
                if j != i {
                    assert(headers@[j] == before[j]);
                }
            }
            assert(pair_texts(headers@) =~= start.update(i as int, header));
            return;
        }
        if str_less(name, headers[i].0.as_str()) {
            headers.insert(i, (owned(name), owned(value)));
            assert(pair_texts(headers@) =~= start.insert(i as int, header));
            return;
        }
        i = i + 1;
    }
    headers.push((owned(name), owned(value)));
    assert(pair_texts(headers@) =~= start.push(header));
}

/// The headers keyed by name in the order of `String`, the last value of
/// each name kept, as [`keyed_headers`] says.
pub fn keyed_response_headers(headers: &Vec<(String, String)>) -> (r: Vec<(String, String)>)
    ensures
        pair_texts(r@) == keyed_headers(pair_texts(headers@)),
{
    let ghost texts = pair_texts(headers@);
    let mut r: Vec<(String, String)> = Vec::new();
    let mut i: usize = 0;
    assert(texts.take(0) =~= Seq::<HeaderText>::empty());
    assert(pair_texts(r@) =~= Seq::<HeaderText>::empty());
    while i < headers.len()
        invariant
            i <= headers@.len(),
            texts == pair_texts(headers@),
            pair_texts(r@) == keyed_headers(texts.take(i as int)),
        decreases headers@.len() - i,
    {
        assert(texts.take(i + 1).drop_last() =~= texts.take(i as int));
        assert(texts.take(i + 1).last() == texts[i as int]);
        insert_keyed(&mut r, headers[i].0.as_str(), headers[i].1.as_str());
        i = i + 1;
    }
    assert(texts.take(headers@.len() as int) =~= texts);
    r
}

/// The compact JSON text of an object with the members `body`, `headers`,
/// `ok` and `status`, in that order.
pub open spec fn response_object_text(status: u16, ok: bool, headers_json: Seq<char>, body_json: Seq<char>) -> Seq<char> {
    "{\"body\":"@ + body_json + ",\"headers\":"@ + headers_json + ",\"ok\":"@ + (if ok {
        "true"@
    } else {
        "false"@
    }) + ",\"status\":"@ + decimal_text(status as nat) + "}"@
}

/// The JSON text that the script is shown for a response: its body's JSON
/// text, its headers as an object of strings keyed by name (in the order of
/// `String`, the last value of a name kept), whether its status is a
/// success, and its status.
pub open spec fn response_text(response: ScriptHttpResponse) -> Seq<char> {
    response_object_text(
        response.status,
        is_success_status(response.status),
        string_object_text(keyed_headers(pair_texts(response.headers@))),
        body_json_text(response.body@),
    )
}

/// A response as the JSON text that the script is shown:
/// `{"body":..,"headers":..,"ok":..,"status":..}`.
pub fn serialize_script_response(response: &ScriptHttpResponse) -> (r: String)
    ensures
        r@ == response_text(*response),
{
    let mut r = join2("{\"body\":", response_body_json(response.body.as_str()).as_str());
    r.append(",\"headers\":");
    r.append(string_object_json(&keyed_response_headers(&response.headers)).as_str());
    r.append(",\"ok\":");
    if status_is_ok(response.status) {
        r.append("true");
    } else {
        r.append("false");
    }
    r.append(",\"status\":");
    r.append(decimal(response.status as u64).as_str());
    r.append("}");
    r
}

/// The JSON texts of responses, in order.
pub open spec fn response_texts(responses: Seq<ScriptHttpResponse>) -> Seq<Seq<char>> {
    responses.map_values(|x: ScriptHttpResponse| response_text(x))
}

/// The JSON text of the responses in order, as an array.
pub fn responses_json(responses: &[ScriptHttpResponse]) -> (r: String)
    ensures
        r@ == json_array_text(response_texts(responses@)),
{
    let mut items: Vec<String> = Vec::new();
    let mut i: usize = 0;
    while i < responses.len()
        invariant
            i <= responses@.len(),
            items@.len() == i,
            forall|j: int| 0 <= j < i ==> #[trigger] items@[j]@ == response_text(responses@[j]),
        decreases responses@.len() - i,
    {
        items.push(serialize_script_response(&responses[i]));
        i = i + 1;
    }
    assert(items@.map_values(|s: String| s@) =~= response_texts(responses@));
    json_array_of(&items)
}

/// The input headers as the JSON object text that the script is given.
pub fn input_headers_json(input_headers: &HeaderStrings) -> (r: String)
    ensures
        r@ == string_object_text(input_headers@),
{
    string_object_json(input_headers.pairs())
}

/// The script with the input headers bound to `inputHeaders` before it.
pub open spec fn script_with_input(script_code: Seq<char>, headers_json: Seq<char>) -> Seq<char> {
    "const inputHeaders = "@ + headers_json + ";\n"@ + script_code
}

/// The script preceded by `const inputHeaders = <the input headers as a
/// JSON object>;`.
pub fn build_script_with_input(script_code: &str, input_headers: &HeaderStrings) -> (r: String)
    ensures
        r@ == script_with_input(script_code@, string_object_text(input_headers@)),
{
    let headers_json = input_headers_json(input_headers);
    let mut r = join2("const inputHeaders = ", headers_json.as_str());
    r.append(";\n");
    r.append(script_code);
    r
}

/// Where the headers that the extractor gives come from, in errors.
pub open spec fn extractor_headers_source() -> Seq<char> {
    "hisToken.extractor"@
}

/// The headers that a HIS token run sends: those of the JSON object that
/// the script's extractor gave, gathered as custom headers are, then made
/// into a header map; or why that object is refused.
pub fn his_token_header_map(generated: &JsonValue) -> (r: Result<HeaderMap, String>)
    requires
        merge_json(Seq::empty(), extractor_headers_source(), *generated) matches (headers, None)
            ==> headers.len() <= MAX_HEADER_MAP_NAMES,
    ensures
        match merge_json(Seq::empty(), extractor_headers_source(), *generated) {
            (_, Some(e)) => r matches Err(m) && m@ == e,
            (headers, None) => match header_map_of(extractor_headers_source(), headers) {
                Ok(entries) => r matches Ok(m) && header_map_entries(m) == entries,
                Err(e) => r matches Err(m) && m@ == e,
            },
        },
{
    proof {
        reveal_strlit("hisToken.extractor");
    }
    let headers = match header_strings_from_json_value("hisToken.extractor", generated) {
        Ok(headers) => headers,
        Err(e) => return Err(e),
    };
    header_map_from_strings("hisToken.extractor", &headers)
}

} // verus!
