//! Gathering and checking the custom request headers of a provider, and
//! turning them into a header map.

use vstd::prelude::*;
use vstd::string::StringSliceAdditionalSpecFns;
use vstd::utf8::encode_utf8;
use reqwest::header::HeaderMap;
use crate::text::{str_trim, trim_chars, owned, join2};
use crate::wire::{
    valid_header_name, valid_header_value, canonical_header_name, check_header_name,
    check_header_value, header_map_entries, header_map_new, header_map_insert, MAX_HEADER_MAP_NAMES,
};
use crate::header_list::{HeaderText, HeaderStrings, set_header};
use crate::json::{JsonValue, header_value_text, json_get, to_header_value_string};
use crate::provider::{Provider, RequestHeadersAuthMode};

verus! {

/// The error for a header name that is empty once trimmed.
pub open spec fn empty_name_error(source: Seq<char>) -> Seq<char> {
    source + " contains an empty header name"@
}

/// The error for a header name that HTTP does not accept.
pub open spec fn invalid_name_error(source: Seq<char>, name: Seq<char>) -> Seq<char> {
    source + " contains invalid header name '"@ + name + "': "@ + "invalid HTTP header name"@
}

/// The error for a header value that HTTP does not accept.
pub open spec fn invalid_value_error(source: Seq<char>, name: Seq<char>) -> Seq<char> {
    source + " contains invalid value for header '"@ + name + "': "@
        + "failed to parse header value"@
}

/// The error for a JSON header whose value is no string, number or boolean.
pub open spec fn value_kind_error(source: Seq<char>, key: Seq<char>) -> Seq<char> {
    source + " header '"@ + key + "' must be a string, number, or boolean"@
}

/// The error for a header source that is no JSON object.
pub open spec fn not_object_error(source: Seq<char>) -> Seq<char> {
    source + " must be a JSON object"@
}

/// A header name as it is used: trimmed, not empty, and made of token
/// bytes only.
pub open spec fn normalized_header_name(source: Seq<char>, raw_name: Seq<char>) -> Result<Seq<char>, Seq<char>> {
    let name = trim_chars(raw_name);
    if name.len() == 0 {
        Err(empty_name_error(source))
    } else if !valid_header_name(encode_utf8(name)) {
        Err(invalid_name_error(source, name))
    } else {
        Ok(name)
    }
}

/// The text of a result, or of its error.
pub open spec fn text_result(r: Result<String, String>) -> Result<Seq<char>, Seq<char>> {
    match r {
        Ok(s) => Ok(s@),
        Err(e) => Err(e@),
    }
}

/// The text of the error of a result, if any.
pub open spec fn error_text(r: Result<(), String>) -> Option<Seq<char>> {
    match r {
        Ok(()) => None,
        Err(e) => Some(e@),
    }
}

/// `headers` with the header `raw_name: raw_value` set, once the name is
/// normalized and the value checked.
pub open spec fn set_checked_header(
    headers: Seq<HeaderText>,
    source: Seq<char>,
    raw_name: Seq<char>,
    raw_value: Seq<char>,
) -> Result<Seq<HeaderText>, Seq<char>> {
    match normalized_header_name(source, raw_name) {
        Err(e) => Err(e),
        Ok(name) => if valid_header_value(encode_utf8(raw_value)) {
            Ok(set_header(headers, name, raw_value))
        } else {
            Err(invalid_value_error(source, name))
        },
    }
}

/// A header as given: its raw name, and its value as text when the value
/// has a text form.
pub type HeaderInput = (Seq<char>, Option<Seq<char>>);

/// `headers` with one more input header set.
pub open spec fn merge_input(headers: Seq<HeaderText>, source: Seq<char>, input: HeaderInput) -> Result<Seq<HeaderText>, Seq<char>> {
    match input.1 {
        None => Err(value_kind_error(source, input.0)),
        Some(value) => set_checked_header(headers, source, input.0, value),
    }
}

/// `headers` with `inputs` set one after the other, up to the first input
/// that is refused: the headers reached, and the error of that input.
pub open spec fn merge_inputs(headers: Seq<HeaderText>, source: Seq<char>, inputs: Seq<HeaderInput>) -> (Seq<HeaderText>, Option<Seq<char>>)
    decreases inputs.len(),
{
    if inputs.len() == 0 {
        (headers, None)
    } else {
        let before = merge_inputs(headers, source, inputs.drop_last());
        if before.1 is Some {
            before
        } else {
            match merge_input(before.0, source, inputs.last()) {
                Ok(after) => (after, None),
                Err(e) => (before.0, Some(e)),
            }
        }
    }
}

/// The members of a JSON object as header inputs.
pub open spec fn json_header_inputs(fields: Seq<(String, JsonValue)>) -> Seq<HeaderInput> {
    fields.map_values(|f: (String, JsonValue)| (f.0@, header_value_text(f.1)))
}

/// Name and value pairs as header inputs.
pub open spec fn string_header_inputs(values: Seq<(String, String)>) -> Seq<HeaderInput> {
    values.map_values(|p: (String, String)| (p.0@, Some(p.1@)))
}

/// `headers` with the members of the JSON object `value` set; a value that
/// is no object is refused.
pub open spec fn merge_json(headers: Seq<HeaderText>, source: Seq<char>, value: JsonValue) -> (Seq<HeaderText>, Option<Seq<char>>) {
    match value {
        JsonValue::Object(fields) => merge_inputs(headers, source, json_header_inputs(fields@)),
        _ => (headers, Some(not_object_error(source))),
    }
}

/// The next step of gathering: nothing more once an error came, nothing
/// for an absent source.
pub open spec fn merge_json_source(state: (Seq<HeaderText>, Option<Seq<char>>), source: Seq<char>, value: Option<JsonValue>) -> (Seq<HeaderText>, Option<Seq<char>>) {
    if state.1 is Some {
        state
    } else {
        match value {
            Some(v) => merge_json(state.0, source, v),
            None => state,
        }
    }
}

/// The headers of the provider's "Request Headers" field, if it has any.
pub open spec fn meta_request_headers(provider: Provider) -> Option<Seq<(String, String)>> {
    match provider.meta {
        Some(meta) => match meta.request_headers {
            Some(h) => Some(h@),
            None => None,
        },
        None => None,
    }
}

/// The state after `settingsConfig.headers` and then
/// `settingsConfig.requestHeaders` are gathered.
pub open spec fn settings_headers_state(provider: Provider) -> (Seq<HeaderText>, Option<Seq<char>>) {
    let first = merge_json_source(
        (Seq::empty(), None),
        "settingsConfig.headers"@,
        json_get(provider.settings_config, "headers"@),
    );
    merge_json_source(
        first,
        "settingsConfig.requestHeaders"@,
        json_get(provider.settings_config, "requestHeaders"@),
    )
}

/// The custom request headers of a provider: `settingsConfig.headers`,
/// then `settingsConfig.requestHeaders`, then the "Request Headers" field,
/// each later one overriding the earlier ones name by name; or the error of
/// the first header that is refused.
pub open spec fn custom_header_inputs(provider: Provider) -> Result<Seq<HeaderText>, Seq<char>> {
    let settings = settings_headers_state(provider);
    let all = if settings.1 is Some {
        settings
    } else {
        match meta_request_headers(provider) {
            Some(h) => merge_inputs(settings.0, "meta.requestHeaders"@, string_header_inputs(h)),
            None => settings,
        }
    };
    match all.1 {
        Some(e) => Err(e),
        None => Ok(all.0),
    }
}

/// The header map entry that a header in text makes, once checked.
pub open spec fn header_map_step(
    entries: Map<Seq<char>, Seq<u8>>,
    source: Seq<char>,
    raw_name: Seq<char>,
    raw_value: Seq<char>,
) -> Result<Map<Seq<char>, Seq<u8>>, Seq<char>> {
    match normalized_header_name(source, raw_name) {
        Err(e) => Err(e),
        Ok(name) => if valid_header_value(encode_utf8(raw_value)) {
            Ok(entries.insert(canonical_header_name(encode_utf8(name)), encode_utf8(raw_value)))
        } else {
            Err(invalid_value_error(source, name))
        },
    }
}

/// The entries of the header map made of `headers` in order, or the error
/// of the first header that is refused.
pub open spec fn header_map_of(source: Seq<char>, headers: Seq<HeaderText>) -> Result<Map<Seq<char>, Seq<u8>>, Seq<char>>
    decreases headers.len(),
{
    if headers.len() == 0 {
        Ok(Map::empty())
    } else {
        match header_map_of(source, headers.drop_last()) {
            Ok(entries) => header_map_step(entries, source, headers.last().0, headers.last().1),
            Err(e) => Err(e),
        }
    }
}

/// The trimmed header name, or why it is refused: empty once trimmed, or
/// not a valid HTTP header name.
pub fn normalize_header_name(source: &str, raw_name: &str) -> (r: Result<String, String>)
    ensures
        text_result(r) == normalized_header_name(source@, raw_name@),
{
    let name = str_trim(raw_name);
    if name.is_empty() {
        return Err(join2(source, " contains an empty header name"));
    }
    match check_header_name(name.as_bytes()) {
        Ok(()) => Ok(owned(name)),
        Err(e) => {
            let mut message = join2(source, " contains invalid header name '");
            message.append(name);
            message.append("': ");
            message.append(e.as_str());
            Err(message)
        },
    }
}

/// Whether HTTP accepts `raw_value` as the value of the header `name`.
pub fn validate_header_value(source: &str, name: &str, raw_value: &str) -> (r: Result<(), String>)
    ensures
        r is Ok <==> valid_header_value(raw_value.spec_bytes()),
        r matches Err(e) ==> e@ == invalid_value_error(source@, name@),
{
    match check_header_value(raw_value) {
        Ok(()) => Ok(()),
        Err(e) => {
            let mut message = join2(source, " contains invalid value for header '");
            message.append(name);
            message.append("': ");
            message.append(e.as_str());
            Err(message)
        },
    }
}

/// Sets the header `raw_name: raw_value` in `output` once its name is
/// normalized and its value checked; `output` is left as it was when the
/// header is refused.
pub fn insert_string_header(output: &mut HeaderStrings, source: &str, raw_name: &str, raw_value: &str) -> (r: Result<(), String>)
    ensures
        match set_checked_header(old(output)@, source@, raw_name@, raw_value@) {
            Ok(headers) => r is Ok && final(output)@ == headers,
            Err(e) => error_text(r) == Some(e) && final(output)@ == old(output)@,
        },
{
    let name = match normalize_header_name(source, raw_name) {
        Ok(name) => name,
        Err(e) => return Err(e),
    };
    match validate_header_value(source, name.as_str(), raw_value) {
        Ok(()) => {},
        Err(e) => return Err(e),
    }
    output.insert(name, owned(raw_value));
    Ok(())
}

/// Once an input is refused, the inputs after it change nothing.
pub proof fn lemma_merge_error_stays(headers: Seq<HeaderText>, source: Seq<char>, inputs: Seq<HeaderInput>, k: int)
    requires
        0 <= k <= inputs.len(),
        merge_inputs(headers, source, inputs.take(k)).1 is Some,
    ensures
        merge_inputs(headers, source, inputs) == merge_inputs(headers, source, inputs.take(k)),
    decreases inputs.len() - k,
{
    if k == inputs.len() {
        assert(inputs.take(k) =~= inputs);
    } else {
        assert(inputs.take(k + 1).drop_last() =~= inputs.take(k));
        lemma_merge_error_stays(headers, source, inputs, k + 1);
    }
}

/// Sets the headers `values` in `output` one after the other, stopping at
/// the first one that is refused.
pub fn merge_string_headers_into_strings(output: &mut HeaderStrings, source: &str, values: &Vec<(String, String)>) -> (r: Result<(), String>)
    ensures
        (final(output)@, error_text(r)) == merge_inputs(old(output)@, source@, string_header_inputs(values@)),
{
    let ghost inputs = string_header_inputs(values@);
    let mut i: usize = 0;
    assert(inputs.take(0) =~= Seq::<HeaderInput>::empty());
    while i < values.len()
        invariant
            i <= values@.len(),
            inputs == string_header_inputs(values@),
            merge_inputs(old(output)@, source@, inputs.take(i as int)) == (output@, None::<Seq<char>>),
        decreases values@.len() - i,
    {
        let r = insert_string_header(output, source, values[i].0.as_str(), values[i].1.as_str());
        assert(inputs.take(i + 1).drop_last() =~= inputs.take(i as int));
        assert(inputs.take(i + 1).last() == inputs[i as int]);
        match r {
            Ok(()) => {},
            Err(e) => {
                proof {
                    lemma_merge_error_stays(old(output)@, source@, inputs, i + 1);
                }
                return Err(e);
            },
        }
        i = i + 1;
    }
    assert(inputs.take(values@.len() as int) =~= inputs);
    Ok(())
}

/// Sets the members of the JSON object `value` in `output` one after the
/// other, stopping at the first one that is refused; a value that is no
/// object is refused as a whole.
pub fn merge_json_headers_into_strings(output: &mut HeaderStrings, source: &str, value: &JsonValue) -> (r: Result<(), String>)
    ensures
        (final(output)@, error_text(r)) == merge_json(old(output)@, source@, *value),
{
    let fields = match value {
        JsonValue::Object(fields) => fields,
        _ => return Err(join2(source, " must be a JSON object")),
    };
    let ghost inputs = json_header_inputs(fields@);
    let mut i: usize = 0;
    assert(inputs.take(0) =~= Seq::<HeaderInput>::empty());
    while i < fields.len()
        invariant
            i <= fields@.len(),
            inputs == json_header_inputs(fields@),
            *value == JsonValue::Object(*fields),
            merge_inputs(old(output)@, source@, inputs.take(i as int)) == (output@, None::<Seq<char>>),
        decreases fields@.len() - i,
    {
        assert(inputs.take(i + 1).drop_last() =~= inputs.take(i as int));
        assert(inputs.take(i + 1).last() == inputs[i as int]);
        let key = fields[i].0.as_str();
        let r = match to_header_value_string(&fields[i].1) {
            None => {
                let mut message = join2(source, " header '");
                message.append(key);
                message.append("' must be a string, number, or boolean");
                Err(message)
            },
            Some(value_text) => insert_string_header(output, source, key, value_text.as_str()),
        };
        match r {
            Ok(()) => {},
            Err(e) => {
                proof {
                    lemma_merge_error_stays(old(output)@, source@, inputs, i + 1);
                }
                return Err(e);
            },
        }
        i = i + 1;
    }
    assert(inputs.take(fields@.len() as int) =~= inputs);
    Ok(())
}

/// The headers that the JSON object `value` gives, or why it is refused.
pub fn header_strings_from_json_value(source: &str, value: &JsonValue) -> (r: Result<HeaderStrings, String>)
    ensures
        match merge_json(Seq::empty(), source@, *value) {
            (headers, None) => r matches Ok(h) && h@ == headers,
            (_, Some(e)) => r matches Err(m) && m@ == e,
        },
{
    let mut headers = HeaderStrings::new();
    match merge_json_headers_into_strings(&mut headers, source, value) {
        Ok(()) => Ok(headers),
        Err(e) => Err(e),
    }
}

/// The custom request headers of a provider, gathered from
/// `settingsConfig.headers`, then `settingsConfig.requestHeaders`, then the
/// "Request Headers" field, each later one overriding the earlier ones;
/// or why one of them is refused.
pub fn extract_custom_request_header_inputs(provider: &Provider) -> (r: Result<HeaderStrings, String>)
    ensures
        match custom_header_inputs(*provider) {
            Ok(headers) => r matches Ok(h) && h@ == headers,
            Err(e) => r matches Err(m) && m@ == e,
        },
{
    let mut headers = HeaderStrings::new();
    match provider.settings_config.get("headers") {
        Some(value) => match merge_json_headers_into_strings(&mut headers, "settingsConfig.headers", value) {
            Ok(()) => {},
            Err(e) => return Err(e),
        },
        None => {},
    }
    match provider.settings_config.get("requestHeaders") {
        Some(value) => match merge_json_headers_into_strings(&mut headers, "settingsConfig.requestHeaders", value) {
            Ok(()) => {},
            Err(e) => return Err(e),
        },
        None => {},
    }
    assert(settings_headers_state(*provider) == (headers@, None::<Seq<char>>));
    match &provider.meta {
        Some(meta) => match &meta.request_headers {
            Some(values) => match merge_string_headers_into_strings(&mut headers, "meta.requestHeaders", values) {
                Ok(()) => {},
                Err(e) => return Err(e),
            },
            None => {},
        },
        None => {},
    }
    Ok(headers)
}

/// Sets the header `raw_name: raw_value` in the header map `headers`, its
/// name in lower case, once the name is normalized and the value checked;
/// `headers` is left as it was when the header is refused.
pub fn insert_header(headers: &mut HeaderMap, source: &str, raw_name: &str, raw_value: &str) -> (r: Result<(), String>)
    requires
        header_map_entries(*old(headers)).dom().len() <= MAX_HEADER_MAP_NAMES,
    ensures
        match header_map_step(header_map_entries(*old(headers)), source@, raw_name@, raw_value@) {
            Ok(entries) => r is Ok && header_map_entries(*final(headers)) == entries,
            Err(e) => error_text(r) == Some(e) && header_map_entries(*final(headers)) == header_map_entries(*old(headers)),
        },
{
    let name = match normalize_header_name(source, raw_name) {
        Ok(name) => name,
        Err(e) => return Err(e),
    };
    match validate_header_value(source, name.as_str(), raw_value) {
        Ok(()) => {},
        Err(e) => return Err(e),
    }
    header_map_insert(headers, name.as_str(), raw_value);
    Ok(())
}

/// The header map made of `values` in order, names in lower case, or why
/// one of them is refused.
pub fn header_map_from_strings(source: &str, values: &HeaderStrings) -> (r: Result<HeaderMap, String>)
    requires
        values@.len() <= MAX_HEADER_MAP_NAMES,
    ensures
        match header_map_of(source@, values@) {
            Ok(entries) => r matches Ok(m) && header_map_entries(m) == entries,
            Err(e) => r matches Err(m) && m@ == e,
        },
{
    let mut headers = header_map_new();
    let mut i: usize = 0;
    let n = values.len();
    assert(values@.take(0) =~= Seq::<HeaderText>::empty());
    while i < n
        invariant
            n == values@.len(),
            n <= MAX_HEADER_MAP_NAMES,
            i <= n,
            header_map_of(source@, values@.take(i as int)) == Ok::<_, Seq<char>>(header_map_entries(headers)),
            header_map_entries(headers).dom().finite(),
            header_map_entries(headers).dom().len() <= i,
        decreases n - i,
    {
        let (name, value) = values.entry(i);
        match insert_header(&mut headers, source, name, value) {
            Ok(()) => {},
            Err(e) => {
                assert(values@.take(i + 1).drop_last() =~= values@.take(i as int));
                proof {
                    lemma_header_map_error_stays(source@, values@, i + 1);
                }
                return Err(e);
            },
        }
        assert(values@.take(i + 1).drop_last() =~= values@.take(i as int));
        i = i + 1;
    }
    assert(values@.take(n as int) =~= values@);
    Ok(headers)
}

/// Once a header is refused, the headers after it change nothing.
pub proof fn lemma_header_map_error_stays(source: Seq<char>, headers: Seq<HeaderText>, k: int)
    requires
        0 <= k <= headers.len(),
        header_map_of(source, headers.take(k)) is Err,
    ensures
        header_map_of(source, headers) == header_map_of(source, headers.take(k)),
    decreases headers.len() - k,
{
    if k == headers.len() {
        assert(headers.take(k) =~= headers);
    } else {
        assert(headers.take(k + 1).drop_last() =~= headers.take(k));
        lemma_header_map_error_stays(source, headers, k + 1);
    }
}

/// The entries of the header map of a provider's custom request headers,
/// or why a header is refused.
pub open spec fn custom_header_map(provider: Provider) -> Result<Map<Seq<char>, Seq<u8>>, Seq<char>> {
    match custom_header_inputs(provider) {
        Err(e) => Err(e),
        Ok(headers) => header_map_of("custom request headers"@, headers),
    }
}

/// The provider's custom request headers as a header map, names in lower
/// case, or why a header is refused.
pub fn extract_custom_request_headers(provider: &Provider) -> (r: Result<HeaderMap, String>)
    requires
        custom_header_inputs(*provider) matches Ok(headers) ==> headers.len() <= MAX_HEADER_MAP_NAMES,
    ensures
        match custom_header_map(*provider) {
            Ok(entries) => r matches Ok(m) && header_map_entries(m) == entries,
            Err(e) => r matches Err(m) && m@ == e,
        },
{
    let inputs = match extract_custom_request_header_inputs(provider) {
        Ok(inputs) => inputs,
        Err(e) => return Err(e),
    };
    header_map_from_strings("custom request headers", &inputs)
}

/// How the provider's headers are used, if it says.
pub open spec fn auth_mode(provider: Provider) -> Option<RequestHeadersAuthMode> {
    match provider.meta {
        Some(meta) => meta.request_headers_auth_mode,
        None => None,
    }
}

/// What the custom request headers of a provider resolve to.
pub enum ResolvedHeaders {
    /// The headers to send.
    Headers(HeaderMap),
    /// The gathered headers are the input of the HIS token script, which
    /// gives the headers to send.
    HisToken(HeaderStrings),
}

/// The custom request headers of a provider: gathered and checked, then
/// either made into the header map to send or, in HIS token mode, handed on
/// as the input of the HIS token script.
pub fn resolve_custom_request_headers(provider: &Provider) -> (r: Result<ResolvedHeaders, String>)
    requires
        auth_mode(*provider) is None ==> (custom_header_inputs(*provider) matches Ok(headers)
            ==> headers.len() <= MAX_HEADER_MAP_NAMES),
    ensures
        auth_mode(*provider) is None ==> match custom_header_map(*provider) {
            Ok(entries) => r matches Ok(ResolvedHeaders::Headers(m)) && header_map_entries(m) == entries,
            Err(e) => r matches Err(m) && m@ == e,
        },
        auth_mode(*provider) is Some ==> match custom_header_inputs(*provider) {
            Err(e) => r matches Err(m) && m@ == e,
            Ok(headers) => r matches Ok(ResolvedHeaders::HisToken(h)) && h@ == headers,
        },
{
    let input_headers = match extract_custom_request_header_inputs(provider) {
        Ok(headers) => headers,
        Err(e) => return Err(e),
    };
    let mode = match &provider.meta {
        Some(meta) => match &meta.request_headers_auth_mode {
            Some(RequestHeadersAuthMode::HisToken) => true,
            None => false,
        },
        None => false,
    };
    if mode {
        Ok(ResolvedHeaders::HisToken(input_headers))
    } else {
        match header_map_from_strings("custom request headers", &input_headers) {
            Ok(map) => Ok(ResolvedHeaders::Headers(map)),
            Err(e) => Err(e),
        }
    }
}

} // verus!
