//! What holds of header gathering as a whole.

use vstd::prelude::*;
use vstd::utf8::encode_utf8;
use crate::text::{trim_chars, lemma_trim_idempotent};
use crate::wire::{valid_header_name, valid_header_value, canonical_header_name};
use crate::header_list::{HeaderText, set_header, names_distinct, has_name, name_index, header_text_map, lemma_set_header};
use crate::custom::{
    HeaderInput, normalized_header_name, set_checked_header, merge_inputs, merge_json_source,
    settings_headers_state, custom_header_inputs, meta_request_headers, string_header_inputs,
    header_map_of, json_header_inputs, merge_json,
};
use crate::json::json_get;
use crate::json::JsonValue;
use crate::provider::Provider;

verus! {

/// A header as gathering keeps it: its name trimmed, not empty and a valid
/// HTTP header name, its value a valid HTTP header value.
pub open spec fn accepted_header(h: HeaderText) -> bool {
    &&& trim_chars(h.0) == h.0
    &&& h.0.len() > 0
    &&& valid_header_name(encode_utf8(h.0))
    &&& valid_header_value(encode_utf8(h.1))
}

/// Every header of `s` is one that gathering keeps.
pub open spec fn all_accepted(s: Seq<HeaderText>) -> bool {
    forall|i: int| 0 <= i < s.len() ==> accepted_header(#[trigger] s[i])
}

/// A normalized name normalizes to itself.
pub proof fn law_normalize_idempotent(source: Seq<char>, raw_name: Seq<char>)
    requires
        normalized_header_name(source, raw_name) is Ok,
    ensures
        normalized_header_name(source, normalized_header_name(source, raw_name)->Ok_0)
            == normalized_header_name(source, raw_name),
{
    lemma_trim_idempotent(raw_name);
}

proof fn lemma_set_checked_keeps(headers: Seq<HeaderText>, source: Seq<char>, raw_name: Seq<char>, raw_value: Seq<char>)
    requires
        names_distinct(headers),
        all_accepted(headers),
        set_checked_header(headers, source, raw_name, raw_value) is Ok,
    ensures
        names_distinct(set_checked_header(headers, source, raw_name, raw_value)->Ok_0),
        all_accepted(set_checked_header(headers, source, raw_name, raw_value)->Ok_0),
{
    let name = trim_chars(raw_name);
    lemma_trim_idempotent(raw_name);
    lemma_set_header(headers, name, raw_value);
    let t = set_header(headers, name, raw_value);
    assert(accepted_header((name, raw_value)));
    assert forall|i: int| 0 <= i < t.len() implies accepted_header(#[trigger] t[i]) by {
        if has_name(headers, name) {
            if i != name_index(headers, name) {
                assert(t[i] == headers[i]);
            }
        } else if i < headers.len() {
            assert(t[i] == headers[i]);
        }
    }
}

/// Gathering keeps names distinct and keeps only accepted headers.
pub proof fn lemma_merge_inputs_keeps(headers: Seq<HeaderText>, source: Seq<char>, inputs: Seq<HeaderInput>)
    requires
        names_distinct(headers),
        all_accepted(headers),
    ensures
        names_distinct(merge_inputs(headers, source, inputs).0),
        all_accepted(merge_inputs(headers, source, inputs).0),
    decreases inputs.len(),
{
    if inputs.len() > 0 {
        lemma_merge_inputs_keeps(headers, source, inputs.drop_last());
        let before = merge_inputs(headers, source, inputs.drop_last());
        if before.1 is None {
            let input = inputs.last();
            if let Some(value) = input.1 {
                if set_checked_header(before.0, source, input.0, value) is Ok {
                    lemma_set_checked_keeps(before.0, source, input.0, value);
                }
            }
        }
    }
}

proof fn lemma_merge_json_keeps(headers: Seq<HeaderText>, source: Seq<char>, value: Option<JsonValue>, state_err: Option<Seq<char>>)
    requires
        names_distinct(headers),
        all_accepted(headers),
    ensures
        names_distinct(merge_json_source((headers, state_err), source, value).0),
        all_accepted(merge_json_source((headers, state_err), source, value).0),
{
    if state_err is None {
        if let Some(v) = value {
            if let JsonValue::Object(fields) = v {
                lemma_merge_inputs_keeps(headers, source, json_header_inputs(fields@));
            }
        }
    }
}

/// The headers gathered from a provider have distinct names, and each is
/// trimmed, not empty, and a valid HTTP header with a valid value.
pub proof fn law_gathered_headers_accepted(provider: Provider)
    requires
        custom_header_inputs(provider) is Ok,
    ensures
        names_distinct(custom_header_inputs(provider)->Ok_0),
        all_accepted(custom_header_inputs(provider)->Ok_0),
{
    let first = merge_json_source(
        (Seq::empty(), None),
        "settingsConfig.headers"@,
        json_get(provider.settings_config, "headers"@),
    );
    lemma_merge_json_keeps(Seq::empty(), "settingsConfig.headers"@,
        json_get(provider.settings_config, "headers"@), None);
    lemma_merge_json_keeps(first.0, "settingsConfig.requestHeaders"@,
        json_get(provider.settings_config, "requestHeaders"@), first.1);
    let settings = settings_headers_state(provider);
    if settings.1 is None {
        if let Some(h) = meta_request_headers(provider) {
            lemma_merge_inputs_keeps(settings.0, "meta.requestHeaders"@, string_header_inputs(h));
        }
    }
}

/// The names that a header map made of `headers` holds: each header's
/// name in lower case.
pub open spec fn canonical_names(headers: Seq<HeaderText>) -> Set<Seq<char>> {
    Set::new(|k: Seq<char>| exists|i: int| 0 <= i < headers.len() && k == canonical_header_name(encode_utf8(#[trigger] headers[i].0)))
}

/// Accepted headers always make a header map, whose names are the
/// headers' names in lower case.
pub proof fn law_accepted_headers_make_header_map(source: Seq<char>, headers: Seq<HeaderText>)
    requires
        all_accepted(headers),
    ensures
        header_map_of(source, headers) is Ok,
        header_map_of(source, headers)->Ok_0.dom() == canonical_names(headers),
    decreases headers.len(),
{
    if headers.len() > 0 {
        let prefix = headers.drop_last();
        assert forall|i: int| 0 <= i < prefix.len() implies accepted_header(#[trigger] prefix[i]) by {
            assert(prefix[i] == headers[i]);
        }
        law_accepted_headers_make_header_map(source, prefix);
        let last = headers.last();
        assert(accepted_header(headers[headers.len() - 1]));
        let before = header_map_of(source, prefix)->Ok_0;
        let k = canonical_header_name(encode_utf8(last.0));
        assert(header_map_of(source, headers) == Ok::<_, Seq<char>>(before.insert(k, encode_utf8(last.1))));
        assert forall|n: Seq<char>| before.insert(k, encode_utf8(last.1)).dom().contains(n) <==> canonical_names(headers).contains(n) by {
            if canonical_names(prefix).contains(n) {
                let i = choose|i: int| 0 <= i < prefix.len() && n == canonical_header_name(encode_utf8(#[trigger] prefix[i].0));
                assert(headers[i] == prefix[i]);
            }
            if canonical_names(headers).contains(n) {
                let i = choose|i: int| 0 <= i < headers.len() && n == canonical_header_name(encode_utf8(#[trigger] headers[i].0));
                if i < prefix.len() {
                    assert(headers[i] == prefix[i]);
                }
            }
            if n == k {
                assert(n == canonical_header_name(encode_utf8(headers[headers.len() - 1].0)));
            }
        }
        assert(before.insert(k, encode_utf8(last.1)).dom() =~= canonical_names(headers));
    } else {
        assert(canonical_names(headers) =~= Set::empty());
    }
}

/// A provider whose headers are all accepted always gets a header map:
/// building it never refuses a header again.
pub proof fn law_gathered_headers_make_header_map(provider: Provider, source: Seq<char>)
    requires
        custom_header_inputs(provider) is Ok,
    ensures
        header_map_of(source, custom_header_inputs(provider)->Ok_0) is Ok,
        header_map_of(source, custom_header_inputs(provider)->Ok_0)->Ok_0.dom()
            == canonical_names(custom_header_inputs(provider)->Ok_0),
{
    law_gathered_headers_accepted(provider);
    law_accepted_headers_make_header_map(source, custom_header_inputs(provider)->Ok_0);
}

/// No input after the `j`-th one has the same name once trimmed.
pub open spec fn is_last_for_name(inputs: Seq<HeaderInput>, j: int) -> bool {
    forall|k: int| j < k < inputs.len() ==> trim_chars(#[trigger] inputs[k].0) != trim_chars(inputs[j].0)
}

/// When no input is refused, each name ends up with the value of the last
/// input of that name, and names that no input gives keep what they had.
pub proof fn law_later_input_wins(headers: Seq<HeaderText>, source: Seq<char>, inputs: Seq<HeaderInput>)
    requires
        names_distinct(headers),
        merge_inputs(headers, source, inputs).1 is None,
    ensures
        names_distinct(merge_inputs(headers, source, inputs).0),
        forall|j: int| 0 <= j < inputs.len() && is_last_for_name(inputs, j) ==> {
            let m = header_text_map(merge_inputs(headers, source, inputs).0);
            &&& m.contains_key(trim_chars(inputs[j].0))
            &&& m[trim_chars(inputs[j].0)] == inputs[j].1->Some_0
        },
        forall|n: Seq<char>|
            #![trigger header_text_map(merge_inputs(headers, source, inputs).0).dom().contains(n)]
            (forall|j: int| 0 <= j < inputs.len() ==> trim_chars(#[trigger] inputs[j].0) != n) ==> {
                let m = header_text_map(merge_inputs(headers, source, inputs).0);
                &&& m.dom().contains(n) == header_text_map(headers).dom().contains(n)
                &&& m.dom().contains(n) ==> m[n] == header_text_map(headers)[n]
            },
    decreases inputs.len(),
{
    if inputs.len() > 0 {
        let prefix = inputs.drop_last();
        law_later_input_wins(headers, source, prefix);
        let before = merge_inputs(headers, source, prefix).0;
        let last = inputs.last();
        let name = trim_chars(last.0);
        let value = last.1->Some_0;
        assert(merge_inputs(headers, source, inputs).0 == set_header(before, name, value));
        lemma_set_header(before, name, value);
        let m = header_text_map(merge_inputs(headers, source, inputs).0);
        assert forall|j: int| 0 <= j < inputs.len() && is_last_for_name(inputs, j) implies {
            &&& m.contains_key(trim_chars(inputs[j].0))
            &&& m[trim_chars(inputs[j].0)] == inputs[j].1->Some_0
        } by {
            if j < inputs.len() - 1 {
                assert(inputs[j] == prefix[j]);
                assert(trim_chars(inputs[inputs.len() - 1].0) != trim_chars(inputs[j].0));
                assert forall|k: int| j < k < prefix.len() implies trim_chars(#[trigger] prefix[k].0) != trim_chars(prefix[j].0) by {
                    assert(prefix[k] == inputs[k]);
                }
                assert(is_last_for_name(prefix, j));
                let pm = header_text_map(before);
                assert(pm.contains_key(trim_chars(prefix[j].0)));
                assert(m == pm.insert(name, value));
            } else {
                assert(m == header_text_map(before).insert(name, value));
            }
        }
        assert forall|n: Seq<char>|
            #![trigger m.dom().contains(n)]
            (forall|j: int| 0 <= j < inputs.len() ==> trim_chars(#[trigger] inputs[j].0) != n) implies {
            &&& m.dom().contains(n) == header_text_map(headers).dom().contains(n)
            &&& m.dom().contains(n) ==> m[n] == header_text_map(headers)[n]
        } by {
            let pm = header_text_map(before);
            assert(pm.dom().contains(n) == header_text_map(headers).dom().contains(n));
            assert(trim_chars(inputs[inputs.len() - 1].0) != n);
            assert forall|j: int| 0 <= j < prefix.len() implies trim_chars(#[trigger] prefix[j].0) != n by {
                assert(prefix[j] == inputs[j]);
            }
        }
    }
}

/// The "Request Headers" field overrides the older `settingsConfig`
/// places: each name it gives gets the value of its last entry of that
/// name.
pub proof fn law_request_headers_field_wins(provider: Provider)
    requires
        custom_header_inputs(provider) is Ok,
        meta_request_headers(provider) is Some,
    ensures
        forall|j: int| 0 <= j < meta_request_headers(provider)->Some_0.len()
            && is_last_for_name(string_header_inputs(meta_request_headers(provider)->Some_0), j) ==> {
            let h = meta_request_headers(provider)->Some_0;
            let m = header_text_map(custom_header_inputs(provider)->Ok_0);
            &&& m.contains_key(trim_chars(h[j].0@))
            &&& m[trim_chars(h[j].0@)] == h[j].1@
        },
{
    law_gathered_headers_accepted(provider);
    let settings = settings_headers_state(provider);
    let h = meta_request_headers(provider)->Some_0;
    let inputs = string_header_inputs(h);
    let first = merge_json_source(
        (Seq::empty(), None),
        "settingsConfig.headers"@,
        json_get(provider.settings_config, "headers"@),
    );
    lemma_merge_json_keeps(Seq::empty(), "settingsConfig.headers"@,
        json_get(provider.settings_config, "headers"@), None);
    lemma_merge_json_keeps(first.0, "settingsConfig.requestHeaders"@,
        json_get(provider.settings_config, "requestHeaders"@), first.1);
    law_later_input_wins(settings.0, "meta.requestHeaders"@, inputs);
    assert forall|j: int| 0 <= j < h.len() && is_last_for_name(inputs, j) implies {
        let m = header_text_map(custom_header_inputs(provider)->Ok_0);
        &&& m.contains_key(trim_chars(h[j].0@))
        &&& m[trim_chars(h[j].0@)] == h[j].1@
    } by {
        assert(inputs[j] == (h[j].0@, Some(h[j].1@)));
    }
}

/// Headers as inputs, each with its value.
pub open spec fn as_inputs(headers: Seq<HeaderText>) -> Seq<HeaderInput> {
    headers.map_values(|h: HeaderText| (h.0, Some(h.1)))
}

/// Gathering headers that gathering produced gives them back unchanged, in
/// the same order.
pub proof fn law_regathering_changes_nothing(source: Seq<char>, headers: Seq<HeaderText>)
    requires
        names_distinct(headers),
        all_accepted(headers),
    ensures
        merge_inputs(Seq::empty(), source, as_inputs(headers)) == (headers, None::<Seq<char>>),
    decreases headers.len(),
{
    if headers.len() > 0 {
        let prefix = headers.drop_last();
        assert forall|i: int| 0 <= i < prefix.len() implies accepted_header(#[trigger] prefix[i]) by {
            assert(prefix[i] == headers[i]);
        }
        assert(as_inputs(headers).drop_last() =~= as_inputs(prefix));
        law_regathering_changes_nothing(source, prefix);
        let last = headers.last();
        assert(accepted_header(headers[headers.len() - 1]));
        assert(!has_name(prefix, last.0)) by {
            if has_name(prefix, last.0) {
                let i = name_index(prefix, last.0);
                assert(headers[i].0 == headers[headers.len() - 1].0);
            }
        }
        assert(set_header(prefix, last.0, last.1) =~= headers);
    } else {
        assert(as_inputs(headers) =~= Seq::<HeaderInput>::empty());
    }
}

/// The headers that a HIS token run sends are exactly those of the object
/// that the extractor gave: once that object is accepted, the header map is
/// always made, and its names are the object's header names in lower case.
pub proof fn law_extractor_headers_make_header_map(source: Seq<char>, generated: JsonValue)
    requires
        merge_json(Seq::empty(), source, generated).1 is None,
    ensures
        header_map_of(source, merge_json(Seq::empty(), source, generated).0) is Ok,
        header_map_of(source, merge_json(Seq::empty(), source, generated).0)->Ok_0.dom()
            == canonical_names(merge_json(Seq::empty(), source, generated).0),
{
    if let JsonValue::Object(fields) = generated {
        lemma_merge_inputs_keeps(Seq::empty(), source, json_header_inputs(fields@));
    }
    law_accepted_headers_make_header_map(source, merge_json(Seq::empty(), source, generated).0);
}

} // verus!
