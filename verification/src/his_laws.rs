//! What holds of the HIS token flow as a whole: what the script is handed,
//! what its answers become, and how responses and requests are written.

use vstd::prelude::*;
use vstd::utf8::encode_utf8;
use crate::text::trim_chars;
use crate::wire::valid_header_value;
use crate::header_list::{HeaderText, names_distinct};
use crate::custom::normalized_header_name;
use crate::his_token::{
    ScriptHttpResponse, decimal_text, digit_char, script_request_headers, script_request_headers_source,
    is_visible_char, is_visible_text, visible_headers, script_with_input, string_object_text,
    json_array_text, response_texts, response_text, escaped_text, escaped_char, request_timeout,
    text_less, insert_from, keyed_headers, is_success_status, body_json_text, compact_json_text,
    json_string_text,
};
use crate::script::{
    JsTerm, ScriptMember, ScriptOutcome, NextRequestStep, member_call, js_text_of, js_error,
    is_his_token_request, is_next_request_run, is_extractor_run, is_extractor_result,
    is_request_from_object, is_next_request_step, is_call_outcome, is_setup_failure, stage_failure,
    execute_what, is_initial_request, no_initial_request_error, failure_text,
};

verus! {

/// The number that a text of decimal digits stands for.
pub open spec fn decimal_value(s: Seq<char>) -> int
    decreases s.len(),
{
    if s.len() == 0 {
        0
    } else {
        decimal_value(s.drop_last()) * 10 + ((s.last() as u32) as int - 48)
    }
}

/// `c` is one of the digits `0` to `9`.
pub open spec fn is_decimal_digit(c: char) -> bool {
    '0' <= c && c <= '9'
}

/// The status that the script is shown reads back as the same number: its
/// text is not empty, is made of decimal digits, has no leading zero, and
/// stands for the status.
pub proof fn law_decimal_reads_back(n: nat)
    ensures
        decimal_text(n).len() > 0,
        forall|i: int| 0 <= i < decimal_text(n).len() ==> is_decimal_digit(#[trigger] decimal_text(n)[i]),
        n > 0 ==> decimal_text(n)[0] != '0',
        decimal_value(decimal_text(n)) == n,
    decreases n,
{
    if n < 10 {
        let c = digit_char(n);
        assert(c as u32 == 48 + n);
        assert(decimal_text(n) =~= seq![c]);
        assert(seq![c].drop_last() =~= Seq::<char>::empty());
        assert(seq![c].last() == c);
        assert(decimal_value(seq![c]) == decimal_value(Seq::<char>::empty()) * 10 + ((c as u32) as int - 48));
        assert(decimal_value(Seq::<char>::empty()) == 0);
    } else {
        law_decimal_reads_back(n / 10);
        let t = decimal_text(n);
        let prefix = decimal_text(n / 10);
        let d = digit_char(n % 10);
        assert(d as u32 == 48 + n % 10);
        assert(t == prefix + seq![d]);
        assert(t.drop_last() =~= prefix);
        assert(t.last() == d);
        assert forall|i: int| 0 <= i < t.len() implies is_decimal_digit(#[trigger] t[i]) by {
            if i < prefix.len() {
                assert(t[i] == prefix[i]);
            }
        }
        assert(t[0] == prefix[0]);
        assert(decimal_value(t) == decimal_value(prefix) * 10 + ((d as u32) as int - 48));
        assert(n == 10 * (n / 10) + n % 10) by (nonlinear_arith);
    }
}

/// What `nextRequest` is handed as the previous response is the JSON text
/// of the last of the responses so far, whichever run the script makes.
pub proof fn law_next_request_gets_last_response(
    script_code: Seq<char>,
    input_headers: Seq<HeaderText>,
    responses: Seq<ScriptHttpResponse>,
    r: Result<Option<String>, String>,
)
    requires
        responses.len() > 0,
        is_his_token_request(script_code, input_headers, responses, r),
    ensures
        is_next_request_run(
            script_with_input(script_code, string_object_text(input_headers)),
            response_text(responses[responses.len() - 1]),
            string_object_text(input_headers),
            json_array_text(response_texts(responses)),
            true,
            r,
        ),
{
}

/// Before any response `nextRequest` is handed `null` as the previous
/// response and an empty list of responses.
pub proof fn law_first_request_gets_no_response(
    script_code: Seq<char>,
    input_headers: Seq<HeaderText>,
    r: Result<Option<String>, String>,
)
    requires
        is_his_token_request(script_code, input_headers, Seq::empty(), r),
    ensures
        is_next_request_run(
            script_with_input(script_code, string_object_text(input_headers)),
            "null"@,
            string_object_text(input_headers),
            "[]"@,
            false,
            r,
        ),
{
    reveal_strlit("[");
    reveal_strlit("]");
    reveal_strlit("[]");
    assert(response_texts(Seq::<ScriptHttpResponse>::empty()) =~= Seq::<Seq<char>>::empty());
    assert(json_array_text(Seq::<Seq<char>>::empty()) =~= "[]"@);
}

/// A request that `nextRequest` gives is the JSON text of what it returned
/// for exactly the arguments it was handed, in order; before any response
/// it may instead be the JSON text of the script's `request` object.
pub proof fn law_next_request_is_its_output(
    script: Seq<char>,
    first: Seq<char>,
    second: Seq<char>,
    third: Seq<char>,
    has_previous: bool,
    t: String,
)
    requires
        is_next_request_run(script, first, second, third, has_previous, Ok(Some(t))),
    ensures
        ({
            ||| js_text_of(
                JsTerm::Stringified(Box::new(member_call(JsTerm::Script(script), ScriptMember::NextRequest, first, second, third))),
                t@,
            )
            ||| !has_previous && js_text_of(
                JsTerm::Stringified(Box::new(JsTerm::Member(Box::new(JsTerm::Script(script)), "request"@))),
                t@,
            )
        }),
{
    let r = Ok::<Option<String>, String>(Some(t));
    let (o, s) = choose|o: ScriptOutcome, s: NextRequestStep|
        #[trigger] is_call_outcome(JsTerm::Script(script), ScriptMember::NextRequest, first, second, third, o)
            && #[trigger] is_next_request_step(o, has_previous, s)
            && match s {
            NextRequestStep::Finished(x) => r == x,
            NextRequestStep::ReadRequestObject => exists|q: ScriptOutcome|
                #[trigger] crate::script::is_request_object_outcome(JsTerm::Script(script), q)
                    && #[trigger] is_request_from_object(q, r),
        };
    match s {
        NextRequestStep::Finished(x) => {},
        NextRequestStep::ReadRequestObject => {
            let q = choose|q: ScriptOutcome|
                #[trigger] crate::script::is_request_object_outcome(JsTerm::Script(script), q)
                    && #[trigger] is_request_from_object(q, r);
        },
    }
}

/// A failed extractor run is never a success: an outcome that failed is
/// the answer's error as it is, and a success is exactly an output.
pub proof fn law_extractor_failure_is_kept(o: ScriptOutcome, r: Result<String, String>)
    requires
        is_extractor_result(o, r),
    ensures
        o matches ScriptOutcome::Failed(m) ==> r == Err::<String, String>(m),
        r matches Ok(t) ==> o == ScriptOutcome::Output(Some(t)),
{
}

/// Headers from the extractor are the JSON text of what it returned for
/// exactly the arguments it was handed, in order: a run that succeeds gives
/// that text and nothing else.
pub proof fn law_extractor_ok_is_its_output(
    script: Seq<char>,
    first: Seq<char>,
    second: Seq<char>,
    third: Seq<char>,
    t: String,
)
    requires
        is_extractor_run(script, first, second, third, Ok(t)),
    ensures
        js_text_of(
            JsTerm::Stringified(Box::new(member_call(JsTerm::Script(script), ScriptMember::Extractor, first, second, third))),
            t@,
        ),
{
    let o = choose|o: ScriptOutcome|
        #[trigger] is_call_outcome(JsTerm::Script(script), ScriptMember::Extractor, first, second, third, o)
            && #[trigger] is_extractor_result(o, Ok(t));
}

/// An extractor that throws makes the run fail, with the message of a
/// failed call: an error that the call may give, after the name of that
/// failure, is among the answers the run may give.
pub proof fn law_throwing_extractor_fails(
    script: Seq<char>,
    first: Seq<char>,
    second: Seq<char>,
    third: Seq<char>,
    m: String,
)
    requires
        stage_failure(m@, execute_what(ScriptMember::Extractor), member_call(JsTerm::Script(script), ScriptMember::Extractor, first, second, third)),
    ensures
        is_extractor_run(script, first, second, third, Err(m)),
{
    let o = ScriptOutcome::Failed(m);
    assert(is_call_outcome(JsTerm::Script(script), ScriptMember::Extractor, first, second, third, o));
    assert(is_extractor_result(o, Err(m)));
}

/// When every header of a script request is accepted, the prepared headers
/// are the script's headers one for one, in order: the name trimmed, the
/// value as it is.
pub proof fn law_request_headers_kept_in_order(headers: Seq<HeaderText>)
    requires
        script_request_headers(headers) is Ok,
    ensures
        script_request_headers(headers)->Ok_0.len() == headers.len(),
        forall|i: int| 0 <= i < headers.len() ==> #[trigger] script_request_headers(headers)->Ok_0[i]
            == (trim_chars(headers[i].0), headers[i].1),
    decreases headers.len(),
{
    if headers.len() > 0 {
        let prefix = headers.drop_last();
        law_request_headers_kept_in_order(prefix);
        let before = script_request_headers(prefix)->Ok_0;
        let h = script_request_headers(headers)->Ok_0;
        assert forall|i: int| 0 <= i < headers.len() implies #[trigger] h[i] == (trim_chars(headers[i].0), headers[i].1) by {
            if i < prefix.len() {
                assert(h[i] == before[i]);
                assert(prefix[i] == headers[i]);
            }
        }
    }
}

/// The headers of a script request are accepted exactly when each name,
/// trimmed, is a valid header name and each value a valid header value.
pub proof fn law_request_headers_accepted(headers: Seq<HeaderText>)
    ensures
        script_request_headers(headers) is Ok <==> forall|i: int| 0 <= i < headers.len() ==> {
            &&& #[trigger] normalized_header_name(script_request_headers_source(), headers[i].0) is Ok
            &&& valid_header_value(encode_utf8(headers[i].1))
        },
    decreases headers.len(),
{
    if headers.len() > 0 {
        let prefix = headers.drop_last();
        law_request_headers_accepted(prefix);
        assert forall|i: int| 0 <= i < prefix.len() implies prefix[i] == headers[i] by {}
        if script_request_headers(headers) is Ok {
            assert forall|i: int| 0 <= i < headers.len() implies {
                &&& #[trigger] normalized_header_name(script_request_headers_source(), headers[i].0) is Ok
                &&& valid_header_value(encode_utf8(headers[i].1))
            } by {
                if i < prefix.len() {
                    assert(prefix[i] == headers[i]);
                    assert(normalized_header_name(script_request_headers_source(), prefix[i].0) is Ok);
                }
            }
        }
        if forall|i: int| 0 <= i < headers.len() ==> {
            &&& #[trigger] normalized_header_name(script_request_headers_source(), headers[i].0) is Ok
            &&& valid_header_value(encode_utf8(headers[i].1))
        } {
            assert forall|i: int| 0 <= i < prefix.len() implies {
                &&& #[trigger] normalized_header_name(script_request_headers_source(), prefix[i].0) is Ok
                &&& valid_header_value(encode_utf8(prefix[i].1))
            } by {
                assert(prefix[i] == headers[i]);
                assert(normalized_header_name(script_request_headers_source(), headers[i].0) is Ok);
            }
            assert(normalized_header_name(script_request_headers_source(), headers[headers.len() - 1].0) is Ok);
        }
    }
}

/// A header value is shown to the script exactly as `HeaderValue::to_str`
/// accepts it: every character a tab or one of the printable ASCII
/// characters from space to `~`, `;` and all other punctuation included.
pub proof fn law_visible_is_printable_ascii(s: Seq<char>)
    ensures
        is_visible_text(s) <==> forall|i: int| 0 <= i < s.len() ==>
            ((#[trigger] s[i]) as int == 9 || (32 <= (s[i] as int) && (s[i] as int) <= 126)),
{
    assert forall|c: char| #[trigger] is_visible_char(c) <==> (c as int == 9 || (32 <= (c as int) && (c as int) <= 126)) by {
        assert((' ' <= c) <==> (32 <= (c as int)));
        assert((c <= '~') <==> ((c as int) <= 126));
        assert((c == '\t') <==> ((c as int) == 9));
    }
}

/// Response headers whose values are all visible text are all shown to
/// the script, in their order; none that is shown has a value that is not.
pub proof fn law_text_headers_all_shown(headers: Seq<HeaderText>)
    ensures
        (forall|i: int| 0 <= i < headers.len() ==> is_visible_text(#[trigger] headers[i].1))
            ==> visible_headers(headers) == headers,
        forall|j: int| 0 <= j < visible_headers(headers).len() ==> is_visible_text(#[trigger] visible_headers(headers)[j].1),
        visible_headers(headers).len() <= headers.len(),
    decreases headers.len(),
{
    if headers.len() > 0 {
        let prefix = headers.drop_last();
        law_text_headers_all_shown(prefix);
        if forall|i: int| 0 <= i < headers.len() ==> is_visible_text(#[trigger] headers[i].1) {
            assert forall|i: int| 0 <= i < prefix.len() implies is_visible_text(#[trigger] prefix[i].1) by {
                assert(prefix[i] == headers[i]);
            }
            assert(is_visible_text(headers[headers.len() - 1].1));
            assert(prefix.push(headers.last()) =~= headers);
        }
        let v = visible_headers(headers);
        let vp = visible_headers(prefix);
        assert forall|j: int| 0 <= j < v.len() implies is_visible_text(#[trigger] v[j].1) by {
            if j < vp.len() {
                assert(v[j] == vp[j]);
            }
        }
    }
}

/// A text with no quote, no backslash and no control character is written
/// inside a JSON string as it is.
pub proof fn law_plain_text_is_not_escaped(s: Seq<char>)
    requires
        forall|i: int| 0 <= i < s.len() ==> {
            &&& #[trigger] s[i] != '"'
            &&& s[i] != '\\'
            &&& (s[i] as u32) >= 32
        },
    ensures
        escaped_text(s) == s,
    decreases s.len(),
{
    if s.len() > 0 {
        let prefix = s.drop_last();
        assert forall|i: int| 0 <= i < prefix.len() implies {
            &&& #[trigger] prefix[i] != '"'
            &&& prefix[i] != '\\'
            &&& (prefix[i] as u32) >= 32
        } by {
            assert(prefix[i] == s[i]);
        }
        law_plain_text_is_not_escaped(prefix);
        assert(s[s.len() - 1] != '"');
        assert(escaped_char(s.last()) =~= seq![s.last()]);
        assert(prefix + seq![s.last()] =~= s);
    }
}

/// The timeout of a script request is always between 2 and 30 seconds; a
/// timeout in that range is kept, and none gives 10 seconds.
pub proof fn law_request_timeout_range(timeout_secs: Option<u64>)
    ensures
        2 <= request_timeout(timeout_secs) <= 30,
        timeout_secs is None ==> request_timeout(timeout_secs) == 10,
        timeout_secs matches Some(t) ==> (2 <= t <= 30 ==> request_timeout(timeout_secs) == t),
        timeout_secs matches Some(t) ==> (t < 2 ==> request_timeout(timeout_secs) == 2),
        timeout_secs matches Some(t) ==> (t > 30 ==> request_timeout(timeout_secs) == 30),
{
}

/// No text comes before itself.
pub proof fn lemma_text_less_irreflexive(a: Seq<char>)
    ensures
        !text_less(a, a),
    decreases a.len(),
{
    if a.len() > 0 {
        lemma_text_less_irreflexive(a.drop_first());
    }
}

/// The order of texts is transitive.
pub proof fn lemma_text_less_transitive(a: Seq<char>, b: Seq<char>, c: Seq<char>)
    requires
        text_less(a, b),
        text_less(b, c),
    ensures
        text_less(a, c),
    decreases a.len(),
{
    if a.len() > 0 && b.len() > 0 && c.len() > 0 && a[0] == b[0] && b[0] == c[0] {
        lemma_text_less_transitive(a.drop_first(), b.drop_first(), c.drop_first());
    }
}

/// Of two different texts, one comes before the other.
pub proof fn lemma_text_less_total(a: Seq<char>, b: Seq<char>)
    requires
        a != b,
    ensures
        text_less(a, b) || text_less(b, a),
    decreases a.len(),
{
    if a.len() == 0 {
        if b.len() == 0 {
            assert(a =~= b);
        }
    } else if b.len() == 0 {
    } else if a[0] != b[0] {
        assert((a[0] as int) != (b[0] as int));
    } else {
        assert(a.drop_first() != b.drop_first()) by {
            if a.drop_first() == b.drop_first() {
                assert(a =~= seq![a[0]] + a.drop_first());
                assert(b =~= seq![b[0]] + b.drop_first());
            }
        }
        lemma_text_less_total(a.drop_first(), b.drop_first());
    }
}

/// The names of `s` come in the order of `String`, each after the one
/// before it.
pub open spec fn sorted_by_name(s: Seq<HeaderText>) -> bool {
    forall|a: int, b: int| 0 <= a < b < s.len() ==> text_less(#[trigger] s[a].0, #[trigger] s[b].0)
}

/// Headers in strictly increasing order of names have distinct names.
pub proof fn lemma_sorted_distinct(s: Seq<HeaderText>)
    requires
        sorted_by_name(s),
    ensures
        names_distinct(s),
{
    assert forall|a: int, b: int| 0 <= a < b < s.len() implies s[a].0 != s[b].0 by {
        if s[a].0 == s[b].0 {
            lemma_text_less_irreflexive(s[a].0);
        }
    }
}

proof fn lemma_insert_from(s: Seq<HeaderText>, x: HeaderText, i: nat)
    requires
        sorted_by_name(s),
        i <= s.len(),
        forall|a: int| 0 <= a < i ==> text_less(#[trigger] s[a].0, x.0),
    ensures
        sorted_by_name(insert_from(s, x, i)),
        insert_from(s, x, i).contains(x),
        forall|k: int| 0 <= k < insert_from(s, x, i).len() ==> {
            ||| #[trigger] insert_from(s, x, i)[k] == x
            ||| s.contains(insert_from(s, x, i)[k]) && insert_from(s, x, i)[k].0 != x.0
        },
        forall|k: int| 0 <= k < s.len() && #[trigger] s[k].0 != x.0 ==> insert_from(s, x, i).contains(s[k]),
    decreases s.len() - i,
{
    lemma_sorted_distinct(s);
    let r = insert_from(s, x, i);
    if i >= s.len() {
        assert(r == s.push(x));
        assert(r[s.len() as int] == x);
        assert forall|a: int, b: int| 0 <= a < b < r.len() implies text_less(#[trigger] r[a].0, #[trigger] r[b].0) by {
            assert(r[a] == s[a]);
            if b < s.len() {
                assert(r[b] == s[b]);
            }
        }
        assert forall|k: int| 0 <= k < r.len() implies {
            ||| #[trigger] r[k] == x
            ||| s.contains(r[k]) && r[k].0 != x.0
        } by {
            if k < s.len() {
                assert(r[k] == s[k]);
                lemma_text_less_irreflexive(x.0);
            }
        }
        assert forall|k: int| 0 <= k < s.len() && #[trigger] s[k].0 != x.0 implies r.contains(s[k]) by {
            assert(r[k] == s[k]);
        }
    } else if s[i as int].0 == x.0 {
        assert(r == s.update(i as int, x));
        assert(r[i as int] == x);
        assert forall|a: int, b: int| 0 <= a < b < r.len() implies text_less(#[trigger] r[a].0, #[trigger] r[b].0) by {
            assert(r[a].0 == s[a].0);
            assert(r[b].0 == s[b].0);
        }
        assert forall|k: int| 0 <= k < r.len() implies {
            ||| #[trigger] r[k] == x
            ||| s.contains(r[k]) && r[k].0 != x.0
        } by {
            if k != i {
                assert(r[k] == s[k]);
            }
        }
        assert forall|k: int| 0 <= k < s.len() && #[trigger] s[k].0 != x.0 implies r.contains(s[k]) by {
            assert(k != i);
            assert(r[k] == s[k]);
        }
    } else if text_less(x.0, s[i as int].0) {
        assert(r == s.insert(i as int, x));
        assert(r[i as int] == x);
        assert forall|a: int| 0 <= a < r.len() && a != i implies #[trigger] r[a] == (if a < i { s[a] } else { s[a - 1] }) by {}
        assert forall|b: int| i < b < r.len() implies text_less(x.0, #[trigger] r[b].0) by {
            assert(r[b] == s[b - 1]);
            if b - 1 > i {
                lemma_text_less_transitive(x.0, s[i as int].0, s[b - 1].0);
            }
        }
        assert forall|a: int, b: int| 0 <= a < b < r.len() implies text_less(#[trigger] r[a].0, #[trigger] r[b].0) by {
            if a < i && b == i {
            } else if a == i {
            } else if a < i && b < i {
                assert(r[a] == s[a]);
                assert(r[b] == s[b]);
            } else if a < i {
                assert(r[a] == s[a]);
                assert(r[b] == s[b - 1]);
            } else {
                assert(r[a] == s[a - 1]);
                assert(r[b] == s[b - 1]);
            }
        }
        assert forall|k: int| 0 <= k < r.len() implies {
            ||| #[trigger] r[k] == x
            ||| s.contains(r[k]) && r[k].0 != x.0
        } by {
            if k < i {
                assert(r[k] == s[k]);
                lemma_text_less_irreflexive(x.0);
            } else if k > i {
                assert(r[k] == s[k - 1]);
                lemma_text_less_irreflexive(x.0);
            }
        }
        assert forall|k: int| 0 <= k < s.len() && #[trigger] s[k].0 != x.0 implies r.contains(s[k]) by {
            if k < i {
                assert(r[k] == s[k]);
            } else {
                assert(r[k + 1] == s[k]);
            }
        }
    } else {
        lemma_text_less_total(x.0, s[i as int].0);
        assert forall|a: int| 0 <= a < i + 1 implies text_less(#[trigger] s[a].0, x.0) by {}
        lemma_insert_from(s, x, i + 1);
    }
}

/// No later header of `h` has the name of its `i`-th header.
pub open spec fn is_last_of_name(h: Seq<HeaderText>, i: int) -> bool {
    forall|k: int| i < k < h.len() ==> (#[trigger] h[k]).0 != h[i].0
}

/// The response headers that the script is shown are keyed by name as
/// `serde_json` writes a map: names in the order of `String`, each once,
/// with the value of the last header of that name; every name of the
/// response is there, and nothing else.
#[verifier::rlimit(60)]
pub proof fn law_keyed_headers(h: Seq<HeaderText>)
    ensures
        sorted_by_name(keyed_headers(h)),
        names_distinct(keyed_headers(h)),
        forall|j: int| 0 <= j < keyed_headers(h).len() ==> exists|i: int|
            0 <= i < h.len() && h[i] == #[trigger] keyed_headers(h)[j] && is_last_of_name(h, i),
        forall|i: int| 0 <= i < h.len() && is_last_of_name(h, i) ==> keyed_headers(h).contains(#[trigger] h[i]),
    decreases h.len(),
{
    let kh = keyed_headers(h);
    if h.len() == 0 {
        assert(kh =~= Seq::<HeaderText>::empty());
    } else {
        let p = h.drop_last();
        let x = h.last();
        let n = h.len() - 1;
        law_keyed_headers(p);
        let kp = keyed_headers(p);
        assert(kh == insert_from(kp, x, 0));
        lemma_insert_from(kp, x, 0);
        lemma_sorted_distinct(kh);
        assert(h[n] == x);
        assert forall|j: int| 0 <= j < kh.len() implies exists|i: int|
            0 <= i < h.len() && h[i] == #[trigger] kh[j] && is_last_of_name(h, i) by {
            if kh[j] == x {
                assert(is_last_of_name(h, n));
            } else {
                assert(kp.contains(kh[j]) && kh[j].0 != x.0);
                let jj = choose|jj: int| 0 <= jj < kp.len() && kp[jj] == kh[j];
                assert(kp[jj] == kh[j]);
                let i = choose|i: int| 0 <= i < p.len() && p[i] == #[trigger] kp[jj] && is_last_of_name(p, i);
                assert(h[i] == p[i]);
                assert forall|k: int| i < k < h.len() implies (#[trigger] h[k]).0 != h[i].0 by {
                    if k < n {
                        assert(h[k] == p[k]);
                    }
                }
            }
        }
        assert forall|i: int| 0 <= i < h.len() && is_last_of_name(h, i) implies kh.contains(#[trigger] h[i]) by {
            if i == n {
            } else {
                assert(h[i] == p[i]);
                assert(h[n].0 != h[i].0);
                assert forall|k: int| i < k < p.len() implies (#[trigger] p[k]).0 != p[i].0 by {
                    assert(p[k] == h[k]);
                }
                assert(kp.contains(p[i]));
                let jj = choose|jj: int| 0 <= jj < kp.len() && kp[jj] == p[i];
                assert(kp[jj].0 != x.0);
            }
        }
    }
}

/// A response counts as a success exactly when its status is from 200 to
/// 299.
pub proof fn law_success_statuses(status: u16)
    ensures
        is_success_status(status) <==> (200 <= status && status < 300),
{
}

/// What `nextRequest` gave is never lost: a failure stays that failure, an
/// output other than `null` is the next request as it is, and `null` or
/// no output ends the chain.
pub proof fn law_next_request_step_keeps_answer(o: ScriptOutcome, has_previous: bool, s: NextRequestStep)
    requires
        is_next_request_step(o, has_previous, s),
    ensures
        o matches ScriptOutcome::Failed(m) ==> s == NextRequestStep::Finished(Err(m)),
        o matches ScriptOutcome::Output(Some(t)) ==> (trim_chars(t@) != "null"@ <==> s == NextRequestStep::Finished(Ok(Some(t)))),
        o matches ScriptOutcome::Output(Some(t)) ==> (trim_chars(t@) == "null"@ <==> s == NextRequestStep::Finished(Ok(None))),
        o is Output ==> (s matches NextRequestStep::Finished(Ok(Some(t))) ==> o == ScriptOutcome::Output(Some(t))),
        s is ReadRequestObject ==> o is MemberMissing && !has_previous,
{
}

/// The script's `request` object gives the first request only as its own
/// JSON text; every failure stays that failure.
pub proof fn law_request_object_keeps_answer(o: ScriptOutcome, r: Result<Option<String>, String>)
    requires
        is_request_from_object(o, r),
    ensures
        o matches ScriptOutcome::Failed(m) ==> r == Err::<Option<String>, String>(m),
        r matches Ok(Some(t)) ==> o == ScriptOutcome::Output(Some(t)),
        r is Ok ==> r->Ok_0 is Some,
{
}

/// The first request is the script's first answer, a script that asks for
/// nothing at first is refused, and an error stays that error.
pub proof fn law_initial_request(next: Result<Option<String>, String>, r: Result<String, String>)
    requires
        is_initial_request(next, r),
    ensures
        r matches Ok(t) ==> next == Ok::<Option<String>, String>(Some(t)),
        next matches Ok(Some(t)) ==> r == Ok::<String, String>(t),
        next matches Err(e) ==> r == Err::<String, String>(e),
        next == Ok::<Option<String>, String>(None) ==> (r matches Err(m) && m@ == no_initial_request_error()),
{
}

/// A response body that is a JSON document is shown to the script as that
/// document, written compactly; any other body as a JSON string of its
/// text.
pub proof fn law_body_shown_as_json(body: Seq<char>)
    ensures
        compact_json_text(body) matches Some(t) ==> body_json_text(body) == t,
        compact_json_text(body) is None ==> body_json_text(body) == json_string_text(body),
{
}

/// Every error of a script run names the failed step first: the message is
/// the step's name, `: `, and then the engine's own error, unchanged.
pub proof fn law_failure_message(what: Seq<char>, cause: Seq<char>)
    ensures
        failure_text(what, cause).len() == what.len() + 2 + cause.len(),
        failure_text(what, cause).subrange(0, what.len() as int) == what,
        failure_text(what, cause)[what.len() as int] == ':',
        failure_text(what, cause)[what.len() as int + 1] == ' ',
        failure_text(what, cause).subrange(what.len() as int + 2, failure_text(what, cause).len() as int) == cause,
{
    reveal_strlit(": ");
    let m = failure_text(what, cause);
    assert(m.subrange(0, what.len() as int) =~= what);
    assert(m.subrange(what.len() as int + 2, m.len() as int) =~= cause);
}

} // verus!
