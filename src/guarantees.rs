use vstd::prelude::*;
use vstd::string::{is_ascii, StringSliceAdditionalSpecFns};
use vstd::utf8::{
    decode_utf8, valid_utf8,
    decode_utf8_encode_utf8, encode_utf8, is_leading_byte_width_1, partial_valid_utf8,
    partial_valid_utf8_extend_ascii_block,
};
use crate::indexer::{response_outcome, Error, HttpResponse};
use crate::request::{decimal, request_body, QUERY_HEAD, QUERY_TAIL};
use crate::response::{
    closing_quote, is_short_escape, is_ws, node_close, node_fields, nodes_open, past, reward_amount, skip_ws,
    then_string, then_token, token_end,
};

verus! {

/// `k` stands in `s` as the key of an object member: the quoted name,
/// then, after optional whitespace, a colon.
pub open spec fn holds_key(s: Seq<u8>, k: Seq<u8>) -> bool {
    exists|i: int|
        0 <= i && i + k.len() <= s.len() && #[trigger] s.subrange(i, i + k.len()) == k
            && token_end(s, i + k.len(), ":".spec_bytes()) is Some
}

/// Every key of the expected shape stands in `s` as a key.
pub open spec fn holds_all_keys(s: Seq<u8>) -> bool {
    &&& holds_key(s, "\"data\"".spec_bytes())
    &&& holds_key(s, "\"developerRewards\"".spec_bytes())
    &&& holds_key(s, "\"nodes\"".spec_bytes())
    &&& holds_key(s, "\"amount\"".spec_bytes())
    &&& holds_key(s, "\"era\"".spec_bytes())
}

/// A key that was read, with its colon, stands in the text as a key.
pub proof fn key_occurs(s: Seq<u8>, at: Option<int>, k: &str)
    requires
        then_token(s, then_token(s, at, k), ":") is Some,
    ensures
        holds_key(s, k.spec_bytes()),
{
    let j = skip_ws(s, at->0);
    assert(s.subrange(j, j + k.spec_bytes().len()) == k.spec_bytes());
}

/// A successful query returns the amount of the response's single node,
/// byte for byte.
pub proof fn success_is_the_amount(response: Option<HttpResponse>)
    ensures
        response_outcome(response) matches Ok(t) ==> {
            &&& response matches Some(a)
            &&& a.status_code == 200
            &&& reward_amount(a.body@) matches Some(m)
            &&& encode_utf8(t) == m
        },
{
    if let Some(a) = response {
        if a.status_code == 200 {
            if let Some(m) = reward_amount(a.body@) {
                decode_utf8_encode_utf8(m);
            }
        }
    }
}

/// A status of 200 with a body of the expected shape is a success, and the
/// amount that comes back is the one the body holds.
pub proof fn valid_response_succeeds(a: HttpResponse)
    requires
        a.status_code == 200,
        reward_amount(a.body@) is Some,
    ensures
        response_outcome(Some(a)) matches Ok(t) && encode_utf8(t) == reward_amount(a.body@)->0,
{
    decode_utf8_encode_utf8(reward_amount(a.body@)->0);
}

/// A status of 200 with a body in which one of the keys of the expected
/// shape stands nowhere as a key is an invalid response body.
pub proof fn missing_key_is_invalid(a: HttpResponse)
    requires
        a.status_code == 200,
        !holds_all_keys(a.body@),
    ensures
        response_outcome(Some(a)) == Err::<Seq<char>, Error>(Error::InvalidResponseBody),
{
    let s = a.body@;
    if reward_amount(s) is Some {
        let p = then_token(s, Some(0), "{");
        key_occurs(s, p, "\"data\"");
        let p = then_token(s, p, "\"data\"");
        let p = then_token(s, p, ":");
        let p = then_token(s, p, "{");
        key_occurs(s, p, "\"developerRewards\"");
        let p = then_token(s, p, "\"developerRewards\"");
        let p = then_token(s, p, ":");
        let p = then_token(s, p, "{");
        key_occurs(s, p, "\"nodes\"");
        let o = nodes_open(s);
        if node_fields(s, o, "\"amount\"", "\"era\"") is Some {
            let p = then_token(s, o, "{");
            key_occurs(s, p, "\"amount\"");
            let p = then_token(s, p, "\"amount\"");
            let p = then_token(s, p, ":");
            let p = then_token(s, past(then_string(s, p)), ",");
            key_occurs(s, p, "\"era\"");
        } else {
            let p = then_token(s, o, "{");
            key_occurs(s, p, "\"era\"");
            let p = then_token(s, p, "\"era\"");
            let p = then_token(s, p, ":");
            let p = then_token(s, past(then_string(s, p)), ",");
            key_occurs(s, p, "\"amount\"");
        }
    }
}

/// Two one-byte tokens that differ cannot both follow the same position.
proof fn distinct_tokens(s: Seq<u8>, k: int, t: &str, u: &str)
    requires
        t.spec_bytes().len() == 1,
        u.spec_bytes().len() == 1,
        t.spec_bytes()[0] != u.spec_bytes()[0],
    ensures
        !(token_end(s, k, t.spec_bytes()) is Some && token_end(s, k, u.spec_bytes()) is Some),
{
    let j = skip_ws(s, k);
    if token_end(s, k, t.spec_bytes()) is Some && token_end(s, k, u.spec_bytes()) is Some {
        assert(s.subrange(j, j + 1)[0] == t.spec_bytes()[0]);
        assert(s.subrange(j, j + 1)[0] == u.spec_bytes()[0]);
    }
}

/// A status of 200 with a list of nodes that is empty, or that goes on past
/// its first node, is an invalid response body: the list must hold exactly
/// one node.
pub proof fn node_count_other_than_one_is_invalid(a: HttpResponse)
    requires
        a.status_code == 200,
        (nodes_open(a.body@) matches Some(k) && token_end(a.body@, k, "]".spec_bytes()) is Some)
            || (node_close(a.body@) matches Some(e) && token_end(a.body@, e, ",".spec_bytes()) is Some),
    ensures
        response_outcome(Some(a)) == Err::<Seq<char>, Error>(Error::InvalidResponseBody),
{
    let s = a.body@;
    token_bytes();
    if let Some(k) = nodes_open(s) {
        distinct_tokens(s, k, "]", "{");
    }
    if let Some(e) = node_close(s) {
        distinct_tokens(s, e, ",", "]");
    }
}

/// `t` occurs in `s` at position `i`.
pub open spec fn occurs_at(s: Seq<u8>, t: Seq<u8>, i: int) -> bool {
    0 <= i && i + t.len() <= s.len() && s.subrange(i, i + t.len()) == t
}

/// The filter on the era inside the request's GraphQL text, with the quotes
/// around the era escaped as the JSON string needs them.
pub open spec fn era_filter(era: nat) -> Seq<u8> {
    "equalTo: \\\"".spec_bytes() + decimal(era) + "\\\"".spec_bytes()
}

/// Every digit of a decimal numeral is one of the bytes `0` to `9`.
pub proof fn decimal_is_digits(n: nat)
    ensures
        decimal(n).len() >= 1,
        forall|j: int| 0 <= j < decimal(n).len() ==> 48 <= #[trigger] decimal(n)[j] <= 57,
    decreases n,
{
    if n >= 10 {
        decimal_is_digits(n / 10);
    }
}

/// The bytes of the two halves of the request body that the proofs read.
proof fn query_text_bytes()
    ensures
        QUERY_HEAD.spec_bytes().len() == 65,
        QUERY_TAIL.spec_bytes().len() == 31,
        forall|j: int| 0 <= j < 65 && j != 59 ==> QUERY_HEAD.spec_bytes()[j] != 84u8,
        forall|j: int| 0 <= j < 31 ==> QUERY_TAIL.spec_bytes()[j] != 84u8,
        QUERY_HEAD.spec_bytes().subrange(54, 65) == "equalTo: \\\"".spec_bytes(),
        QUERY_TAIL.spec_bytes().subrange(0, 2) == "\\\"".spec_bytes(),
        "equalTo: \\\"".spec_bytes()[5] == 84u8,
{
    reveal_strlit("{\"query\" : \"query {developerRewards (filter: { era: { equalTo: \\\"");
    reveal_strlit("\\\" } }){nodes {amount, era}}}\"}");
    reveal_strlit("equalTo: \\\"");
    reveal_strlit("\\\"");
    broadcast use vstd::string::is_ascii_spec_bytes;
    assert(is_ascii(QUERY_HEAD));
    assert(is_ascii(QUERY_TAIL));
    assert(is_ascii("equalTo: \\\""));
    assert(is_ascii("\\\""));
    assert(QUERY_HEAD.spec_bytes().subrange(54, 65) =~= "equalTo: \\\"".spec_bytes());
    assert(QUERY_TAIL.spec_bytes().subrange(0, 2) =~= "\\\"".spec_bytes());
}

/// For every era, the request body holds the era filter exactly once.
pub proof fn era_filter_occurs_once(era: u16)
    ensures
        occurs_at(request_body(era as nat), era_filter(era as nat), 54),
        forall|i: int| occurs_at(request_body(era as nat), era_filter(era as nat), i) ==> i == 54,
{
    let body = request_body(era as nat);
    let pat = era_filter(era as nat);
    let d = decimal(era as nat);
    query_text_bytes();
    decimal_is_digits(era as nat);
    let head = QUERY_HEAD.spec_bytes();
    let tail = QUERY_TAIL.spec_bytes();
    assert(body.subrange(54, 54 + pat.len() as int) =~= pat);
    assert forall|i: int| occurs_at(body, pat, i) implies i == 54 by {
        assert(body.subrange(i, i + pat.len())[5] == pat[5]);
        let j = i + 5;
        assert(body[j] == 84u8);
        if j < 65 {
            assert(body[j] == head[j]);
        } else if j < 65 + d.len() {
            assert(body[j] == d[j - 65]);
        } else {
            assert(body[j] == tail[j - 65 - d.len()]);
        }
    }
}

/// The bounds of the value of an object that holds the one key `query`
/// with a string value: `{"query" : V}`, with optional whitespace between
/// tokens and nothing around it.
pub open spec fn query_value(s: Seq<u8>) -> Option<(int, int)> {
    let p = then_token(s, Some(0), "{");
    let p = then_token(s, p, "\"query\"");
    let p = then_token(s, p, ":");
    let v = then_string(s, p);
    let p = then_token(s, past(v), "}");
    match (v, p) {
        (Some(b), Some(end)) => if skip_ws(s, end) == s.len() {
            Some(b)
        } else {
            None
        },
        _ => None,
    }
}

/// A run of bytes that holds no quote, no backslash and no control byte leaves the closing
/// quote where it was.
pub proof fn closing_quote_skips(s: Seq<u8>, i: int, j: int)
    requires
        0 <= i <= j <= s.len(),
        forall|k: int| i <= k < j ==> s[k] != 34 && s[k] != 92 && s[k] >= 32,
    ensures
        closing_quote(s, i) == closing_quote(s, j),
    decreases j - i,
{
    if i < j {
        closing_quote_skips(s, i + 1, j);
    }
}

/// The bytes of the one-character tokens and of the `query` key.
proof fn token_bytes()
    ensures
        "{".spec_bytes() == seq![123u8],
        "}".spec_bytes() == seq![125u8],
        "]".spec_bytes() == seq![93u8],
        ",".spec_bytes() == seq![44u8],
        ":".spec_bytes() == seq![58u8],
        "\"query\"".spec_bytes() == seq![34u8, 113u8, 117u8, 101u8, 114u8, 121u8, 34u8],
{
    reveal_strlit("{");
    reveal_strlit("}");
    reveal_strlit("]");
    reveal_strlit(",");
    reveal_strlit(":");
    reveal_strlit("\"query\"");
    broadcast use vstd::string::is_ascii_spec_bytes;
    assert(is_ascii("{"));
    assert(is_ascii("}"));
    assert(is_ascii("]"));
    assert(is_ascii(","));
    assert(is_ascii(":"));
    assert(is_ascii("\"query\""));
    assert("{".spec_bytes() =~= seq![123u8]);
    assert("}".spec_bytes() =~= seq![125u8]);
    assert("]".spec_bytes() =~= seq![93u8]);
    assert(",".spec_bytes() =~= seq![44u8]);
    assert(":".spec_bytes() =~= seq![58u8]);
    assert("\"query\"".spec_bytes() =~= seq![34u8, 113u8, 117u8, 101u8, 114u8, 121u8, 34u8]);
}

/// The request body's bytes that the shape of its JSON rests on.
proof fn query_text_shape()
    ensures
        QUERY_HEAD.spec_bytes().subrange(0, 12) == seq![
            123u8, 34u8, 113u8, 117u8, 101u8, 114u8, 121u8, 34u8, 32u8, 58u8, 32u8, 34u8,
        ],
        QUERY_HEAD.spec_bytes()[63] == 92u8,
        QUERY_HEAD.spec_bytes()[64] == 34u8,
        forall|k: int| 12 <= k < 63 ==> QUERY_HEAD.spec_bytes()[k] != 34u8
            && QUERY_HEAD.spec_bytes()[k] != 92u8 && QUERY_HEAD.spec_bytes()[k] >= 32u8,
        forall|k: int| 0 <= k < 65 ==> QUERY_HEAD.spec_bytes()[k] < 128u8,
        QUERY_TAIL.spec_bytes()[0] == 92u8,
        QUERY_TAIL.spec_bytes()[1] == 34u8,
        forall|k: int| 2 <= k < 29 ==> QUERY_TAIL.spec_bytes()[k] != 34u8
            && QUERY_TAIL.spec_bytes()[k] != 92u8 && QUERY_TAIL.spec_bytes()[k] >= 32u8,
        QUERY_TAIL.spec_bytes()[29] == 34u8,
        QUERY_TAIL.spec_bytes()[30] == 125u8,
        forall|k: int| 0 <= k < 31 ==> QUERY_TAIL.spec_bytes()[k] < 128u8,
{
    reveal_strlit("{\"query\" : \"query {developerRewards (filter: { era: { equalTo: \\\"");
    reveal_strlit("\\\" } }){nodes {amount, era}}}\"}");
    broadcast use vstd::string::is_ascii_spec_bytes;
    assert(is_ascii(QUERY_HEAD));
    assert(is_ascii(QUERY_TAIL));
    assert(QUERY_HEAD.spec_bytes().subrange(0, 12) =~= seq![
        123u8, 34u8, 113u8, 117u8, 101u8, 114u8, 121u8, 34u8, 32u8, 58u8, 32u8, 34u8,
    ]);
}

/// For every era, the request body is a JSON object with the one key
/// `query`, whose value is a non-empty string.
pub proof fn request_body_is_a_query_object(era: u16)
    ensures
        query_value(request_body(era as nat)) matches Some(b) && b.0 < b.1,
{
    let s = request_body(era as nat);
    let d = decimal(era as nat);
    let m = d.len() as int;
    let head = QUERY_HEAD.spec_bytes();
    let tail = QUERY_TAIL.spec_bytes();
    query_text_bytes();
    query_text_shape();
    token_bytes();
    decimal_is_digits(era as nat);
    let n = s.len() as int;
    assert(n == 65 + m + 31);
    assert forall|k: int| 0 <= k < n implies s[k] == if k < 65 {
        head[k]
    } else if k < 65 + m {
        d[k - 65]
    } else {
        tail[k - 65 - m]
    } by {}
    assert(head.subrange(0, 12)[0] == head[0]);
    assert forall|k: int| 0 <= k < 12 implies s[k] == head.subrange(0, 12)[k] by {}
    assert(s.subrange(0, 1) =~= seq![123u8]);
    assert(s.subrange(1, 8) =~= seq![34u8, 113u8, 117u8, 101u8, 114u8, 121u8, 34u8]);
    assert(s.subrange(9, 10) =~= seq![58u8]);
    assert(s.subrange(n - 1, n) =~= seq![125u8]);
    assert(skip_ws(s, 1) == 1);
    assert(skip_ws(s, 9) == 9);
    assert(skip_ws(s, 8) == 9);
    assert(skip_ws(s, 11) == 11);
    assert(skip_ws(s, 10) == 11);
    assert(skip_ws(s, n - 1) == n - 1);
    assert(skip_ws(s, n) == n);
    assert(skip_ws(s, 0) == 0);
    closing_quote_skips(s, 12, 63);
    assert(closing_quote(s, 63) == closing_quote(s, 65));
    closing_quote_skips(s, 65, 65 + m);
    assert(closing_quote(s, 65 + m) == closing_quote(s, 67 + m));
    closing_quote_skips(s, 67 + m, n - 2);
    assert(closing_quote(s, n - 2) == Some(n - 2));
    let c = s.subrange(12, n - 2);
    assert forall|k: int| 0 <= k < c.len() implies #[trigger] is_leading_byte_width_1(c[k]) by {
        assert(c[k] == s[k + 12]);
    }
    assert(partial_valid_utf8(c, 0)) by {
        assert(c.subrange(0, 0) =~= Seq::<u8>::empty());
    }
    partial_valid_utf8_extend_ascii_block(c, 0, c.len() as int);
    assert(c.subrange(0, c.len() as int) =~= c);
}

/// The response of the expected shape, without whitespace, whose node
/// holds the string contents `a` as its amount and `e` as its era.
pub open spec fn reward_response(a: Seq<u8>, e: Seq<u8>) -> Seq<u8> {
    "{\"data\":{\"developerRewards\":{\"nodes\":[{\"amount\":\"".spec_bytes() + a + "\",\"era\":\"".spec_bytes() + e + "\"}]}}}".spec_bytes()
}

/// `c` is what may stand between the quotes of a JSON string: it is closed
/// by the quote that follows it and nowhere before, and it is UTF-8.
pub open spec fn json_string_contents(c: Seq<u8>) -> bool {
    closing_quote(c.push(34u8), 0) == Some(c.len() as int) && valid_utf8(c)
}

/// A token whose bytes stand at `j` ends right after them.
pub proof fn token_at(s: Seq<u8>, j: int, t: Seq<u8>)
    requires
        0 <= j,
        j + t.len() <= s.len(),
        t.len() > 0,
        s.subrange(j, j + t.len()) == t,
        !is_ws(t[0]),
    ensures
        token_end(s, j, t) == Some(j + t.len()),
{
    assert(s[j] == s.subrange(j, j + t.len())[0]);
}

/// Where a string closes does not depend on the text around it.
pub proof fn closing_quote_shift(s: Seq<u8>, off: int, t: Seq<u8>, i: int)
    requires
        0 <= off,
        off + t.len() <= s.len(),
        s.subrange(off, off + t.len()) == t,
        0 <= i,
        closing_quote(t, i) is Some,
    ensures
        closing_quote(s, off + i) == Some(off + closing_quote(t, i)->0),
    decreases t.len() - i,
{
    assert forall|k: int| 0 <= k < t.len() implies s[off + k] == t[k] by {
        assert(s.subrange(off, off + t.len())[k] == t[k]);
    }
    if t[i] != 34 {
        if t[i] == 92 {
            if i + 1 < t.len() && is_short_escape(t[i + 1]) {
                closing_quote_shift(s, off, t, i + 2);
            } else {
                closing_quote_shift(s, off, t, i + 6);
            }
        } else {
            closing_quote_shift(s, off, t, i + 1);
        }
    }
}

/// The bytes of the three fixed parts of `reward_response`.
proof fn response_text_bytes()
    ensures
        "{\"data\":{\"developerRewards\":{\"nodes\":[{\"amount\":\"".spec_bytes().subrange(0, 1) == "{".spec_bytes(),
        "{\"data\":{\"developerRewards\":{\"nodes\":[{\"amount\":\"".spec_bytes().subrange(1, 7) == "\"data\"".spec_bytes(),
        "{\"data\":{\"developerRewards\":{\"nodes\":[{\"amount\":\"".spec_bytes().subrange(7, 8) == ":".spec_bytes(),
        "{\"data\":{\"developerRewards\":{\"nodes\":[{\"amount\":\"".spec_bytes().subrange(8, 9) == "{".spec_bytes(),
        "{\"data\":{\"developerRewards\":{\"nodes\":[{\"amount\":\"".spec_bytes().subrange(9, 27) == "\"developerRewards\"".spec_bytes(),
        "{\"data\":{\"developerRewards\":{\"nodes\":[{\"amount\":\"".spec_bytes().subrange(27, 28) == ":".spec_bytes(),
        "{\"data\":{\"developerRewards\":{\"nodes\":[{\"amount\":\"".spec_bytes().subrange(28, 29) == "{".spec_bytes(),
        "{\"data\":{\"developerRewards\":{\"nodes\":[{\"amount\":\"".spec_bytes().subrange(29, 36) == "\"nodes\"".spec_bytes(),
        "{\"data\":{\"developerRewards\":{\"nodes\":[{\"amount\":\"".spec_bytes().subrange(36, 37) == ":".spec_bytes(),
        "{\"data\":{\"developerRewards\":{\"nodes\":[{\"amount\":\"".spec_bytes().subrange(37, 38) == "[".spec_bytes(),
        "{\"data\":{\"developerRewards\":{\"nodes\":[{\"amount\":\"".spec_bytes().subrange(38, 39) == "{".spec_bytes(),
        "{\"data\":{\"developerRewards\":{\"nodes\":[{\"amount\":\"".spec_bytes().subrange(39, 47) == "\"amount\"".spec_bytes(),
        "{\"data\":{\"developerRewards\":{\"nodes\":[{\"amount\":\"".spec_bytes().subrange(47, 48) == ":".spec_bytes(),
        "\",\"era\":\"".spec_bytes().subrange(1, 2) == ",".spec_bytes(),
        "\",\"era\":\"".spec_bytes().subrange(2, 7) == "\"era\"".spec_bytes(),
        "\",\"era\":\"".spec_bytes().subrange(7, 8) == ":".spec_bytes(),
        "\"}]}}}".spec_bytes().subrange(1, 2) == "}".spec_bytes(),
        "\"}]}}}".spec_bytes().subrange(2, 3) == "]".spec_bytes(),
        "\"}]}}}".spec_bytes().subrange(3, 4) == "}".spec_bytes(),
        "\"}]}}}".spec_bytes().subrange(4, 5) == "}".spec_bytes(),
        "\"}]}}}".spec_bytes().subrange(5, 6) == "}".spec_bytes(),
        "{\"data\":{\"developerRewards\":{\"nodes\":[{\"amount\":\"".spec_bytes().len() == 49,
        "\",\"era\":\"".spec_bytes().len() == 9,
        "\"}]}}}".spec_bytes().len() == 6,
        "{\"data\":{\"developerRewards\":{\"nodes\":[{\"amount\":\"".spec_bytes()[48] == 34u8,
        "\",\"era\":\"".spec_bytes()[0] == 34u8,
        "\",\"era\":\"".spec_bytes()[8] == 34u8,
        "\"}]}}}".spec_bytes()[0] == 34u8,
        forall|k: int| 0 <= k < 49 ==> !is_ws(#[trigger] "{\"data\":{\"developerRewards\":{\"nodes\":[{\"amount\":\"".spec_bytes()[k]),
        forall|k: int| 0 <= k < 9 ==> !is_ws(#[trigger] "\",\"era\":\"".spec_bytes()[k]),
        forall|k: int| 0 <= k < 6 ==> !is_ws(#[trigger] "\"}]}}}".spec_bytes()[k]),
{
    reveal_strlit(",");
    reveal_strlit(":");
    reveal_strlit("[");
    reveal_strlit("\",\"era\":\"");
    reveal_strlit("\"amount\"");
    reveal_strlit("\"data\"");
    reveal_strlit("\"developerRewards\"");
    reveal_strlit("\"era\"");
    reveal_strlit("\"nodes\"");
    reveal_strlit("\"}]}}}");
    reveal_strlit("]");
    reveal_strlit("{");
    reveal_strlit("{\"data\":{\"developerRewards\":{\"nodes\":[{\"amount\":\"");
    reveal_strlit("}");
    broadcast use vstd::string::is_ascii_spec_bytes;
    assert(is_ascii(","));
    assert(is_ascii(":"));
    assert(is_ascii("["));
    assert(is_ascii("\",\"era\":\""));
    assert(is_ascii("\"amount\""));
    assert(is_ascii("\"data\""));
    assert(is_ascii("\"developerRewards\""));
    assert(is_ascii("\"era\""));
    assert(is_ascii("\"nodes\""));
    assert(is_ascii("\"}]}}}"));
    assert(is_ascii("]"));
    assert(is_ascii("{"));
    assert(is_ascii("{\"data\":{\"developerRewards\":{\"nodes\":[{\"amount\":\""));
    assert(is_ascii("}"));
    assert("{\"data\":{\"developerRewards\":{\"nodes\":[{\"amount\":\"".spec_bytes().subrange(0, 1) =~= "{".spec_bytes());
    assert("{\"data\":{\"developerRewards\":{\"nodes\":[{\"amount\":\"".spec_bytes().subrange(1, 7) =~= "\"data\"".spec_bytes());
    assert("{\"data\":{\"developerRewards\":{\"nodes\":[{\"amount\":\"".spec_bytes().subrange(7, 8) =~= ":".spec_bytes());
    assert("{\"data\":{\"developerRewards\":{\"nodes\":[{\"amount\":\"".spec_bytes().subrange(8, 9) =~= "{".spec_bytes());
    assert("{\"data\":{\"developerRewards\":{\"nodes\":[{\"amount\":\"".spec_bytes().subrange(9, 27) =~= "\"developerRewards\"".spec_bytes());
    assert("{\"data\":{\"developerRewards\":{\"nodes\":[{\"amount\":\"".spec_bytes().subrange(27, 28) =~= ":".spec_bytes());
    assert("{\"data\":{\"developerRewards\":{\"nodes\":[{\"amount\":\"".spec_bytes().subrange(28, 29) =~= "{".spec_bytes());
    assert("{\"data\":{\"developerRewards\":{\"nodes\":[{\"amount\":\"".spec_bytes().subrange(29, 36) =~= "\"nodes\"".spec_bytes());
    assert("{\"data\":{\"developerRewards\":{\"nodes\":[{\"amount\":\"".spec_bytes().subrange(36, 37) =~= ":".spec_bytes());
    assert("{\"data\":{\"developerRewards\":{\"nodes\":[{\"amount\":\"".spec_bytes().subrange(37, 38) =~= "[".spec_bytes());
    assert("{\"data\":{\"developerRewards\":{\"nodes\":[{\"amount\":\"".spec_bytes().subrange(38, 39) =~= "{".spec_bytes());
    assert("{\"data\":{\"developerRewards\":{\"nodes\":[{\"amount\":\"".spec_bytes().subrange(39, 47) =~= "\"amount\"".spec_bytes());
    assert("{\"data\":{\"developerRewards\":{\"nodes\":[{\"amount\":\"".spec_bytes().subrange(47, 48) =~= ":".spec_bytes());
    assert("\",\"era\":\"".spec_bytes().subrange(1, 2) =~= ",".spec_bytes());
    assert("\",\"era\":\"".spec_bytes().subrange(2, 7) =~= "\"era\"".spec_bytes());
    assert("\",\"era\":\"".spec_bytes().subrange(7, 8) =~= ":".spec_bytes());
    assert("\"}]}}}".spec_bytes().subrange(1, 2) =~= "}".spec_bytes());
    assert("\"}]}}}".spec_bytes().subrange(2, 3) =~= "]".spec_bytes());
    assert("\"}]}}}".spec_bytes().subrange(3, 4) =~= "}".spec_bytes());
    assert("\"}]}}}".spec_bytes().subrange(4, 5) =~= "}".spec_bytes());
    assert("\"}]}}}".spec_bytes().subrange(5, 6) =~= "}".spec_bytes());
}

/// A status of 200 with a body of the expected shape succeeds, whatever
/// JSON strings the node holds: the amount that comes back is the text of
/// the node's amount.
pub proof fn well_formed_response_succeeds(a: Seq<u8>, e: Seq<u8>)
    requires
        json_string_contents(a),
        json_string_contents(e),
    ensures
        reward_amount(reward_response(a, e)) == Some(a),
{
    let s = reward_response(a, e);
    let hb = "{\"data\":{\"developerRewards\":{\"nodes\":[{\"amount\":\"".spec_bytes();
    let mb = "\",\"era\":\"".spec_bytes();
    let tb = "\"}]}}}".spec_bytes();
    response_text_bytes();
    let m = 49 + a.len() as int;
    let v = m + 9;
    let z = v + e.len() as int;
    assert(s.len() == z + 6);
    assert forall|k: int| 0 <= k < s.len() implies s[k] == if k < 49 {
        hb[k]
    } else if k < m {
        a[k - 49]
    } else if k < v {
        mb[k - m]
    } else if k < z {
        e[k - v]
    } else {
        tb[k - z]
    } by {}
    assert(s.subrange(0, 49) =~= hb);
    assert(s.subrange(m, v) =~= mb);
    assert(s.subrange(z, z + 6) =~= tb);
    assert(s.subrange(0, 1) =~= hb.subrange(0, 1));
    token_at(s, 0, "{".spec_bytes());
    assert(s.subrange(1, 7) =~= hb.subrange(1, 7));
    token_at(s, 1, "\"data\"".spec_bytes());
    assert(s.subrange(7, 8) =~= hb.subrange(7, 8));
    token_at(s, 7, ":".spec_bytes());
    assert(s.subrange(8, 9) =~= hb.subrange(8, 9));
    token_at(s, 8, "{".spec_bytes());
    assert(s.subrange(9, 27) =~= hb.subrange(9, 27));
    token_at(s, 9, "\"developerRewards\"".spec_bytes());
    assert(s.subrange(27, 28) =~= hb.subrange(27, 28));
    token_at(s, 27, ":".spec_bytes());
    assert(s.subrange(28, 29) =~= hb.subrange(28, 29));
    token_at(s, 28, "{".spec_bytes());
    assert(s.subrange(29, 36) =~= hb.subrange(29, 36));
    token_at(s, 29, "\"nodes\"".spec_bytes());
    assert(s.subrange(36, 37) =~= hb.subrange(36, 37));
    token_at(s, 36, ":".spec_bytes());
    assert(s.subrange(37, 38) =~= hb.subrange(37, 38));
    token_at(s, 37, "[".spec_bytes());
    assert(s.subrange(38, 39) =~= hb.subrange(38, 39));
    token_at(s, 38, "{".spec_bytes());
    assert(s.subrange(39, 47) =~= hb.subrange(39, 47));
    token_at(s, 39, "\"amount\"".spec_bytes());
    assert(s.subrange(47, 48) =~= hb.subrange(47, 48));
    token_at(s, 47, ":".spec_bytes());
    assert(s.subrange(m + 1, m + 2) =~= mb.subrange(1, 2));
    token_at(s, m + 1, ",".spec_bytes());
    assert(s.subrange(m + 2, m + 7) =~= mb.subrange(2, 7));
    token_at(s, m + 2, "\"era\"".spec_bytes());
    assert(s.subrange(m + 7, m + 8) =~= mb.subrange(7, 8));
    token_at(s, m + 7, ":".spec_bytes());
    assert(s.subrange(z + 1, z + 2) =~= tb.subrange(1, 2));
    token_at(s, z + 1, "}".spec_bytes());
    assert(s.subrange(z + 2, z + 3) =~= tb.subrange(2, 3));
    token_at(s, z + 2, "]".spec_bytes());
    assert(s.subrange(z + 3, z + 4) =~= tb.subrange(3, 4));
    token_at(s, z + 3, "}".spec_bytes());
    assert(s.subrange(z + 4, z + 5) =~= tb.subrange(4, 5));
    token_at(s, z + 4, "}".spec_bytes());
    assert(s.subrange(z + 5, z + 6) =~= tb.subrange(5, 6));
    token_at(s, z + 5, "}".spec_bytes());
    assert(s.subrange(49, m + 1) =~= a.push(34u8));
    closing_quote_shift(s, 49, a.push(34u8), 0);
    assert(s.subrange(v, z + 1) =~= e.push(34u8));
    closing_quote_shift(s, v, e.push(34u8), 0);
    assert(s.subrange(49, m) =~= a);
    assert(s.subrange(v, z) =~= e);
    assert(skip_ws(s, 48) == 48);
    assert(skip_ws(s, m + 8) == m + 8);
    assert(skip_ws(s, m) == m);
    assert(skip_ws(s, z) == z);
    assert(skip_ws(s, z + 6) == z + 6);
}

/// A status of 200 whose body has the expected shape, with any JSON strings
/// as the node's amount and era, is a success that returns the amount.
pub proof fn well_formed_answer_succeeds(response: HttpResponse, a: Seq<u8>, e: Seq<u8>)
    requires
        response.status_code == 200,
        response.body@ == reward_response(a, e),
        json_string_contents(a),
        json_string_contents(e),
    ensures
        response_outcome(Some(response)) == Ok::<Seq<char>, Error>(decode_utf8(a)),
{
    well_formed_response_succeeds(a, e);
}

/// Any status other than 200 is a failed request, whatever the body.
pub proof fn bad_status_fails(a: HttpResponse)
    requires
        a.status_code != 200,
    ensures
        response_outcome(Some(a)) == Err::<Seq<char>, Error>(Error::HttpRequestFailed),
{
}

/// A transport that gives no response is a failed request.
pub proof fn transport_failure_fails()
    ensures
        response_outcome(None) == Err::<Seq<char>, Error>(Error::HttpRequestFailed),
{
}

} // verus!
