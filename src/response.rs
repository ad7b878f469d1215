use vstd::prelude::*;
use vstd::string::StringSliceAdditionalSpecFns;
use vstd::utf8::{decode_utf8, valid_utf8};

verus! {

/// JSON whitespace: space, tab, line feed and carriage return.
pub open spec fn is_ws(b: u8) -> bool {
    b == 32 || b == 9 || b == 10 || b == 13
}

/// The first position at or after `i` that does not hold whitespace.
pub open spec fn skip_ws(s: Seq<u8>, i: int) -> int
    decreases s.len() - i,
{
    if 0 <= i < s.len() && is_ws(s[i]) {
        skip_ws(s, i + 1)
    } else {
        i
    }
}

/// Where the token `t` ends, when it follows position `i` after optional whitespace.
pub open spec fn token_end(s: Seq<u8>, i: int, t: Seq<u8>) -> Option<int> {
    let j = skip_ws(s, i);
    if 0 <= j && j + t.len() <= s.len() && s.subrange(j, j + t.len()) == t {
        Some(j + t.len())
    } else {
        None
    }
}

/// The token `t` after the position `at`, if the text has come that far.
pub open spec fn then_token(s: Seq<u8>, at: Option<int>, t: &str) -> Option<int> {
    match at {
        Some(i) => token_end(s, i, t.spec_bytes()),
        None => None,
    }
}

/// A byte that may follow a backslash as a one-letter JSON escape:
/// one of `"`, `\`, `/`, `b`, `f`, `n`, `r`, `t`.
pub open spec fn is_short_escape(b: u8) -> bool {
    b == 34 || b == 92 || b == 47 || b == 98 || b == 102 || b == 110 || b == 114 || b == 116
}

/// A hexadecimal digit, in either case.
pub open spec fn is_hex_digit(b: u8) -> bool {
    (48 <= b <= 57) || (65 <= b <= 70) || (97 <= b <= 102)
}

/// A `\u` escape with its four hexadecimal digits starts at `i`.
pub open spec fn is_unicode_escape(s: Seq<u8>, i: int) -> bool {
    &&& 0 <= i
    &&& i + 6 <= s.len()
    &&& s[i] == 92
    &&& s[i + 1] == 117
    &&& is_hex_digit(s[i + 2])
    &&& is_hex_digit(s[i + 3])
    &&& is_hex_digit(s[i + 4])
    &&& is_hex_digit(s[i + 5])
}

/// The position of the quote that closes a JSON string whose contents start
/// at `i`. The contents hold no control byte, and a backslash starts one of
/// the escapes that JSON defines; anything else leaves the string unclosed.
pub open spec fn closing_quote(s: Seq<u8>, i: int) -> Option<int>
    decreases s.len() - i,
{
    if i < 0 || i >= s.len() {
        None
    } else if s[i] == 34 {
        Some(i)
    } else if s[i] < 32 {
        None
    } else if s[i] == 92 {
        if i + 1 < s.len() && is_short_escape(s[i + 1]) {
            closing_quote(s, i + 2)
        } else if is_unicode_escape(s, i) {
            closing_quote(s, i + 6)
        } else {
            None
        }
    } else {
        closing_quote(s, i + 1)
    }
}

/// The bounds of the contents of the string that follows position `at`
/// after optional whitespace; the contents must be UTF-8.
pub open spec fn then_string(s: Seq<u8>, at: Option<int>) -> Option<(int, int)> {
    match at {
        Some(i) => {
            let j = skip_ws(s, i);
            if 0 <= j < s.len() && s[j] == 34 {
                match closing_quote(s, j + 1) {
                    Some(e) => if valid_utf8(s.subrange(j + 1, e)) {
                        Some((j + 1, e))
                    } else {
                        None
                    },
                    None => None,
                }
            } else {
                None
            }
        },
        None => None,
    }
}

/// The end of a string that `then_string` found.
pub open spec fn past(r: Option<(int, int)>) -> Option<int> {
    match r {
        Some(b) => Some(b.1 + 1),
        None => None,
    }
}

/// Where the list of nodes opens: just past the `[` of
/// `{"data":{"developerRewards":{"nodes":[`.
pub open spec fn nodes_open(s: Seq<u8>) -> Option<int> {
    let p = then_token(s, Some(0), "{");
    let p = then_token(s, p, "\"data\"");
    let p = then_token(s, p, ":");
    let p = then_token(s, p, "{");
    let p = then_token(s, p, "\"developerRewards\"");
    let p = then_token(s, p, ":");
    let p = then_token(s, p, "{");
    let p = then_token(s, p, "\"nodes\"");
    let p = then_token(s, p, ":");
    then_token(s, p, "[")
}

/// A node object that follows position `at`: `{K1:V1,K2:V2}` with the
/// keys `first` and `second` in that order and string values. Gives the
/// bounds of the two values and where the object ends.
pub open spec fn node_fields(s: Seq<u8>, at: Option<int>, first: &str, second: &str) -> Option<
    ((int, int), (int, int), int),
> {
    let p = then_token(s, at, "{");
    let p = then_token(s, p, first);
    let p = then_token(s, p, ":");
    let v1 = then_string(s, p);
    let p = then_token(s, past(v1), ",");
    let p = then_token(s, p, second);
    let p = then_token(s, p, ":");
    let v2 = then_string(s, p);
    let p = then_token(s, past(v2), "}");
    match (v1, v2, p) {
        (Some(b1), Some(b2), Some(end)) => Some((b1, b2, end)),
        _ => None,
    }
}

/// The first node of the list: an object with the keys `amount` and `era`,
/// in either order. Gives the bounds of the amount and where the node ends.
pub open spec fn first_node(s: Seq<u8>) -> Option<((int, int), int)> {
    match node_fields(s, nodes_open(s), "\"amount\"", "\"era\"") {
        Some(f) => Some((f.0, f.2)),
        None => match node_fields(s, nodes_open(s), "\"era\"", "\"amount\"") {
            Some(f) => Some((f.1, f.2)),
            None => None,
        },
    }
}

/// The bounds of the `amount` string of the first node.
pub open spec fn amount_bounds(s: Seq<u8>) -> Option<(int, int)> {
    match first_node(s) {
        Some(n) => Some(n.0),
        None => None,
    }
}

/// Just past the first node.
pub open spec fn node_close(s: Seq<u8>) -> Option<int> {
    match first_node(s) {
        Some(n) => Some(n.1),
        None => None,
    }
}

/// The bytes of the `amount` of the one node of a response of the shape
/// `{"data":{"developerRewards":{"nodes":[{"amount":A,"era":E}]}}}`, where
/// the node's two keys may come in either order, with optional whitespace
/// between tokens and nothing else around it;
/// `None` for any other text.
pub open spec fn reward_amount(s: Seq<u8>) -> Option<Seq<u8>> {
    let p = then_token(s, node_close(s), "]");
    let p = then_token(s, p, "}");
    let p = then_token(s, p, "}");
    let p = then_token(s, p, "}");
    match (amount_bounds(s), p) {
        (Some(a), Some(end)) => if skip_ws(s, end) == s.len() {
            Some(s.subrange(a.0, a.1))
        } else {
            None
        },
        _ => None,
    }
}

/// A position as the specification functions count it.
pub open spec fn as_pos(r: Option<usize>) -> Option<int> {
    match r {
        Some(k) => Some(k as int),
        None => None,
    }
}

/// Relies on String::from_utf8: it succeeds exactly on valid UTF-8 and then
/// holds the characters that the bytes encode.
#[verifier::external_body]
fn utf8_string(b: Vec<u8>) -> (r: Option<String>)
    ensures
        r is Some <==> valid_utf8(b@),
        r matches Some(t) ==> t@ == decode_utf8(b@),
{
    String::from_utf8(b).ok()
}

/// The first position at or after `i` that does not hold whitespace.
pub fn skip_whitespace(s: &[u8], i: usize) -> (r: usize)
    requires
        i <= s@.len(),
    ensures
        r as int == skip_ws(s@, i as int),
        i <= r <= s@.len(),
{
    let mut j = i;
    while j < s.len() && (s[j] == 32 || s[j] == 9 || s[j] == 10 || s[j] == 13)
        invariant
            i <= j <= s@.len(),
            skip_ws(s@, j as int) == skip_ws(s@, i as int),
        decreases s@.len() - j,
    {
        j = j + 1;
    }
    j
}

/// Where the token `t` ends, when it follows position `i` after optional whitespace.
pub fn expect_token(s: &[u8], i: usize, t: &str) -> (r: Option<usize>)
    requires
        i <= s@.len(),
    ensures
        as_pos(r) == token_end(s@, i as int, t.spec_bytes()),
        r matches Some(k) ==> k <= s@.len(),
{
    let tb = t.as_bytes();
    let j = skip_whitespace(s, i);
    if tb.len() > s.len() - j {
        return None;
    }
    let mut k: usize = 0;
    while k < tb.len()
        invariant
            tb@ == t.spec_bytes(),
            j as int == skip_ws(s@, i as int),
            j + tb@.len() <= s@.len() <= usize::MAX,
            k <= tb@.len(),
            forall|m: int| 0 <= m < k ==> s@[j + m] == tb@[m],
        decreases tb@.len() - k,
    {
        if s[j + k] != tb[k] {
            assert(s@.subrange(j as int, j + tb@.len())[k as int] != tb@[k as int]);
            return None;
        }
        k = k + 1;
    }
    assert(s@.subrange(j as int, j + tb@.len()) =~= tb@);
    Some(j + tb.len())
}

/// The bytes of `s` from `lo` up to `hi`, as a vector of their own.
pub fn copy_range(s: &[u8], lo: usize, hi: usize) -> (r: Vec<u8>)
    requires
        lo <= hi <= s@.len(),
    ensures
        r@ == s@.subrange(lo as int, hi as int),
{
    let mut r: Vec<u8> = Vec::new();
    let mut k: usize = lo;
    while k < hi
        invariant
            lo <= k <= hi <= s@.len(),
            r@ == s@.subrange(lo as int, k as int),
        decreases hi - k,
    {
        r.push(s[k]);
        k = k + 1;
        assert(r@ =~= s@.subrange(lo as int, k as int));
    }
    r
}

/// Whether `b` is a hexadecimal digit.
pub fn hex_digit(b: u8) -> (r: bool)
    ensures
        r == is_hex_digit(b),
{
    (48 <= b && b <= 57) || (65 <= b && b <= 70) || (97 <= b && b <= 102)
}

/// The position of the quote that closes a JSON string whose contents start
/// at `i`, when the contents are well formed.
pub fn find_closing_quote(s: &[u8], i: usize) -> (r: Option<usize>)
    requires
        i <= s@.len(),
    ensures
        as_pos(r) == closing_quote(s@, i as int),
{
    let n = s.len();
    let mut k: usize = i;
    while k < n
        invariant
            n == s@.len(),
            i <= k <= n,
            closing_quote(s@, k as int) == closing_quote(s@, i as int),
        decreases n - k,
    {
        let b = s[k];
        if b == 34 {
            return Some(k);
        } else if b < 32 {
            return None;
        } else if b == 92 {
            if k + 1 < n && (s[k + 1] == 34 || s[k + 1] == 92 || s[k + 1] == 47 || s[k + 1] == 98
                || s[k + 1] == 102 || s[k + 1] == 110 || s[k + 1] == 114 || s[k + 1] == 116) {
                k = k + 2;
            } else if n - k >= 6 && s[k + 1] == 117 && hex_digit(s[k + 2]) && hex_digit(s[k + 3])
                && hex_digit(s[k + 4]) && hex_digit(s[k + 5]) {
                k = k + 6;
            } else {
                return None;
            }
        } else {
            k = k + 1;
        }
    }
    None
}

/// The bounds of the contents of the string that follows position `i` after
/// optional whitespace, when they are UTF-8.
pub fn read_string(s: &[u8], i: usize) -> (r: Option<(usize, usize)>)
    requires
        i <= s@.len(),
    ensures
        r matches Some(b) ==> b.0 <= b.1 < s@.len(),
        then_string(s@, Some(i as int)) == match r {
            Some(b) => Some((b.0 as int, b.1 as int)),
            None => None::<(int, int)>,
        },
{
    let j = skip_whitespace(s, i);
    if j >= s.len() || s[j] != 34 {
        return None;
    }
    match find_closing_quote(s, j + 1) {
        Some(e) => {
            proof {
                closing_quote_bounds(s@, j + 1);
            }
            let contents = copy_range(s, j + 1, e);
            match utf8_string(contents) {
                Some(_) => Some((j + 1, e)),
                None => None,
            }
        },
        None => None,
    }
}

/// A closing quote lies at or after where the search began, inside the text.
pub proof fn closing_quote_bounds(s: Seq<u8>, i: int)
    ensures
        closing_quote(s, i) matches Some(e) ==> i <= e < s.len() && s[e] == 34,
    decreases s.len() - i,
{
    if 0 <= i < s.len() && s[i] != 34 && s[i] >= 32 {
        if s[i] == 92 {
            if i + 1 < s.len() && is_short_escape(s[i + 1]) {
                closing_quote_bounds(s, i + 2);
            } else if is_unicode_escape(s, i) {
                closing_quote_bounds(s, i + 6);
            }
        } else {
            closing_quote_bounds(s, i + 1);
        }
    }
}

/// The spec form of what `read_node_fields` returns.
pub open spec fn as_fields(r: Option<((usize, usize), (usize, usize), usize)>) -> Option<
    ((int, int), (int, int), int),
> {
    match r {
        Some(f) => Some(((f.0.0 as int, f.0.1 as int), (f.1.0 as int, f.1.1 as int), f.2 as int)),
        None => None,
    }
}

/// Reads a node object `{K1:V1,K2:V2}` at position `i` whose keys are
/// `first` and `second` in that order and whose values are strings.
pub fn read_node_fields(s: &[u8], i: usize, first: &str, second: &str) -> (r: Option<
    ((usize, usize), (usize, usize), usize),
>)
    requires
        i <= s@.len(),
    ensures
        as_fields(r) == node_fields(s@, Some(i as int), first, second),
        r matches Some(f) ==> f.0.0 <= f.0.1 <= s@.len() && f.1.0 <= f.1.1 <= s@.len()
            && f.2 <= s@.len(),
{
    let n = s.len();
    let p = expect_token(s, i, "{")?;
    let p = expect_token(s, p, first)?;
    let p = expect_token(s, p, ":")?;
    let v1 = read_string(s, p)?;
    let p = expect_token(s, v1.1 + 1, ",")?;
    let p = expect_token(s, p, second)?;
    let p = expect_token(s, p, ":")?;
    let v2 = read_string(s, p)?;
    let p = expect_token(s, v2.1 + 1, "}")?;
    Some((v1, v2, p))
}

/// Reads the reward amount out of a response body: the `amount` of the
/// single node, verbatim, when the body has exactly the expected shape.
pub fn decode_reward_amount(body: &[u8]) -> (r: Option<String>)
    ensures
        r is Some <==> reward_amount(body@) is Some,
        r matches Some(a) ==> a@ == decode_utf8(reward_amount(body@)->0),
{
    let s = body;
    let n = s.len();
    let p = expect_token(s, 0, "{")?;
    let p = expect_token(s, p, "\"data\"")?;
    let p = expect_token(s, p, ":")?;
    let p = expect_token(s, p, "{")?;
    let p = expect_token(s, p, "\"developerRewards\"")?;
    let p = expect_token(s, p, ":")?;
    let p = expect_token(s, p, "{")?;
    let p = expect_token(s, p, "\"nodes\"")?;
    let p = expect_token(s, p, ":")?;
    let p = expect_token(s, p, "[")?;
    let node = match read_node_fields(s, p, "\"amount\"", "\"era\"") {
        Some(f) => (f.0, f.2),
        None => {
            let f = read_node_fields(s, p, "\"era\"", "\"amount\"")?;
            (f.1, f.2)
        },
    };
    let amount = node.0;
    let p = expect_token(s, node.1, "]")?;
    let p = expect_token(s, p, "}")?;
    let p = expect_token(s, p, "}")?;
    let p = expect_token(s, p, "}")?;
    if skip_whitespace(s, p) != n {
        return None;
    }
    utf8_string(copy_range(s, amount.0, amount.1))
}

} // verus!
