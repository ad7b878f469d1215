use vstd::prelude::*;
use vstd::string::StringSliceAdditionalSpecFns;

verus! {

/// The request body up to the era: a JSON object whose one key `query`
/// holds the GraphQL text, with the era's quotes escaped for JSON.
pub const QUERY_HEAD: &'static str = "{\"query\" : \"query {developerRewards (filter: { era: { equalTo: \\\"";

/// The request body after the era.
pub const QUERY_TAIL: &'static str = "\\\" } }){nodes {amount, era}}}\"}";

/// The bytes of the request body that asks for the developer rewards of `era`.
pub open spec fn request_body(era: nat) -> Seq<u8> {
    QUERY_HEAD.spec_bytes() + decimal(era) + QUERY_TAIL.spec_bytes()
}

/// The decimal digits of `n`, most significant first, without leading zeros.
pub open spec fn decimal(n: nat) -> Seq<u8>
    decreases n,
{
    if n < 10 {
        seq![(48 + n) as u8]
    } else {
        decimal(n / 10).push((48 + n % 10) as u8)
    }
}

/// Appends the decimal digits of `n` to `out`.
pub fn push_decimal(out: &mut Vec<u8>, n: u16)
    ensures
        final(out)@ == old(out)@ + decimal(n as nat),
    decreases n,
{
    if n >= 10 {
        push_decimal(out, n / 10);
    }
    out.push((48 + n % 10) as u8);
    proof {
        assert(final(out)@ =~= old(out)@ + decimal(n as nat));
    }
}

/// Appends the bytes of `b` to `out`.
pub fn push_bytes(out: &mut Vec<u8>, b: &[u8])
    ensures
        final(out)@ == old(out)@ + b@,
{
    let n = b.len();
    let mut k: usize = 0;
    while k < n
        invariant
            n == b@.len(),
            k <= n,
            out@ == old(out)@ + b@.subrange(0, k as int),
        decreases n - k,
    {
        out.push(b[k]);
        k = k + 1;
        assert(out@ =~= old(out)@ + b@.subrange(0, k as int));
    }
    assert(b@.subrange(0, n as int) =~= b@);
}

/// Builds the body of the request for the developer rewards of `era`.
pub fn build_request_body(era: u16) -> (r: Vec<u8>)
    ensures
        r@ == request_body(era as nat),
{
    let mut out: Vec<u8> = Vec::new();
    push_bytes(&mut out, QUERY_HEAD.as_bytes());
    push_decimal(&mut out, era);
    push_bytes(&mut out, QUERY_TAIL.as_bytes());
    assert(out@ =~= request_body(era as nat));
    out
}

/// The headers of every request: JSON is sent and JSON is asked for.
pub fn request_headers() -> (r: Vec<(String, String)>)
    ensures
        r@.len() == 2,
        r@[0].0@ == "Content-Type"@,
        r@[0].1@ == "application/json"@,
        r@[1].0@ == "Accept"@,
        r@[1].1@ == "application/json"@,
{
    let mut r: Vec<(String, String)> = Vec::new();
    r.push(("Content-Type".to_owned(), "application/json".to_owned()));
    r.push(("Accept".to_owned(), "application/json".to_owned()));
    r
}

} // verus!
