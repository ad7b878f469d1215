use vstd::prelude::*;
use vstd::utf8::decode_utf8;
use crate::request::{build_request_body, request_body, request_headers};
use crate::response::{decode_reward_amount, reward_amount};

verus! {

/// The endpoint that `QueryIndexer::default` queries.
pub const DEFAULT_URL: &'static str = "https://api.subquery.network/sq/GuiGou12358/lucky-shibuya-v0_1_0/";

/// Why a query for developer rewards failed.
#[derive(Debug, Clone, Copy, PartialEq, Eq, Structural)]
pub enum Error {
    /// The transport gave no response, or the status was not 200.
    HttpRequestFailed,
    /// The response body was not JSON of the expected shape.
    InvalidResponseBody,
}

/// One HTTP POST to make: where, what, and with which headers.
pub struct HttpRequest {
    pub url: String,
    pub body: Vec<u8>,
    pub headers: Vec<(String, String)>,
}

/// What came back from an HTTP POST.
pub struct HttpResponse {
    pub status_code: u16,
    pub body: Vec<u8>,
}

/// The headers of a request for JSON in JSON, in that order.
pub open spec fn json_headers(h: Seq<(String, String)>) -> bool {
    &&& h.len() == 2
    &&& h[0].0@ == "Content-Type"@
    &&& h[0].1@ == "application/json"@
    &&& h[1].0@ == "Accept"@
    &&& h[1].1@ == "application/json"@
}

/// `q` is the request for the developer rewards of `era` from the indexer at `url`.
pub open spec fn is_rewards_request(q: HttpRequest, url: Seq<char>, era: nat) -> bool {
    &&& q.url@ == url
    &&& q.body@ == request_body(era)
    &&& json_headers(q.headers@)
}

/// What a query yields once the transport has answered (`None`: it failed).
pub open spec fn response_outcome(response: Option<HttpResponse>) -> Result<Seq<char>, Error> {
    match response {
        None => Err(Error::HttpRequestFailed),
        Some(a) => if a.status_code != 200 {
            Err(Error::HttpRequestFailed)
        } else {
            match reward_amount(a.body@) {
                Some(amount) => Ok(decode_utf8(amount)),
                None => Err(Error::InvalidResponseBody),
            }
        },
    }
}

/// A result with the text of its string.
pub open spec fn result_view(r: Result<String, Error>) -> Result<Seq<char>, Error> {
    match r {
        Ok(s) => Ok(s@),
        Err(e) => Err(e),
    }
}

/// Judges the transport's answer to a rewards request: a failed transport or
/// a status other than 200 is `HttpRequestFailed`, a body off the expected
/// shape is `InvalidResponseBody`, and otherwise the node's amount comes back.
pub fn rewards_from_response(response: Option<HttpResponse>) -> (r: Result<String, Error>)
    ensures
        result_view(r) == response_outcome(response),
{
    match response {
        None => Err(Error::HttpRequestFailed),
        Some(a) => {
            if a.status_code != 200 {
                return Err(Error::HttpRequestFailed);
            }
            match decode_reward_amount(a.body.as_slice()) {
                Some(amount) => Ok(amount),
                None => Err(Error::InvalidResponseBody),
            }
        },
    }
}

/// A client of one GraphQL indexer, which it reaches at a fixed URL.
pub struct QueryIndexer {
    url: String,
}

impl View for QueryIndexer {
    type V = Seq<char>;

    /// The URL of the indexer.
    closed spec fn view(&self) -> Seq<char> {
        self.url@
    }
}

impl QueryIndexer {
    /// A client of the indexer at `url`.
    pub fn new(url: String) -> (r: Self)
        ensures
            r@ == url@,
    {
        QueryIndexer { url }
    }

    /// A client of the indexer at `DEFAULT_URL`.
    pub fn default() -> (r: Self)
        ensures
            r@ == DEFAULT_URL@,
    {
        QueryIndexer { url: DEFAULT_URL.to_owned() }
    }

    /// The URL of the indexer; this never fails.
    pub fn get_url(&self) -> (r: Result<String, Error>)
        ensures
            r matches Ok(u) && u@ == self@,
    {
        Ok(self.url.clone())
    }

    /// The request that asks the indexer for the developer rewards of `era`.
    pub fn developer_rewards_request(&self, era: u16) -> (r: HttpRequest)
        ensures
            is_rewards_request(r, self@, era as nat),
    {
        HttpRequest { url: self.url.clone(), body: build_request_body(era), headers: request_headers() }
    }

    /// Asks the indexer for the developer rewards of `era`: `post` makes the
    /// one HTTP POST of the request (`None` when the transport fails), and
    /// the answer is judged as `rewards_from_response` does.
    pub fn get_developer_rewards<F>(&self, era: u16, post: F) -> (r: Result<String, Error>)
        where
            F: FnOnce(HttpRequest) -> Option<HttpResponse>,
        requires
            forall|q: HttpRequest| post.requires((q,)),
        ensures
            exists|q: HttpRequest, a: Option<HttpResponse>|
                is_rewards_request(q, self@, era as nat) && post.ensures((q,), a)
                    && result_view(r) == response_outcome(a),
    {
        let request = self.developer_rewards_request(era);
        let ghost sent = request;
        let response = post(request);
        let r = rewards_from_response(response);
        assert(is_rewards_request(sent, self@, era as nat) && post.ensures((sent,), response)
            && result_view(r) == response_outcome(response));
        r
    }
}

} // verus!
