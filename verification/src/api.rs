//! The requests that the client sends to the job source, as plain values.

use crate::miner::Solution;
use vstd::prelude::*;
use vstd::string::StringExecFns;

verus! {

/// How a request is sent.
#[derive(Debug, PartialEq, Eq, Clone, Copy, Structural)]
pub enum Method {
    Get,
    Post,
}

/// One request to the job source: where it goes, the headers it carries,
/// and the fields of its body. A request with no field has no body.
#[derive(Debug)]
pub struct Request {
    pub method: Method,
    pub url: String,
    pub headers: Vec<(String, String)>,
    pub body: Vec<(String, String)>,
}

/// The job source and the address that shares are mined for.
#[derive(Debug)]
pub struct ApiClient {
    pub url: String,
    pub address: String,
}

/// Pairs of strings as pairs of their characters.
pub open spec fn pairs(list: Seq<(String, String)>) -> Seq<(Seq<char>, Seq<char>)> {
    Seq::new(list.len(), |i: int| (list[i].0@, list[i].1@))
}

/// The headers that every request carries for `address`.
pub open spec fn headers_spec(address: Seq<char>) -> Seq<(Seq<char>, Seq<char>)> {
    seq![("Address"@, address), ("Chain"@, "BSV"@), ("Wallet"@, "PANDA"@)]
}

/// The body fields that report `solution`.
pub open spec fn share_fields(solution: Solution) -> Seq<(Seq<char>, Seq<char>)> {
    seq![
        ("bsvContractLocation"@, solution.location@),
        ("nonce"@, solution.nonce@),
        ("tokenId"@, solution.token_id@),
        ("winningHash"@, solution.hash@),
    ]
}

impl Clone for ApiClient {
    fn clone(&self) -> (copy: ApiClient)
        ensures
            copy == *self,
    {
        ApiClient { url: self.url.clone(), address: self.address.clone() }
    }
}

impl ApiClient {
    /// Whether `request` is one of this client's: sent by `method` to
    /// `path` under the client's url, with the client's headers.
    pub open spec fn addresses(self, request: Request, method: Method, path: Seq<char>) -> bool {
        &&& request.method == method
        &&& request.url@ == self.url@ + path
        &&& pairs(request.headers@) == headers_spec(self.address@)
    }

    pub fn new(url: String, address: String) -> (client: ApiClient)
        ensures
            client.url == url,
            client.address == address,
    {
        ApiClient { url, address }
    }

    fn request(&self, method: Method, path: &str) -> (request: Request)
        ensures
            self.addresses(request, method, path@),
            request.body@.len() == 0,
    {
        let mut headers: Vec<(String, String)> = Vec::new();
        headers.push(("Address".to_owned(), self.address.clone()));
        headers.push(("Chain".to_owned(), "BSV".to_owned()));
        headers.push(("Wallet".to_owned(), "PANDA".to_owned()));
        assert(pairs(headers@) =~= headers_spec(self.address@));
        Request { method, url: self.url.clone().concat(path), headers, body: Vec::new() }
    }

    /// A GET request for `path`.
    pub fn get(&self, path: String) -> (request: Request)
        ensures
            self.addresses(request, Method::Get, path@),
            request.body@.len() == 0,
    {
        self.request(Method::Get, path.as_str())
    }

    /// A POST request for `path`, with no body yet.
    pub fn post(&self, path: String) -> (request: Request)
        ensures
            self.addresses(request, Method::Post, path@),
            request.body@.len() == 0,
    {
        self.request(Method::Post, path.as_str())
    }

    /// The request that submits `solution`.
    pub fn submit_share(&self, solution: &Solution) -> (request: Request)
        ensures
            self.addresses(request, Method::Post, "/mint/save"@),
            pairs(request.body@) == share_fields(*solution),
    {
        let mut request: Request = self.request(Method::Post, "/mint/save");
        let mut body: Vec<(String, String)> = Vec::new();
        body.push(("bsvContractLocation".to_owned(), solution.location.clone()));
        body.push(("nonce".to_owned(), solution.nonce.clone()));
        body.push(("tokenId".to_owned(), solution.token_id.clone()));
        body.push(("winningHash".to_owned(), solution.hash.clone()));
        assert(pairs(body@) =~= share_fields(*solution));
        request.body = body;
        request
    }

    /// The request that fetches the job of the ticker `slug`.
    pub fn fetch_ticker(&self, slug: &String) -> (request: Request)
        ensures
            self.addresses(request, Method::Get, "/token/search/bsv?ticker="@ + slug@),
            request.body@.len() == 0,
    {
        let path: String = "/token/search/bsv?ticker=".to_owned().concat(slug.as_str());
        self.request(Method::Get, path.as_str())
    }
}

} // verus!
