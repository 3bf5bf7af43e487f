//! Requests to the exchange: parameters, query strings, and signing.
//!
//! A request is built as plain data.  Sending it is left to the caller.

use vstd::prelude::*;
use vstd::pervasive::VecAdditionalExecFns;
use vstd::string::StringExecFns;
use crate::account::UpbitAccount;
use crate::signing::{fresh_nonce, hex_lower, hs256_token, lower_hex, sha512, sha512_of, sign_hs256};
use crate::text::{join, joined, plain_pairs, texts};

verus! {

/// A failure on this side of the exchange.
#[derive(Clone, Copy, Debug, PartialEq, Eq, Structural)]
pub enum InternalRequestError {
    /// The request could not be sent.
    ErrorWhileSend,
    /// The request has a method that its kind of endpoint does not take.
    WrongMethod,
}

/// A failure in what the exchange answered.
#[derive(Clone, Copy, Debug, PartialEq, Eq, Structural)]
pub enum UpbitResponseError {
    /// The answer is not of the expected shape.
    MismatchedResponseType,
    /// The exchange refused the call for the rate of calls.
    TooManyApiCall,
}

/// The method of a request.
#[derive(Clone, Copy, Debug, PartialEq, Eq, Structural)]
pub enum RequestMethod {
    Get,
    Post,
}

/// Starts a request.
#[derive(Clone, Copy, Debug, PartialEq, Eq, Structural)]
pub struct UpbitRequestBuilder {}

/// A request in the making: where it goes, how, and with which parameters.
/// No two parameters have the same name.
#[derive(Debug)]
pub struct UpbitRequestConfig {
    url: String,
    method: RequestMethod,
    parameters: Vec<(String, String)>,
}

/// A request ready to be sent.
#[derive(Clone, Debug)]
pub struct UpbitRequest {
    pub method: RequestMethod,
    pub url: String,
    /// The header fields, name and value.
    pub headers: Vec<(String, String)>,
    /// The bearer token of a private request.
    pub bearer: Option<String>,
    /// The body of a POST request.
    pub body: Option<String>,
}

/// The first position from `from` on at which `params` has the name `key`,
/// or the length of `params` if there is none.
pub open spec fn key_index(params: Seq<(Seq<char>, Seq<char>)>, key: Seq<char>, from: int) -> int
    decreases params.len() - from,
{
    if from < 0 || from >= params.len() {
        params.len() as int
    } else if params[from].0 == key {
        from
    } else {
        key_index(params, key, from + 1)
    }
}

/// `params` with `key` set to `value`: in the place where `key` stood, or at
/// the end.
pub open spec fn with_parameter(
    params: Seq<(Seq<char>, Seq<char>)>,
    key: Seq<char>,
    value: Seq<char>,
) -> Seq<(Seq<char>, Seq<char>)> {
    let i = key_index(params, key, 0);
    if i < params.len() {
        params.update(i, (key, value))
    } else {
        params.push((key, value))
    }
}

/// Whether no two parameters have the same name.
pub open spec fn distinct_keys(params: Seq<(Seq<char>, Seq<char>)>) -> bool {
    forall|i: int, j: int|
        0 <= i < j < params.len() ==> (#[trigger] params[i]).0 != (#[trigger] params[j]).0
}

/// One parameter in a query string: `name=value`.
pub open spec fn query_pair(p: (Seq<char>, Seq<char>)) -> Seq<char> {
    p.0 + seq!['='] + p.1
}

/// One parameter as a member of a JSON object: `"name": "value"`.
pub open spec fn json_pair(p: (Seq<char>, Seq<char>)) -> Seq<char> {
    seq!['"'] + p.0 + seq!['"', ':', ' ', '"'] + p.1 + seq!['"']
}

/// The query string of `params`: `name=value` for each, with `&` between.
pub open spec fn query_string(params: Seq<(Seq<char>, Seq<char>)>) -> Seq<char> {
    joined(Seq::new(params.len(), |i: int| query_pair(params[i])), seq!['&'])
}

/// The JSON object of `params`, or nothing where there are none.
pub open spec fn json_object(params: Seq<(Seq<char>, Seq<char>)>) -> Seq<char> {
    if params.len() == 0 {
        Seq::empty()
    } else {
        seq!['{'] + joined(Seq::new(params.len(), |i: int| json_pair(params[i])), seq![',', ' '])
            + seq!['}']
    }
}

/// `url` with the query string of `params` behind a `?`, where there are any.
pub open spec fn with_query(url: Seq<char>, params: Seq<(Seq<char>, Seq<char>)>) -> Seq<char> {
    if params.len() == 0 {
        url
    } else {
        url + seq!['?'] + query_string(params)
    }
}

/// The header fields of every request.
pub open spec fn standard_headers() -> Seq<(Seq<char>, Seq<char>)> {
    seq![("Accept"@, "application/json"@), ("Content-Type"@, "application/json"@)]
}

/// The claims of the token of a private request: the access key and the
/// nonce, and for a POST the SHA-512 digest of the query string in lower-case
/// hexadecimal with the name of that algorithm.
pub open spec fn token_claims(
    method: RequestMethod,
    access_key: Seq<char>,
    nonce: Seq<char>,
    query: Seq<char>,
) -> Seq<(Seq<char>, Seq<char>)> {
    let base = seq![("access_key"@, access_key), ("nonce"@, nonce)];
    match method {
        RequestMethod::Get => base,
        RequestMethod::Post => base + seq![
            ("query_hash"@, lower_hex(sha512_of(vstd::utf8::encode_utf8(query)))),
            ("query_hash_alg"@, "SHA512"@),
        ],
    }
}

/// The claims of a token have distinct names.
pub proof fn lemma_token_claims_distinct(
    method: RequestMethod,
    access_key: Seq<char>,
    nonce: Seq<char>,
    query: Seq<char>,
)
    ensures
        distinct_keys(token_claims(method, access_key, nonce, query)),
{
    reveal_strlit("access_key");
    reveal_strlit("nonce");
    reveal_strlit("query_hash");
    reveal_strlit("query_hash_alg");
    assert("access_key"@.len() == 10 && "nonce"@.len() == 5 && "query_hash"@.len() == 10
        && "query_hash_alg"@.len() == 14);
    assert("access_key"@[0] != "query_hash"@[0]);
    let claims = token_claims(method, access_key, nonce, query);
    assert forall|i: int, j: int| 0 <= i < j < claims.len() implies (#[trigger] claims[i]).0 != (
    #[trigger] claims[j]).0 by {
        assert(claims[0].0 == "access_key"@);
        assert(claims[1].0 == "nonce"@);
        if claims.len() > 2 {
            assert(claims[2].0 == "query_hash"@);
            assert(claims[3].0 == "query_hash_alg"@);
        }
    }
}

/// `key_index` stays between `from` and the length, and no earlier position
/// from `from` on has the name.
pub proof fn lemma_key_index(params: Seq<(Seq<char>, Seq<char>)>, key: Seq<char>, from: int)
    requires
        0 <= from <= params.len(),
    ensures
        from <= key_index(params, key, from) <= params.len(),
        key_index(params, key, from) < params.len() ==> params[key_index(params, key, from)].0
            == key,
        forall|k: int| from <= k < key_index(params, key, from) ==> (#[trigger] params[k]).0 != key,
    decreases params.len() - from,
{
    if from < params.len() && params[from].0 != key {
        lemma_key_index(params, key, from + 1);
    }
}

/// Setting a parameter keeps the names distinct.
pub proof fn lemma_with_parameter_distinct(
    params: Seq<(Seq<char>, Seq<char>)>,
    key: Seq<char>,
    value: Seq<char>,
)
    requires
        distinct_keys(params),
    ensures
        distinct_keys(with_parameter(params, key, value)),
{
    lemma_key_index(params, key, 0);
    let i = key_index(params, key, 0);
    let out = with_parameter(params, key, value);
    assert forall|a: int, b: int| 0 <= a < b < out.len() implies (#[trigger] out[a]).0 != (
    #[trigger] out[b]).0 by {
        if i < params.len() {
            assert(params[a].0 != params[b].0);
        } else if b < params.len() {
            assert(params[a].0 != params[b].0);
        } else {
            assert(params[a].0 != key);
        }
    }
}

impl Default for UpbitRequestBuilder {
    fn default() -> (b: UpbitRequestBuilder)
        ensures
            b == (UpbitRequestBuilder {  }),
    {
        UpbitRequestBuilder {  }
    }
}

impl UpbitRequestBuilder {
    /// A GET request to `url`, without parameters yet.
    pub fn get(self, url: String) -> (config: UpbitRequestConfig)
        ensures
            config.address() == url@,
            config.verb() == RequestMethod::Get,
            config.params().len() == 0,
    {
        UpbitRequestConfig { url, method: RequestMethod::Get, parameters: Vec::new() }
    }

    /// A POST request to `url`, without parameters yet.
    pub fn post(self, url: String) -> (config: UpbitRequestConfig)
        ensures
            config.address() == url@,
            config.verb() == RequestMethod::Post,
            config.params().len() == 0,
    {
        UpbitRequestConfig { url, method: RequestMethod::Post, parameters: Vec::new() }
    }
}

/// The query string and the JSON object of `parameters`.
pub fn generate_request_body(parameters: &Vec<(String, String)>) -> (out: (String, String))
    ensures
        out.0@ == query_string(plain_pairs(parameters@)),
        out.1@ == json_object(plain_pairs(parameters@)),
{
    let n: usize = parameters.len();
    if n == 0 {
        return (String::new(), String::new());
    }
    let ghost params = plain_pairs(parameters@);
    let mut query_parts: Vec<String> = Vec::new();
    let mut json_parts: Vec<String> = Vec::new();
    let mut i: usize = 0;
    while i < n
        invariant
            n == parameters@.len(),
            params == plain_pairs(parameters@),
            i <= n,
            query_parts@.len() == i,
            json_parts@.len() == i,
            forall|k: int| 0 <= k < i ==> (#[trigger] query_parts@[k])@ == query_pair(params[k]),
            forall|k: int| 0 <= k < i ==> (#[trigger] json_parts@[k])@ == json_pair(params[k]),
        decreases n - i,
    {
        let name: &str = parameters[i].0.as_str();
        let value: &str = parameters[i].1.as_str();
        proof {
            reveal_strlit("=");
            reveal_strlit("\"");
            reveal_strlit("\": \"");
        }
        let mut q: String = String::from_str(name);
        q.append("=");
        q.append(value);
        assert(q@ =~= query_pair(params[i as int]));
        let mut j: String = String::from_str("\"");
        j.append(name);
        j.append("\": \"");
        j.append(value);
        j.append("\"");
        assert(j@ =~= json_pair(params[i as int]));
        query_parts.push(q);
        json_parts.push(j);
        i = i + 1;
    }
    proof {
        reveal_strlit("&");
        reveal_strlit(", ");
        reveal_strlit("{");
        reveal_strlit("}");
        assert(texts(query_parts@) =~= Seq::new(params.len(), |k: int| query_pair(params[k])));
        assert(texts(json_parts@) =~= Seq::new(params.len(), |k: int| json_pair(params[k])));
        assert("&"@ =~= seq!['&']);
        assert(", "@ =~= seq![',', ' ']);
    }
    let query: String = join(&query_parts, "&");
    let members: String = join(&json_parts, ", ");
    let mut json: String = String::from_str("{");
    json.append(members.as_str());
    json.append("}");
    assert(json@ =~= json_object(params));
    (query, json)
}

/// The header fields of every request.
pub fn headers() -> (out: Vec<(String, String)>)
    ensures
        plain_pairs(out@) == standard_headers(),
{
    let mut out: Vec<(String, String)> = Vec::new();
    out.push((String::from_str("Accept"), String::from_str("application/json")));
    out.push((String::from_str("Content-Type"), String::from_str("application/json")));
    assert(plain_pairs(out@) =~= standard_headers());
    out
}

impl Clone for UpbitRequestConfig {
    fn clone(&self) -> (out: UpbitRequestConfig)
        ensures
            out.address() == self.address(),
            out.verb() == self.verb(),
            out.params() == self.params(),
    {
        proof {
            use_type_invariant(self);
        }
        let n: usize = self.parameters.len();
        let mut parameters: Vec<(String, String)> = Vec::new();
        let mut i: usize = 0;
        while i < n
            invariant
                n == self.parameters@.len(),
                i <= n,
                parameters@.len() == i,
                forall|k: int| 0 <= k < i ==> parameters@[k] == self.parameters@[k],
            decreases n - i,
        {
            parameters.push((self.parameters[i].0.clone(), self.parameters[i].1.clone()));
            i = i + 1;
        }
        assert(plain_pairs(parameters@) =~= plain_pairs(self.parameters@));
        UpbitRequestConfig { url: self.url.clone(), method: self.method, parameters }
    }
}

impl UpbitRequestConfig {
    /// No two parameters have the same name.
    #[verifier::type_invariant]
    spec fn distinct(&self) -> bool {
        distinct_keys(plain_pairs(self.parameters@))
    }

    /// Where the request goes.
    pub closed spec fn address(&self) -> Seq<char> {
        self.url@
    }

    /// The method of the request.
    pub closed spec fn verb(&self) -> RequestMethod {
        self.method
    }

    /// The parameters as plain text.
    pub closed spec fn params(&self) -> Seq<(Seq<char>, Seq<char>)> {
        plain_pairs(self.parameters@)
    }

    /// Where the request goes.
    pub fn url(&self) -> (url: &String)
        ensures
            url@ == self.address(),
    {
        &self.url
    }

    /// The method of the request.
    pub fn method(&self) -> (method: RequestMethod)
        ensures
            method == self.verb(),
    {
        self.method
    }

    /// The parameters, which have distinct names.
    pub fn parameters(&self) -> (parameters: &Vec<(String, String)>)
        ensures
            plain_pairs(parameters@) == self.params(),
            distinct_keys(self.params()),
    {
        proof {
            use_type_invariant(self);
        }
        &self.parameters
    }

    /// Sets the parameter `key` to `value`.  A parameter of that name keeps
    /// its place and takes the new value; a new one goes to the end.
    pub fn add_parameter(self, key: &str, value: &str) -> (out: UpbitRequestConfig)
        ensures
            out.address() == self.address(),
            out.verb() == self.verb(),
            out.params() == with_parameter(self.params(), key@, value@),
            distinct_keys(out.params()),
    {
        proof {
            use_type_invariant(&self);
        }
        let ghost before = self.params();
        let mut parameters: Vec<(String, String)> = self.parameters;
        let name: String = String::from_str(key);
        let n: usize = parameters.len();
        let mut i: usize = 0;
        let mut found: bool = false;
        while i < n && !found
            invariant
                n == parameters@.len(),
                before == plain_pairs(parameters@),
                name@ == key@,
                i <= n,
                found ==> i < n && before[i as int].0 == key@,
                key_index(before, key@, 0) == key_index(before, key@, i as int),
            decreases n - i + (if found { 0int } else { 1int }),
        {
            if parameters[i].0 == name {
                found = true;
            } else {
                i = i + 1;
            }
        }
        proof {
            lemma_with_parameter_distinct(before, key@, value@);
        }
        if found {
            parameters.set(i, (name, String::from_str(value)));
        } else {
            parameters.push((name, String::from_str(value)));
        }
        assert(plain_pairs(parameters@) =~= with_parameter(before, key@, value@));
        UpbitRequestConfig { url: self.url, method: self.method, parameters }
    }

    /// The address of the request with its parameters in a query string.
    pub fn full_url(&self) -> (url: String)
        ensures
            url@ == with_query(self.address(), self.params()),
    {
        let mut url: String = self.url.clone();
        if self.parameters.len() > 0 {
            let (query, _) = generate_request_body(&self.parameters);
            proof {
                reveal_strlit("?");
            }
            url.append("?");
            url.append(query.as_str());
            assert(url@ =~= with_query(self.address(), self.params()));
        }
        url
    }

    /// The request to a public endpoint, which only takes GET.
    pub fn public(self) -> (r: Result<UpbitRequest, InternalRequestError>)
        ensures
            match r {
                Ok(request) => {
                    &&& self.verb() == RequestMethod::Get
                    &&& request.method == RequestMethod::Get
                    &&& request.url@ == with_query(self.address(), self.params())
                    &&& plain_pairs(request.headers@) == standard_headers()
                    &&& request.bearer is None
                    &&& request.body is None
                },
                Err(e) => e == InternalRequestError::WrongMethod && self.verb()
                    == RequestMethod::Post,
            },
    {
        match self.method {
            RequestMethod::Get => Ok(
                UpbitRequest {
                    method: RequestMethod::Get,
                    url: self.full_url(),
                    headers: headers(),
                    bearer: None,
                    body: None,
                },
            ),
            RequestMethod::Post => Err(InternalRequestError::WrongMethod),
        }
    }

    /// The token that a private request of this shape carries for `account`
    /// and `nonce`.
    pub open spec fn token_for(&self, account: &UpbitAccount, nonce: Seq<char>) -> Seq<char> {
        hs256_token(
            token_claims(self.verb(), account.access_key@, nonce, query_string(self.params())),
            vstd::utf8::encode_utf8(account.secret_key@),
        )
    }

    /// Whether `request` is this request with the bearer token `token`: the
    /// parameters in the query string, and for a POST in the body as well.
    pub open spec fn carries(&self, token: Seq<char>, request: UpbitRequest) -> bool {
        &&& request.method == self.verb()
        &&& request.url@ == with_query(self.address(), self.params())
        &&& plain_pairs(request.headers@) == standard_headers()
        &&& request.bearer matches Some(t) && t@ == token
        &&& match self.verb() {
            RequestMethod::Get => request.body is None,
            RequestMethod::Post => request.body matches Some(b) && b@ == json_object(
                self.params(),
            ),
        }
    }

    /// The claims to sign for `account` with `nonce`.
    pub fn claims(&self, account: &UpbitAccount, nonce: &str) -> (out: Vec<(String, String)>)
        ensures
            plain_pairs(out@) == token_claims(
                self.verb(),
                account.access_key@,
                nonce@,
                query_string(self.params()),
            ),
    {
        let mut out: Vec<(String, String)> = Vec::new();
        out.push((String::from_str("access_key"), account.access_key.clone()));
        out.push((String::from_str("nonce"), String::from_str(nonce)));
        match self.method {
            RequestMethod::Get => {},
            RequestMethod::Post => {
                let (query, _) = generate_request_body(&self.parameters);
                let digest: Vec<u8> = sha512(query.as_str().as_bytes());
                let text: String = match hex_lower(digest.as_slice(), 1024) {
                    Some(text) => text,
                    None => {
                        proof {
                            assert(false);
                        }
                        String::new()
                    },
                };
                out.push((String::from_str("query_hash"), text));
                out.push((String::from_str("query_hash_alg"), String::from_str("SHA512")));
            },
        }
        assert(plain_pairs(out@) =~= token_claims(
            self.verb(),
            account.access_key@,
            nonce@,
            query_string(self.params()),
        ));
        out
    }

    /// This request with the bearer token `token`.
    pub fn authorize(self, token: String) -> (request: UpbitRequest)
        ensures
            self.carries(token@, request),
    {
        let url: String = self.full_url();
        let body: Option<String> = match self.method {
            RequestMethod::Get => None,
            RequestMethod::Post => {
                let (_, json) = generate_request_body(&self.parameters);
                Some(json)
            },
        };
        UpbitRequest { method: self.method, url, headers: headers(), bearer: Some(token), body }
    }

    /// The request to a private endpoint, signed for `account` with `nonce`.
    /// It always succeeds.
    pub fn private_with_nonce(self, account: &UpbitAccount, nonce: &str) -> (r: Result<
        UpbitRequest,
        InternalRequestError,
    >)
        ensures
            r matches Ok(request) && self.carries(self.token_for(account, nonce@), request),
    {
        let claims: Vec<(String, String)> = self.claims(account, nonce);
        proof {
            lemma_token_claims_distinct(
                self.verb(),
                account.access_key@,
                nonce@,
                query_string(self.params()),
            );
        }
        match sign_hs256(&claims, account.secret_key.as_str().as_bytes()) {
            Ok(token) => Ok(self.authorize(token)),
            Err(_) => vstd::pervasive::unreached(),
        }
    }

    /// The request to a private endpoint, signed for `account` with a fresh
    /// nonce of 36 characters.  It always succeeds.
    pub fn private(self, account: &UpbitAccount) -> (r: Result<UpbitRequest, InternalRequestError>)
        ensures
            r matches Ok(request) && exists|nonce: Seq<char>|
                nonce.len() == 36 && #[trigger] self.carries(
                    self.token_for(account, nonce),
                    request,
                ),
    {
        let nonce: String = fresh_nonce();
        let r = self.private_with_nonce(account, nonce.as_str());
        proof {
            assert(self.carries(self.token_for(account, nonce@), r->Ok_0));
        }
        r
    }
}

} // verus!
