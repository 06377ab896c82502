use vstd::prelude::*;

use crate::error::CliError;
use crate::json::{Json, json_as_str, json_get};
use base64::Engine;
use vstd::string::StringSliceAdditionalSpecFns;
use vstd::utf8::encode_utf8;
use crate::text::{concat2, decimal, split_first, split_once_char, u64_to_decimal};

verus! {

// ---------------------------------------------------------------------------
// Requests
// ---------------------------------------------------------------------------

/// Query parameters as plain text pairs.
pub open spec fn params_view(params: Seq<(String, String)>) -> Seq<(Seq<char>, Seq<char>)> {
    params.map_values(|p: (String, String)| (p.0@, p.1@))
}

/// A GET request: the full URL and its query parameters, in order.
#[derive(Debug)]
pub struct Request {
    pub url: String,
    pub params: Vec<(String, String)>,
}

/// The paging parameters: `limit` when a limit is set, `offset` when it is not zero.
pub open spec fn base_params_spec(limit: Option<u32>, offset: u32) -> Seq<(Seq<char>, Seq<char>)> {
    let with_limit = match limit {
        Some(l) => seq![("limit"@, decimal(l as nat))],
        None => Seq::empty(),
    };
    if offset > 0 {
        with_limit.push(("offset"@, decimal(offset as nat)))
    } else {
        with_limit
    }
}

/// The `key=value` filters of an iLEAP endpoint as query parameters: each
/// filter is split at its first `=`; a filter without `=` is skipped.
pub open spec fn kv_filter_params(filters: Seq<Seq<char>>) -> Seq<(Seq<char>, Seq<char>)>
    decreases filters.len(),
{
    if filters.len() == 0 {
        Seq::empty()
    } else {
        let rest = kv_filter_params(filters.drop_last());
        match split_first(filters.last(), '=') {
            Some((k, v)) => rest.push((k, v)),
            None => rest,
        }
    }
}

/// The views of a list of strings.
pub open spec fn strings_view(v: Seq<String>) -> Seq<Seq<char>> {
    v.map_values(|s: String| s@)
}

/// The OData filter of a PACT listing: only the first expression is sent, as `$filter`.
pub open spec fn pact_filter_params(filter: Seq<Seq<char>>) -> Seq<(Seq<char>, Seq<char>)> {
    if filter.len() > 0 {
        seq![("$filter"@, filter[0])]
    } else {
        Seq::empty()
    }
}

/// The resources the CLI lists.
#[derive(Debug, Clone, Copy, PartialEq, Eq, Structural)]
pub enum Resource {
    Footprints,
    Shipments,
    Tocs,
    Hocs,
    Tad,
    Aed,
}

impl Resource {
    pub open spec fn spec_path(self) -> Seq<char> {
        match self {
            Resource::Footprints => "/2/footprints"@,
            Resource::Shipments => "/v1/ileap/shipments"@,
            Resource::Tocs => "/v1/ileap/tocs"@,
            Resource::Hocs => "/v1/ileap/hocs"@,
            Resource::Tad => "/v1/ileap/tad"@,
            Resource::Aed => "/v1/ileap/aed"@,
        }
    }

    /// The endpoint path of the resource.
    pub fn path(&self) -> (p: &'static str)
        ensures
            p@ == self.spec_path(),
    {
        match self {
            Resource::Footprints => "/2/footprints",
            Resource::Shipments => "/v1/ileap/shipments",
            Resource::Tocs => "/v1/ileap/tocs",
            Resource::Hocs => "/v1/ileap/hocs",
            Resource::Tad => "/v1/ileap/tad",
            Resource::Aed => "/v1/ileap/aed",
        }
    }
}

fn pair(k: &str, v: String) -> (p: (String, String))
    ensures
        p.0@ == k@,
        p.1@ == v@,
{
    (String::from_str(k), v)
}

/// The API client's configuration: where it sends requests and with which
/// bearer token. The HTTP transport that uses it lives with the program.
#[derive(Debug)]
pub struct Client {
    base_url: String,
    token: String,
    timeout: Option<u64>,
}

impl Client {
    pub closed spec fn spec_base_url(&self) -> Seq<char> {
        self.base_url@
    }

    pub closed spec fn spec_token(&self) -> Seq<char> {
        self.token@
    }

    pub closed spec fn spec_timeout(&self) -> Option<u64> {
        self.timeout
    }

    /// A client that presents `token`; `timeout` is the request timeout in seconds.
    pub fn from_token(base_url: &str, token: String, timeout: Option<u64>) -> (c: Self)
        ensures
            c.spec_base_url() == base_url@,
            c.spec_token() == token@,
            c.spec_timeout() == timeout,
    {
        Client { base_url: String::from_str(base_url), token, timeout }
    }

    pub fn token(&self) -> (t: &str)
        ensures
            t@ == self.spec_token(),
    {
        self.token.as_str()
    }

    pub fn base_url(&self) -> (u: &str)
        ensures
            u@ == self.spec_base_url(),
    {
        self.base_url.as_str()
    }

    pub fn timeout(&self) -> (t: Option<u64>)
        ensures
            t == self.spec_timeout(),
    {
        self.timeout
    }

    /// The paging parameters of a listing.
    pub fn base_params(limit: Option<u32>, offset: u32) -> (p: Vec<(String, String)>)
        ensures
            params_view(p@) == base_params_spec(limit, offset),
    {
        let mut p: Vec<(String, String)> = Vec::new();
        if let Some(l) = limit {
            p.push(pair("limit", u64_to_decimal(l as u64)));
        }
        if offset > 0 {
            p.push(pair("offset", u64_to_decimal(offset as u64)));
        }
        assert(params_view(p@) =~= base_params_spec(limit, offset));
        p
    }

    /// Appends the `key=value` filters to `params`.
    fn push_kv_filters(params: &mut Vec<(String, String)>, filters: &[String])
        ensures
            params_view(final(params)@) == params_view(old(params)@) + kv_filter_params(
                strings_view(filters@),
            ),
    {
        let ghost start = params_view(params@);
        let mut i: usize = 0;
        while i < filters.len()
            invariant
                i <= filters@.len(),
                params_view(params@) == start + kv_filter_params(
                    strings_view(filters@.subrange(0, i as int)),
                ),
            decreases filters@.len() - i,
        {
            let ghost fs = strings_view(filters@.subrange(0, i + 1));
            assert(fs.drop_last() =~= strings_view(filters@.subrange(0, i as int)));
            assert(fs.last() == filters@[i as int]@);
            match split_once_char(filters[i].as_str(), '=') {
                Some((k, v)) => {
                    let ghost f = filters@[i as int]@;
                    assert(fs.last() == f);
                    assert(kv_filter_params(fs) == kv_filter_params(fs.drop_last()).push(
                        (k@, v@),
                    ));
                    let ghost before = params@;
                    params.push((k, v));
                    assert(params_view(params@) =~= params_view(before).push((k@, v@)));
                    assert(params_view(params@) =~= start + kv_filter_params(fs));
                },
                None => {
                    assert(kv_filter_params(fs) == kv_filter_params(fs.drop_last()));
                },
            }
            i = i + 1;
        }
        assert(filters@.subrange(0, filters@.len() as int) =~= filters@);
    }

    /// Query parameters of an iLEAP listing.
    pub fn list_params(limit: Option<u32>, offset: u32, filters: &[String]) -> (p: Vec<
        (String, String),
    >)
        ensures
            params_view(p@) == base_params_spec(limit, offset) + kv_filter_params(
                strings_view(filters@),
            ),
    {
        let mut p = Self::base_params(limit, offset);
        Self::push_kv_filters(&mut p, filters);
        p
    }

    /// Query parameters of a PACT footprints listing.
    pub fn footprints_params(limit: Option<u32>, offset: u32, filter: &[String]) -> (p: Vec<
        (String, String),
    >)
        ensures
            params_view(p@) == base_params_spec(limit, offset) + pact_filter_params(
                strings_view(filter@),
            ),
    {
        let mut p = Self::base_params(limit, offset);
        let ghost before = params_view(p@);
        if filter.len() > 0 {
            p.push(pair("$filter", filter[0].clone()));
            assert(params_view(p@) =~= before + pact_filter_params(strings_view(filter@)));
        } else {
            assert(params_view(p@) =~= before + pact_filter_params(strings_view(filter@)));
        }
        p
    }

    /// The full URL of an API path.
    pub fn url(&self, path: &str) -> (u: String)
        ensures
            u@ == self.spec_base_url() + path@,
    {
        concat2(self.base_url.as_str(), path)
    }

    /// The request that lists PACT footprints.
    pub fn footprints(&self, limit: Option<u32>, offset: u32, filter: &[String]) -> (r: Request)
        ensures
            r.url@ == self.spec_base_url() + "/2/footprints"@,
            params_view(r.params@) == base_params_spec(limit, offset) + pact_filter_params(
                strings_view(filter@),
            ),
    {
        Request { url: self.url("/2/footprints"), params: Self::footprints_params(limit, offset, filter) }
    }

    /// The request that fetches one PACT footprint.
    pub fn footprint(&self, id: &str) -> (r: Request)
        ensures
            r.url@ == self.spec_base_url() + "/2/footprints/"@ + id@,
            r.params@.len() == 0,
    {
        let path = concat2("/2/footprints/", id);
        Request { url: self.url(path.as_str()), params: Vec::new() }
    }

    /// The request that lists one of the iLEAP standalone resources at `path`.
    pub fn list(&self, path: &str, limit: Option<u32>, offset: u32, filters: &[String]) -> (r: Request)
        ensures
            r.url@ == self.spec_base_url() + path@,
            params_view(r.params@) == base_params_spec(limit, offset) + kv_filter_params(
                strings_view(filters@),
            ),
    {
        Request { url: self.url(path), params: Self::list_params(limit, offset, filters) }
    }

    /// The request that lists `resource`.
    pub fn resource_list(&self, resource: Resource, limit: Option<u32>, offset: u32, filters: &[String]) -> (r: Request)
        ensures
            r.url@ == self.spec_base_url() + resource.spec_path(),
            params_view(r.params@) == base_params_spec(limit, offset) + (if resource
                == Resource::Footprints {
                pact_filter_params(strings_view(filters@))
            } else {
                kv_filter_params(strings_view(filters@))
            }),
    {
        match resource {
            Resource::Footprints => self.footprints(limit, offset, filters),
            _ => self.list(resource.path(), limit, offset, filters),
        }
    }

    pub fn shipments(&self, limit: Option<u32>, offset: u32, filters: &[String]) -> (r: Request)
        ensures
            r.url@ == self.spec_base_url() + "/v1/ileap/shipments"@,
            params_view(r.params@) == base_params_spec(limit, offset) + kv_filter_params(
                strings_view(filters@),
            ),
    {
        self.list("/v1/ileap/shipments", limit, offset, filters)
    }

    pub fn tocs(&self, limit: Option<u32>, offset: u32, filters: &[String]) -> (r: Request)
        ensures
            r.url@ == self.spec_base_url() + "/v1/ileap/tocs"@,
            params_view(r.params@) == base_params_spec(limit, offset) + kv_filter_params(
                strings_view(filters@),
            ),
    {
        self.list("/v1/ileap/tocs", limit, offset, filters)
    }

    pub fn hocs(&self, limit: Option<u32>, offset: u32, filters: &[String]) -> (r: Request)
        ensures
            r.url@ == self.spec_base_url() + "/v1/ileap/hocs"@,
            params_view(r.params@) == base_params_spec(limit, offset) + kv_filter_params(
                strings_view(filters@),
            ),
    {
        self.list("/v1/ileap/hocs", limit, offset, filters)
    }

    pub fn tad(&self, limit: Option<u32>, offset: u32, filters: &[String]) -> (r: Request)
        ensures
            r.url@ == self.spec_base_url() + "/v1/ileap/tad"@,
            params_view(r.params@) == base_params_spec(limit, offset) + kv_filter_params(
                strings_view(filters@),
            ),
    {
        self.list("/v1/ileap/tad", limit, offset, filters)
    }

    pub fn aed(&self, limit: Option<u32>, offset: u32, filters: &[String]) -> (r: Request)
        ensures
            r.url@ == self.spec_base_url() + "/v1/ileap/aed"@,
            params_view(r.params@) == base_params_spec(limit, offset) + kv_filter_params(
                strings_view(filters@),
            ),
    {
        self.list("/v1/ileap/aed", limit, offset, filters)
    }
}

} // verus!

verus! {

// ---------------------------------------------------------------------------
// Dry runs
// ---------------------------------------------------------------------------

/// `members` are the query parameters `params`, each value a JSON string.
pub open spec fn is_params_object(members: Seq<(String, Json)>, params: Seq<(Seq<char>, Seq<char>)>) -> bool {
    &&& members.len() == params.len()
    &&& forall|i: int|
        0 <= i < params.len() ==> {
            &&& (#[trigger] members[i]).0@ == params[i].0
            &&& members[i].1 matches Json::String(s)
            &&& s@ == params[i].1
        }
}

/// The document printed by `--dry-run`:
/// `{"dry_run": true, "method": "GET", "url": <url>, "params": {<params>}}`.
pub open spec fn is_dry_run_value(v: Json, url: Seq<char>, params: Seq<(Seq<char>, Seq<char>)>) -> bool {
    &&& v matches Json::Object(e)
    &&& e@.len() == 4
    &&& e@[0].0@ == "dry_run"@ && e@[0].1 == Json::Bool(true)
    &&& e@[1].0@ == "method"@ && (e@[1].1 matches Json::String(m) && m@ == "GET"@)
    &&& e@[2].0@ == "url"@ && (e@[2].1 matches Json::String(u) && u@ == url)
    &&& e@[3].0@ == "params"@ && (e@[3].1 matches Json::Object(pm) && is_params_object(pm@, params))
}

fn params_object(params: Vec<(String, String)>) -> (members: Vec<(String, Json)>)
    ensures
        is_params_object(members@, params_view(params@)),
{
    let mut params = params;
    let ghost p0 = params@;
    let n = params.len();
    let mut members: Vec<(String, Json)> = Vec::new();
    let mut i: usize = 0;
    while i < n
        invariant
            n == p0.len(),
            i <= n,
            params@ == p0.subrange(i as int, n as int),
            members@.len() == i,
            forall|j: int|
                0 <= j < i ==> {
                    &&& (#[trigger] members@[j]).0@ == p0[j].0@
                    &&& members@[j].1 matches Json::String(s)
                    &&& s@ == p0[j].1@
                },
        decreases n - i,
    {
        let (k, v) = params.remove(0);
        assert(params@ =~= p0.subrange(i + 1, n as int));
        members.push((k, Json::String(v)));
        i = i + 1;
    }
    members
}

impl Client {
    /// The document describing the request that would be sent to `path`.
    pub fn dry_run_value(&self, path: &str, params: Vec<(String, String)>) -> (v: Json)
        ensures
            is_dry_run_value(v, self.spec_base_url() + path@, params_view(params@)),
    {
        let url = self.url(path);
        let ghost pv = params_view(params@);
        let members = params_object(params);
        let mut e: Vec<(String, Json)> = Vec::new();
        e.push((String::from_str("dry_run"), Json::Bool(true)));
        e.push((String::from_str("method"), Json::String(String::from_str("GET"))));
        e.push((String::from_str("url"), Json::String(url)));
        e.push((String::from_str("params"), Json::Object(members)));
        Json::Object(e)
    }

    /// `--dry-run` of a PACT footprints listing.
    pub fn footprints_dry_run(&self, limit: Option<u32>, offset: u32, filter: &[String]) -> (v: Json)
        ensures
            is_dry_run_value(
                v,
                self.spec_base_url() + "/2/footprints"@,
                base_params_spec(limit, offset) + pact_filter_params(strings_view(filter@)),
            ),
    {
        self.dry_run_value("/2/footprints", Self::footprints_params(limit, offset, filter))
    }

    /// `--dry-run` of fetching one PACT footprint.
    pub fn footprint_dry_run(&self, id: &str) -> (v: Json)
        ensures
            is_dry_run_value(v, self.spec_base_url() + "/2/footprints/"@ + id@, Seq::empty()),
    {
        let path = concat2("/2/footprints/", id);
        let v = self.dry_run_value(path.as_str(), Vec::new());
        assert(params_view(Seq::<(String, String)>::empty()) =~= Seq::empty());
        assert(self.spec_base_url() + path@ =~= self.spec_base_url() + "/2/footprints/"@ + id@);
        v
    }

    /// `--dry-run` of an iLEAP standalone listing at `path`.
    pub fn list_dry_run(&self, path: &str, limit: Option<u32>, offset: u32, filters: &[String]) -> (v: Json)
        ensures
            is_dry_run_value(
                v,
                self.spec_base_url() + path@,
                base_params_spec(limit, offset) + kv_filter_params(strings_view(filters@)),
            ),
    {
        self.dry_run_value(path, Self::list_params(limit, offset, filters))
    }
}

} // verus!

verus! {

// ---------------------------------------------------------------------------
// Responses: retries and failures
// ---------------------------------------------------------------------------

/// How many times a request is repeated after a rate-limit or server error.
pub const MAX_RETRIES: u32 = 2;

/// The base of the exponential back-off between attempts, in milliseconds.
pub const BACKOFF_BASE_MS: u64 = 1000;

/// HTTP 429 and every 5xx status are worth another attempt.
pub open spec fn is_retryable_status(status: u16) -> bool {
    status == 429 || (500 <= status && status <= 599)
}

/// 2xx statuses.
pub open spec fn is_success_status(status: u16) -> bool {
    200 <= status && status <= 299
}

/// The pause before attempt `attempt + 1`: `BACKOFF_BASE_MS * 2^attempt` plus a
/// jitter of up to half a second taken from the clock's sub-second milliseconds.
pub open spec fn retry_delay_ms(attempt: u32, subsec_millis: u32) -> int {
    BACKOFF_BASE_MS * (if attempt == 0 { 1int } else { 2int }) + (subsec_millis % 500) as int
}

/// What to do with a response.
#[derive(Debug, PartialEq, Eq, Structural)]
pub enum ResponseAction {
    /// Wait `delay_ms` milliseconds, then send the request again.
    Retry { delay_ms: u64 },
    /// Read the body as the result.
    Accept,
    /// Report the failure.
    Fail,
}

/// What to do with a response of status `status` after `attempt` retries:
/// retry rate-limit and server errors while retries remain, accept 2xx,
/// report everything else.
pub open spec fn response_action_spec(attempt: u32, status: u16, subsec_millis: u32) -> ResponseAction {
    if is_retryable_status(status) && attempt < MAX_RETRIES {
        ResponseAction::Retry { delay_ms: retry_delay_ms(attempt, subsec_millis) as u64 }
    } else if is_success_status(status) {
        ResponseAction::Accept
    } else {
        ResponseAction::Fail
    }
}

/// The attempts of one GET request.
pub struct RequestSession {
    attempt: u32,
}

impl RequestSession {
    /// The number of retries made so far.
    pub closed spec fn spec_attempt(&self) -> u32 {
        self.attempt
    }

    pub closed spec fn wf(&self) -> bool {
        self.attempt <= MAX_RETRIES
    }

    pub fn new() -> (s: Self)
        ensures
            s.wf(),
            s.spec_attempt() == 0,
    {
        RequestSession { attempt: 0 }
    }

    pub fn attempt(&self) -> (a: u32)
        ensures
            a == self.spec_attempt(),
    {
        self.attempt
    }

    /// Decides what to do with a response of status `status`; `subsec_millis`
    /// is the sub-second part of the current time, the source of the jitter.
    /// A retry is counted in the session.
    pub fn on_response(&mut self, status: u16, subsec_millis: u32) -> (a: ResponseAction)
        requires
            old(self).wf(),
        ensures
            final(self).wf(),
            a == response_action_spec(old(self).spec_attempt(), status, subsec_millis),
            final(self).spec_attempt() == (if a is Retry {
                old(self).spec_attempt() + 1
            } else {
                old(self).spec_attempt() as int
            }),
    {
        let retryable = status == 429 || (500 <= status && status <= 599);
        if retryable && self.attempt < MAX_RETRIES {
            let factor: u64 = if self.attempt == 0 { 1 } else { 2 };
            let jitter: u64 = (subsec_millis % 500) as u64;
            let delay_ms = BACKOFF_BASE_MS * factor + jitter;
            self.attempt = self.attempt + 1;
            ResponseAction::Retry { delay_ms }
        } else if 200 <= status && status <= 299 {
            ResponseAction::Accept
        } else {
            ResponseAction::Fail
        }
    }
}

/// The number of requests sent for one GET when the server answers the
/// successive attempts with `statuses`: a request is repeated only while the
/// answer is a retry (see `response_action_spec`).
pub open spec fn requests_sent(attempt: u32, statuses: Seq<u16>) -> nat
    decreases statuses.len(),
{
    if statuses.len() == 0 {
        0
    } else if is_retryable_status(statuses[0]) && attempt < MAX_RETRIES {
        1 + requests_sent((attempt + 1) as u32, statuses.drop_first())
    } else {
        1
    }
}

/// Whatever the server answers, one GET sends at most `MAX_RETRIES + 1`
/// requests: after `MAX_RETRIES` retries every answer is final.
pub proof fn requests_are_bounded(attempt: u32, statuses: Seq<u16>)
    requires
        attempt <= MAX_RETRIES,
    ensures
        requests_sent(attempt, statuses) <= MAX_RETRIES - attempt + 1,
    decreases statuses.len(),
{
    if statuses.len() > 0 && is_retryable_status(statuses[0]) && attempt < MAX_RETRIES {
        requests_are_bounded((attempt + 1) as u32, statuses.drop_first());
    }
}

/// A rate-limit answer (429) or any server error (500 to 599) is retried
/// while fewer than two retries were made, after `1000 * 2^attempt` ms plus
/// the jitter.
pub proof fn server_errors_are_retried(attempt: u32, status: u16, subsec_millis: u32)
    requires
        attempt < 2,
        status == 429 || (500 <= status && status <= 599),
    ensures
        response_action_spec(attempt, status, subsec_millis) == (ResponseAction::Retry {
            delay_ms: (1000 * (if attempt == 0 { 1int } else { 2int }) + subsec_millis % 500) as u64,
        }),
{
}

/// Retries stop once `MAX_RETRIES` (two) are used up, whatever the status.
pub proof fn no_retry_after_max(status: u16, subsec_millis: u32)
    ensures
        MAX_RETRIES == 2,
        !(response_action_spec(MAX_RETRIES, status, subsec_millis) is Retry),
{
}

/// Only rate-limit (429) and server errors (5xx) are retried: a success is
/// accepted and any other failure, 404 and the authentication errors among
/// them, is reported at once.
pub proof fn only_transient_failures_are_retried(attempt: u32, status: u16, subsec_millis: u32)
    requires
        status != 429,
        !(500 <= status && status <= 599),
    ensures
        response_action_spec(attempt, status, subsec_millis) == (if 200 <= status && status <= 299 {
            ResponseAction::Accept
        } else {
            ResponseAction::Fail
        }),
{
}

/// The hint appended to the message of a failed GET.
pub open spec fn get_failure_hint(status: u16) -> Seq<char> {
    if status == 401 {
        " — token may be expired, re-authenticate or provide a fresh --token"@
    } else if status == 403 {
        " — access denied to this resource"@
    } else if status == 404 {
        " — resource not found, check the ID or filter values"@
    } else if status == 429 {
        " — rate limited, retry limit reached"@
    } else if 500 <= status && status <= 599 {
        " — server error, the API may be temporarily unavailable"@
    } else {
        ""@
    }
}

fn get_failure_hint_text(status: u16) -> (h: &'static str)
    ensures
        h@ == get_failure_hint(status),
{
    if status == 401 {
        " — token may be expired, re-authenticate or provide a fresh --token"
    } else if status == 403 {
        " — access denied to this resource"
    } else if status == 404 {
        " — resource not found, check the ID or filter values"
    } else if status == 429 {
        " — rate limited, retry limit reached"
    } else if 500 <= status && status <= 599 {
        " — server error, the API may be temporarily unavailable"
    } else {
        ""
    }
}

/// The error of a failed GET: not found (404), authentication (401, 403), or
/// another failure. `status_text` is the status as displayed, e.g. `404 Not Found`.
pub fn request_failure(url: &str, status: u16, status_text: &str, body: &str) -> (e: CliError)
    ensures
        e.spec_exit_code() == (if status == 404 {
            3i32
        } else if status == 401 || status == 403 {
            4i32
        } else {
            1i32
        }),
        e.spec_message() == "GET "@ + url@ + " failed ("@ + status_text@ + ")"@ + get_failure_hint(
            status,
        ) + ": "@ + body@,
{
    let mut m = String::from_str("GET ");
    m.append(url);
    m.append(" failed (");
    m.append(status_text);
    m.append(")");
    m.append(get_failure_hint_text(status));
    m.append(": ");
    m.append(body);
    if status == 404 {
        CliError::NotFound(m)
    } else if status == 401 || status == 403 {
        CliError::Auth(m)
    } else {
        CliError::Other(m)
    }
}

/// The notice printed before a retry.
pub fn retry_notice(status_text: &str, delay_ms: u64, attempt: u32, body: &str) -> (m: String)
    requires
        attempt < MAX_RETRIES,
    ensures
        m@ == "request failed ("@ + status_text@ + "), retrying in "@ + decimal(delay_ms as nat)
            + "ms (attempt "@ + decimal(attempt as nat + 1) + "/"@ + decimal(MAX_RETRIES as nat)
            + "): "@ + body@,
{
    let mut m = String::from_str("request failed (");
    m.append(status_text);
    m.append("), retrying in ");
    m.append(u64_to_decimal(delay_ms).as_str());
    m.append("ms (attempt ");
    m.append(u64_to_decimal(attempt as u64 + 1).as_str());
    m.append("/");
    m.append(u64_to_decimal(MAX_RETRIES as u64).as_str());
    m.append("): ");
    m.append(body);
    m
}

/// The error of a request that never got a response.
pub fn send_failure(url: &str, timed_out: bool) -> (e: CliError)
    ensures
        e matches CliError::Other(_),
        e.spec_message() == (if timed_out {
            "request to "@ + url@ + " timed out — increase --timeout if needed"@
        } else {
            "failed to connect to "@ + url@
                + " — verify --base-url is correct and the server is reachable"@
        }),
{
    if timed_out {
        let mut m = String::from_str("request to ");
        m.append(url);
        m.append(" timed out — increase --timeout if needed");
        CliError::Other(m)
    } else {
        let mut m = String::from_str("failed to connect to ");
        m.append(url);
        m.append(" — verify --base-url is correct and the server is reachable");
        CliError::Other(m)
    }
}

/// The error of a response body that could not be read.
pub fn read_failure(detail: &str) -> (e: CliError)
    ensures
        e matches CliError::Other(_),
        e.spec_message() == "failed to read response body: "@ + detail@,
{
    let mut m = String::from_str("failed to read response body: ");
    m.append(detail);
    CliError::Other(m)
}

/// The error of a response body that is not JSON.
pub fn parse_failure(body: &str, detail: &str) -> (e: CliError)
    ensures
        e matches CliError::Other(_),
        e.spec_message() == "failed to parse response — unexpected format: "@ + body@ + ": "@
            + detail@,
{
    let mut m = String::from_str("failed to parse response — unexpected format: ");
    m.append(body);
    m.append(": ");
    m.append(detail);
    CliError::Other(m)
}

} // verus!

verus! {

// ---------------------------------------------------------------------------
// Authentication
// ---------------------------------------------------------------------------

/// The character of the standard base64 alphabet for `0 <= i < 64`.
pub open spec fn b64_char(i: int) -> char {
    if i < 26 {
        (65 + i) as char
    } else if i < 52 {
        (97 + i - 26) as char
    } else if i < 62 {
        (48 + i - 52) as char
    } else if i == 62 {
        '+'
    } else {
        '/'
    }
}

/// Standard base64 with `=` padding: each group of three bytes becomes four
/// characters; a final group of one or two bytes is padded to four.
pub open spec fn b64_encode(bytes: Seq<u8>) -> Seq<char>
    decreases bytes.len(),
{
    if bytes.len() == 0 {
        Seq::empty()
    } else if bytes.len() == 1 {
        let b0 = bytes[0] as int;
        seq![b64_char(b0 / 4), b64_char((b0 % 4) * 16), '=', '=']
    } else if bytes.len() == 2 {
        let b0 = bytes[0] as int;
        let b1 = bytes[1] as int;
        seq![b64_char(b0 / 4), b64_char((b0 % 4) * 16 + b1 / 16), b64_char((b1 % 16) * 4), '=']
    } else {
        let b0 = bytes[0] as int;
        let b1 = bytes[1] as int;
        let b2 = bytes[2] as int;
        seq![
            b64_char(b0 / 4),
            b64_char((b0 % 4) * 16 + b1 / 16),
            b64_char((b1 % 16) * 4 + b2 / 64),
            b64_char(b2 % 64),
        ] + b64_encode(bytes.subrange(3, bytes.len() as int))
    }
}

/// `base64::engine::general_purpose::STANDARD.encode(bytes)`: standard base64
/// with padding (see `b64_encode`). The length bound keeps the computation of
/// the output size, which panics on overflow, in range.
#[verifier::external_body]
fn base64_standard_encode(bytes: &[u8]) -> (r: String)
    requires
        bytes@.len() <= usize::MAX / 2,
    ensures
        r@ == b64_encode(bytes@),
{
    base64::engine::general_purpose::STANDARD.encode(bytes)
}

/// The `Authorization` header value of HTTP Basic authentication:
/// `Basic <base64(username:password)>`.
pub open spec fn basic_authorization_spec(username: Seq<char>, password: Seq<char>) -> Seq<char> {
    "Basic "@ + b64_encode(encode_utf8(username + seq![':'] + password))
}

pub fn basic_authorization(username: &str, password: &str) -> (h: String)
    requires
        encode_utf8(username@ + seq![':'] + password@).len() <= usize::MAX / 2,
    ensures
        h@ == basic_authorization_spec(username@, password@),
{
    let mut credentials = String::from_str(username);
    credentials.append(":");
    credentials.append(password);
    proof {
        reveal_strlit(":");
    }
    assert(credentials@ =~= username@ + seq![':'] + password@);
    let encoded = base64_standard_encode(credentials.as_str().as_bytes());
    concat2("Basic ", encoded.as_str())
}

/// The `Authorization` header value that carries `token` on API requests:
/// `Bearer <token>`.
pub fn bearer_authorization(token: &str) -> (h: String)
    ensures
        h@ == "Bearer "@ + token@,
{
    concat2("Bearer ", token)
}

/// The OpenID discovery document of the server at `base_url`.
pub fn discovery_url(base_url: &str) -> (u: String)
    ensures
        u@ == base_url@ + "/.well-known/openid-configuration"@,
{
    concat2(base_url, "/.well-known/openid-configuration")
}

/// The token endpoint: the `token_endpoint` string of the discovery document
/// when one was obtained and has it, `<base_url>/auth/token` otherwise.
pub open spec fn token_endpoint_spec(base_url: Seq<char>, discovery: Option<Json>) -> Seq<char> {
    match discovery {
        Some(doc) => match json_get(doc, "token_endpoint"@) {
            Some(v) => match json_as_str(v) {
                Some(e) => e,
                None => base_url + "/auth/token"@,
            },
            None => base_url + "/auth/token"@,
        },
        None => base_url + "/auth/token"@,
    }
}

/// Picks the token endpoint; `discovery` is the discovery document when it was
/// fetched successfully and parsed.
pub fn token_endpoint(base_url: &str, discovery: Option<&Json>) -> (e: String)
    ensures
        e@ == token_endpoint_spec(
            base_url@,
            match discovery {
                Some(d) => Some(*d),
                None => None,
            },
        ),
{
    if let Some(doc) = discovery {
        if let Some(v) = doc.get("token_endpoint") {
            if let Some(endpoint) = v.as_str() {
                return String::from_str(endpoint);
            }
        }
    }
    concat2(base_url, "/auth/token")
}

/// The error of a token request that never got a response.
pub fn auth_send_failure(token_endpoint: &str, timed_out: bool) -> (e: CliError)
    ensures
        e matches CliError::Other(_),
        e.spec_message() == (if timed_out {
            "request to "@ + token_endpoint@ + " timed out — increase --timeout if needed"@
        } else {
            "failed to reach token endpoint at "@ + token_endpoint@
                + " — verify --base-url is correct and the server is reachable"@
        }),
{
    if timed_out {
        let mut m = String::from_str("request to ");
        m.append(token_endpoint);
        m.append(" timed out — increase --timeout if needed");
        CliError::Other(m)
    } else {
        let mut m = String::from_str("failed to reach token endpoint at ");
        m.append(token_endpoint);
        m.append(" — verify --base-url is correct and the server is reachable");
        CliError::Other(m)
    }
}

/// The hint appended to the message of a refused token request.
pub open spec fn auth_failure_hint(status: u16) -> Seq<char> {
    if status == 401 {
        " — credentials rejected, check --username and --password"@
    } else if status == 403 {
        " — credentials valid but access denied, check account permissions"@
    } else {
        ""@
    }
}

/// The error of a token request refused with `status`: an authentication
/// error for 401 and 403, another failure otherwise.
pub fn auth_failure(status: u16, status_text: &str, body: &str) -> (e: CliError)
    ensures
        e.spec_exit_code() == (if status == 401 || status == 403 {
            4i32
        } else {
            1i32
        }),
        e.spec_message() == "authentication failed ("@ + status_text@ + ")"@ + auth_failure_hint(
            status,
        ) + ": "@ + body@,
{
    let hint = if status == 401 {
        " — credentials rejected, check --username and --password"
    } else if status == 403 {
        " — credentials valid but access denied, check account permissions"
    } else {
        ""
    };
    let mut m = String::from_str("authentication failed (");
    m.append(status_text);
    m.append(")");
    m.append(hint);
    m.append(": ");
    m.append(body);
    if status == 401 || status == 403 {
        CliError::Auth(m)
    } else {
        CliError::Other(m)
    }
}

/// The error of a token response whose body could not be read.
pub fn auth_read_failure(detail: &str) -> (e: CliError)
    ensures
        e matches CliError::Other(_),
        e.spec_message() == "failed to read auth response body: "@ + detail@,
{
    concat_error("failed to read auth response body: ", detail)
}

/// The error of a token response that does not carry an access token.
pub fn auth_parse_failure(body: &str, detail: &str) -> (e: CliError)
    ensures
        e matches CliError::Other(_),
        e.spec_message() == "failed to parse auth response — unexpected format: "@ + body@ + ": "@
            + detail@,
{
    let mut m = String::from_str("failed to parse auth response — unexpected format: ");
    m.append(body);
    m.append(": ");
    m.append(detail);
    CliError::Other(m)
}

fn concat_error(prefix: &str, detail: &str) -> (e: CliError)
    ensures
        e matches CliError::Other(_),
        e.spec_message() == prefix@ + detail@,
{
    CliError::Other(concat2(prefix, detail))
}

/// The `access_token` string of a token response.
pub open spec fn access_token_spec(response: Json) -> Option<Seq<char>> {
    match json_get(response, "access_token"@) {
        Some(v) => json_as_str(v),
        None => None,
    }
}

pub fn access_token(response: &Json) -> (r: Option<String>)
    ensures
        match r {
            Some(t) => access_token_spec(*response) == Some(t@),
            None => access_token_spec(*response) is None,
        },
{
    match response.get("access_token") {
        Some(v) => match v.as_str() {
            Some(t) => Some(String::from_str(t)),
            None => None,
        },
        None => None,
    }
}

} // verus!
