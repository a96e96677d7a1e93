//! The dispatch pipeline: a request value's descriptor is resolved, the rate
//! limiter consulted, the call built and (when required) signed, and the
//! transport's outcome decoded. The transport itself — the HTTP call — is the
//! caller's: the pipeline hands it a fully prepared request and takes back
//! the raw outcome.
use vstd::prelude::*;
use crate::encode::{build_json_body, build_query, json_body_of, pairs_view, query_of};
use crate::errors::ClientError;
use crate::json::{check_envelope, decode_envelope, envelope_of, models_of};
use crate::limit::{spec_attempt, RateLimitBucket};
use crate::sign::{sign, signature_of, Credentials};

verus! {

#[derive(Debug, Clone, Copy, PartialEq, Eq, Structural)]
pub enum HttpMethod {
    Get,
    Post,
}

impl HttpMethod {
    /// The upper-case method name, exactly as signed and sent.
    pub open spec fn spec_name(self) -> Seq<char> {
        match self {
            HttpMethod::Get => "GET"@,
            HttpMethod::Post => "POST"@,
        }
    }

    pub fn name(&self) -> (s: &str)
        ensures
            s@ == self.spec_name(),
    {
        match self {
            HttpMethod::Get => "GET",
            HttpMethod::Post => "POST",
        }
    }
}

/// The static declaration of one endpoint: HTTP method, path relative to the
/// API base, and whether authentication headers are required. The path
/// carries no query parameters; those derive from the request's own fields.
pub struct Descriptor {
    pub method: HttpMethod,
    pub path: String,
    pub auth: bool,
}

/// The contract every endpoint value implements: the seam between the
/// endpoint catalogue and the dispatch pipeline, so the dispatcher treats
/// every endpoint identically.
pub trait Request {
    spec fn spec_method(&self) -> HttpMethod;

    spec fn spec_path(&self) -> Seq<char>;

    spec fn spec_auth(&self) -> bool;

    /// The request's fields as key/value pairs in wire casing and order,
    /// fields with no value omitted.
    spec fn spec_pairs(&self) -> Seq<(Seq<char>, Seq<char>)>;

    fn descriptor(&self) -> (d: Descriptor)
        ensures
            d.method == self.spec_method(),
            d.path@ == self.spec_path(),
            d.auth == self.spec_auth(),
    ;

    fn query_pairs(&self) -> (q: Vec<(String, String)>)
        ensures
            pairs_view(q@) == self.spec_pairs(),
    ;
}

/// The path with the derived query string: for a GET with fields,
/// `path?key=value&...`; otherwise the path alone.
pub open spec fn spec_path_and_query(
    method: HttpMethod,
    path: Seq<char>,
    pairs: Seq<(Seq<char>, Seq<char>)>,
) -> Seq<char> {
    if method is Get && pairs.len() > 0 {
        path + "?"@ + query_of(pairs)
    } else {
        path
    }
}

/// The request body: a JSON object of the fields for POST, empty for GET.
pub open spec fn spec_req_body(method: HttpMethod, pairs: Seq<(Seq<char>, Seq<char>)>) -> Seq<
    char,
> {
    if method is Post {
        json_body_of(pairs)
    } else {
        Seq::empty()
    }
}

/// The four authentication headers: key, signature, the exact timestamp that
/// was signed, and passphrase.
pub open spec fn spec_auth_headers(
    key: Seq<char>,
    secret: Seq<char>,
    passphrase: Seq<char>,
    ts: Seq<char>,
    method: HttpMethod,
    path_and_query: Seq<char>,
    body: Seq<char>,
) -> Seq<(Seq<char>, Seq<char>)> {
    seq![
        ("OK-ACCESS-KEY"@, key),
        ("OK-ACCESS-SIGN"@, signature_of(secret, ts, method.spec_name(), path_and_query, body)),
        ("OK-ACCESS-TIMESTAMP"@, ts),
        ("OK-ACCESS-PASSPHRASE"@, passphrase),
    ]
}

/// A call ready for the transport: method, path with query, body, headers.
pub struct PreparedRequest {
    pub method: HttpMethod,
    pub path_and_query: String,
    pub body: String,
    pub headers: Vec<(String, String)>,
}

/// Build the call for a descriptor and its derived field pairs: the query or
/// body from the pairs and, when the descriptor demands authentication, the
/// four headers over the exact signed payload. Fails only with
/// `Configuration`, exactly when authentication is demanded while the
/// credentials are absent or incomplete; this is caught before any network
/// activity.
pub fn prepare_call(
    desc: &Descriptor,
    pairs: &Vec<(String, String)>,
    creds: Option<&Credentials>,
    timestamp: &str,
) -> (r: Result<PreparedRequest, ClientError>)
    ensures
        ({
            let needs = desc.auth;
            let ok_creds = creds matches Some(c) && c.complete();
            let pq = spec_path_and_query(desc.method, desc.path@, pairs_view(pairs@));
            let bd = spec_req_body(desc.method, pairs_view(pairs@));
            match r {
                Err(e) => e is Configuration && needs && !ok_creds,
                Ok(p) => (needs ==> ok_creds) && p.method == desc.method && p.path_and_query@ == pq
                    && p.body@ == bd && pairs_view(p.headers@) == (if needs {
                    spec_auth_headers(
                        creds->Some_0.key@,
                        creds->Some_0.secret@,
                        creds->Some_0.passphrase@,
                        timestamp@,
                        desc.method,
                        pq,
                        bd,
                    )
                } else {
                    Seq::<(Seq<char>, Seq<char>)>::empty()
                }),
            }
        }),
{
    let mut pq = String::new();
    pq.append(desc.path.as_str());
    let mut body = String::new();
    match desc.method {
        HttpMethod::Get => {
            if pairs.len() > 0 {
                pq.append("?");
                let q = build_query(pairs);
                pq.append(q.as_str());
            }
        },
        HttpMethod::Post => {
            body = build_json_body(pairs);
        },
    }
    assert(pq@ =~= spec_path_and_query(desc.method, desc.path@, pairs_view(pairs@)));
    assert(body@ =~= spec_req_body(desc.method, pairs_view(pairs@)));
    if desc.auth {
        let c = match creds {
            Some(c) => c,
            None => {
                return Err(ClientError::Configuration);
            },
        };
        if !c.is_complete() {
            return Err(ClientError::Configuration);
        }
        let sig = sign(c.secret.as_str(), timestamp, desc.method.name(), pq.as_str(),
            body.as_str());
        let mut headers: Vec<(String, String)> = Vec::new();
        headers.push(("OK-ACCESS-KEY".to_owned(), c.key.clone()));
        headers.push(("OK-ACCESS-SIGN".to_owned(), sig));
        headers.push(("OK-ACCESS-TIMESTAMP".to_owned(), timestamp.to_owned()));
        headers.push(("OK-ACCESS-PASSPHRASE".to_owned(), c.passphrase.clone()));
        assert(pairs_view(headers@) =~= spec_auth_headers(
            c.key@,
            c.secret@,
            c.passphrase@,
            timestamp@,
            desc.method,
            pq@,
            body@,
        ));
        Ok(PreparedRequest { method: desc.method, path_and_query: pq, body, headers })
    } else {
        let headers: Vec<(String, String)> = Vec::new();
        assert(pairs_view(headers@) =~= Seq::<(Seq<char>, Seq<char>)>::empty());
        Ok(PreparedRequest { method: desc.method, path_and_query: pq, body, headers })
    }
}

/// Build the call for a request value: resolve its descriptor and its field
/// pairs, then prepare the call as [`prepare_call`] does.
pub fn prepare_request<R: Request>(req: &R, creds: Option<&Credentials>, timestamp: &str) -> (r:
    Result<PreparedRequest, ClientError>)
    ensures
        ({
            let needs = req.spec_auth();
            let ok_creds = creds matches Some(c) && c.complete();
            let pq = spec_path_and_query(req.spec_method(), req.spec_path(), req.spec_pairs());
            let bd = spec_req_body(req.spec_method(), req.spec_pairs());
            match r {
                Err(e) => e is Configuration && needs && !ok_creds,
                Ok(p) => (needs ==> ok_creds) && p.method == req.spec_method() && p.path_and_query@
                    == pq && p.body@ == bd && pairs_view(p.headers@) == (if needs {
                    spec_auth_headers(
                        creds->Some_0.key@,
                        creds->Some_0.secret@,
                        creds->Some_0.passphrase@,
                        timestamp@,
                        req.spec_method(),
                        pq,
                        bd,
                    )
                } else {
                    Seq::<(Seq<char>, Seq<char>)>::empty()
                }),
            }
        }),
{
    let desc = req.descriptor();
    let pairs = req.query_pairs();
    prepare_call(&desc, &pairs, creds, timestamp)
}

/// The pipeline up to the transport: validate the configuration, then one
/// atomic check-and-increment on the bucket, then build and sign the call. A
/// slot is consumed exactly when the request is released to the transport.
/// An exhausted bucket yields `RateLimited` with the window's reset instant;
/// a caller under a blocking policy waits for that instant and tries again —
/// the library itself never sleeps.
pub fn begin_dispatch<R: Request>(
    req: &R,
    creds: Option<&Credentials>,
    timestamp: &str,
    bucket: &mut RateLimitBucket,
    now_ms: u64,
) -> (r: Result<PreparedRequest, ClientError>)
    requires
        old(bucket).inv(),
    ensures
        final (bucket).inv(),
        ({
            let needs = req.spec_auth();
            let ok_creds = creds matches Some(c) && c.complete();
            let admitted = spec_attempt(*old(bucket), now_ms).1;
            if needs && !ok_creds {
                *final (bucket) == *old(bucket) && (r matches Err(e) && e is Configuration)
            } else if !admitted {
                *final (bucket) == *old(bucket) && (r matches Err(e) && (e
                    matches ClientError::RateLimited { retry_at_ms } && retry_at_ms == if old(
                    bucket,
                ).window_start + old(bucket).window_ms <= u64::MAX {
                    (old(bucket).window_start + old(bucket).window_ms) as u64
                } else {
                    u64::MAX
                }))
            } else {
                *final (bucket) == spec_attempt(*old(bucket), now_ms).0 && (r matches Ok(p)
                    && p.method == req.spec_method() && p.path_and_query@ == spec_path_and_query(
                    req.spec_method(),
                    req.spec_path(),
                    req.spec_pairs(),
                ) && p.body@ == spec_req_body(req.spec_method(), req.spec_pairs()) && pairs_view(
                    p.headers@,
                ) == (if needs {
                    spec_auth_headers(
                        creds->Some_0.key@,
                        creds->Some_0.secret@,
                        creds->Some_0.passphrase@,
                        timestamp@,
                        req.spec_method(),
                        spec_path_and_query(req.spec_method(), req.spec_path(), req.spec_pairs()),
                        spec_req_body(req.spec_method(), req.spec_pairs()),
                    )
                } else {
                    Seq::<(Seq<char>, Seq<char>)>::empty()
                }))
            }
        }),
{
    let desc = req.descriptor();
    if desc.auth {
        let complete = match creds {
            Some(c) => c.is_complete(),
            None => false,
        };
        if !complete {
            return Err(ClientError::Configuration);
        }
    }
    let retry_at = bucket.retry_at();
    if !bucket.attempt(now_ms) {
        return Err(ClientError::RateLimited { retry_at_ms: retry_at });
    }
    prepare_request(req, creds, timestamp)
}

/// What the transport reports back: a delivered response body, or a failure
/// (connection, TLS, timeout) with the transport's own detail.
#[derive(Debug)]
pub enum TransportOutcome {
    Delivered { body: Vec<u8> },
    Failed { detail: String },
}

/// The pipeline after the transport: a transport failure is surfaced
/// verbatim and never retried here; a delivered body is decoded as the
/// envelope and checked for the exchange's error code; success yields the
/// data elements in their source order.
pub fn finish_dispatch(outcome: TransportOutcome) -> (r: Result<Vec<serde_json::Value>, ClientError,
>)
    ensures
        match outcome {
            TransportOutcome::Failed { detail } => r matches Err(e) && (e
                matches ClientError::Transport { detail: d } && d@ == detail@),
            TransportOutcome::Delivered { body } => match envelope_of(body@) {
                None => r matches Err(e) && (e matches ClientError::MalformedResponse { body: bb }
                    && bb@ == body@),
                Some(em) => if em.code == "0"@ {
                    r matches Ok(d) && models_of(d@) == em.data
                } else {
                    r matches Err(e) && (e matches ClientError::Api { code, msg } && code@
                        == em.code && msg@ == em.msg)
                },
            },
        },
{
    match outcome {
        TransportOutcome::Failed { detail } => Err(ClientError::Transport { detail }),
        TransportOutcome::Delivered { body } => {
            let env = match decode_envelope(&body) {
                Ok(e) => e,
                Err(er) => {
                    return Err(er);
                },
            };
            check_envelope(env)
        },
    }
}

} // verus!
