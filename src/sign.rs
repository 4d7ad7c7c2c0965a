use crate::error::Error;
use vstd::prelude::*;
use vstd::string::StringExecFns;

verus! {

/// The Hawk payload hash (SHA-256 over the content type and the body) of a
/// body sent as `content_type`.
pub uninterp spec fn payload_hash_of(content_type: Seq<char>, body: Seq<u8>) -> Seq<u8>;

/// The Hawk header fields (`id`, `ts`, `nonce`, `mac` and, with a payload
/// hash, `hash`) that the credentials `id` and `key` make for a request with
/// this method, host, port, path and payload hash, at time `ts` (seconds
/// since the epoch) with nonce `nonce`.
pub uninterp spec fn hawk_fields_of(
    id: Seq<char>,
    key: Seq<char>,
    method: Seq<char>,
    host: Seq<char>,
    port: u16,
    path: Seq<char>,
    hash: Option<Seq<u8>>,
    ts: u64,
    nonce: Seq<char>,
) -> Seq<char>;

pub open spec fn opt_bytes(h: Option<&[u8]>) -> Option<Seq<u8>> {
    match h {
        Some(b) => Some(b@),
        None => None,
    }
}

/// The payload hash of an optional body sent as `content_type`.
pub open spec fn body_hash(content_type: Seq<char>, body: Option<Vec<u8>>) -> Option<Seq<u8>> {
    match body {
        Some(b) => Some(payload_hash_of(content_type, b@)),
        None => None,
    }
}

/// Relies on `hawk::PayloadHasher::hash` with SHA-256 to hash a body sent as
/// `content_type`; with the ring backend it does not fail.
#[verifier::external_body]
fn hash_payload(content_type: &str, body: &[u8]) -> (r: Option<Vec<u8>>)
    ensures
        r is Some,
        r matches Some(h) ==> h@ == payload_hash_of(content_type@, body@),
{
    hawk::PayloadHasher::hash(content_type, hawk::SHA256, body).ok()
}

/// Relies on `hawk::Key::new` (SHA-256), `hawk::RequestBuilder` and
/// `hawk::Request::make_header`, which picks a fresh nonce and the current
/// time, to make the Hawk header fields of a request; also returns the
/// header's `ts` (in seconds) and `nonce`. `None` where hawk reports an error.
#[verifier::external_body]
fn hawk_header(
    id: &str,
    key: &str,
    method: &str,
    host: &str,
    port: u16,
    path: &str,
    hash: Option<&[u8]>,
) -> (r: Option<(String, u64, String)>)
    ensures
        r matches Some(t) ==> t.0@ == hawk_fields_of(
            id@,
            key@,
            method@,
            host@,
            port,
            path@,
            opt_bytes(hash),
            t.1,
            t.2@,
        ),
{
    let key = hawk::Key::new(key, hawk::SHA256).ok()?;
    let credentials = hawk::Credentials { id: id.to_string(), key };
    let request = hawk::RequestBuilder::new(method, host, port, path).hash(hash).request();
    let header = request.make_header(&credentials).ok()?;
    let ts = header.ts?.duration_since(std::time::UNIX_EPOCH).ok()?.as_secs();
    let nonce = header.nonce.clone()?;
    Some((header.to_string(), ts, nonce))
}

/// What the signature of a request is made over besides method and path:
/// host, port, and the payload hash where there is a body.
pub struct SigningContext {
    pub host: String,
    pub port: u16,
    pub payload_hash: Option<Vec<u8>>,
}

/// The host and port that a request is signed for: both must be known.
pub fn signing_target(host: &Option<String>, port: Option<u16>) -> (r: Result<(String, u16), Error>)
    ensures
        r is Ok <==> host is Some && port is Some,
        r matches Ok(t) ==> t.0@ == host->0@ && t.1 == port->0,
        r matches Err(e) ==> e == Error::SigningError,
{
    match (host, port) {
        (Some(h), Some(p)) => Ok((h.clone(), p)),
        _ => Err(Error::SigningError),
    }
}

/// The context that a request is signed over: the target, and the payload
/// hash of the body, sent as `content_type`, when there is one.
pub fn signing_context(
    host: &Option<String>,
    port: Option<u16>,
    content_type: &str,
    body: &Option<Vec<u8>>,
) -> (r: Result<SigningContext, Error>)
    ensures
        r is Ok <==> host is Some && port is Some,
        r matches Ok(c) ==> {
            &&& c.host@ == host->0@
            &&& c.port == port->0
            &&& match c.payload_hash {
                Some(h) => body_hash(content_type@, *body) == Some(h@),
                None => body_hash(content_type@, *body) is None,
            }
        },
        r matches Err(e) ==> e == Error::SigningError,
{
    let (h, p) = signing_target(host, port)?;
    let payload_hash = match body {
        Some(b) => match hash_payload(content_type, b.as_slice()) {
            Some(x) => Some(x),
            None => {
                return Err(Error::SigningError);
            },
        },
        None => None,
    };
    Ok(SigningContext { host: h, port: p, payload_hash })
}

/// The `Authorization` header value for the Hawk header fields `fields`.
pub fn authorization_value(fields: String) -> (r: String)
    ensures
        r@ == "Hawk "@ + fields@,
{
    let r = String::from_str("Hawk ").concat(fields.as_str());
    r
}

/// Signs a request for the credentials `id` and `key`: the value of its
/// `Authorization` header, made over the method, host, port, path and the
/// payload hash of the body sent as `content_type`, at some time and nonce.
pub fn sign_request(
    id: &str,
    key: &str,
    method: &str,
    host: &Option<String>,
    port: Option<u16>,
    path: &str,
    content_type: &str,
    body: &Option<Vec<u8>>,
) -> (r: Result<String, Error>)
    ensures
        (host is None || port is None) ==> r == Err::<String, Error>(Error::SigningError),
        r matches Ok(v) ==> exists|ts: u64, nonce: Seq<char>|
            v@ == "Hawk "@ + #[trigger] hawk_fields_of(
                id@,
                key@,
                method@,
                host->0@,
                port->0,
                path@,
                body_hash(content_type@, *body),
                ts,
                nonce,
            ),
        r matches Err(e) ==> e == Error::SigningError,
{
    let c = signing_context(host, port, content_type, body)?;
    let hash = match &c.payload_hash {
        Some(h) => Some(h.as_slice()),
        None => None,
    };
    assert(opt_bytes(hash) == body_hash(content_type@, *body));
    match hawk_header(id, key, method, c.host.as_str(), c.port, path, hash) {
        Some(t) => {
            let ghost ts = t.1;
            let ghost nonce = t.2@;
            let v = authorization_value(t.0);
            assert(v@ == "Hawk "@ + hawk_fields_of(
                id@,
                key@,
                method@,
                host->0@,
                port->0,
                path@,
                body_hash(content_type@, *body),
                ts,
                nonce,
            ));
            Ok(v)
        },
        None => Err(Error::SigningError),
    }
}

} // verus!
