use crate::error::Error;
use crate::sign::{body_hash, hawk_fields_of, sign_request};
use crate::address::{
    api_reference, compose_request_url, is_valid_segment, join_url, leaves_host,
    make_api_reference, path_leaves_host, query_bytes, request_url, url_join, valid_segment,
    JoinedView,
};
use vstd::prelude::*;
use vstd::string::{StringExecFns, StringSliceAdditionalSpecFns};

verus! {

/// A client identifier and its access token, the key that requests are
/// signed with.
#[derive(Debug, Clone)]
pub struct Credentials {
    pub client_id: String,
    pub access_token: String,
}

impl Credentials {
    pub fn new(client_id: &str, access_token: &str) -> (r: Credentials)
        ensures
            r.client_id@ == client_id@,
            r.access_token@ == access_token@,
    {
        Credentials { client_id: client_id.to_owned(), access_token: access_token.to_owned() }
    }
}

/// The bytes that may stand in a method: `!`, `*`, `+`, `-`, `.`, `^`,
/// `_`, `` ` ``, `|`, `~`, ASCII digits and ASCII letters.
pub open spec fn is_method_byte(b: u8) -> bool {
    b == 33 || b == 42 || b == 43 || b == 45 || b == 46 || b == 94 || b == 95 || b == 96 || b
        == 124 || b == 126 || (48 <= b && b <= 57) || (65 <= b && b <= 90) || (97 <= b && b <= 122)
}

/// A method token: non-empty, of method bytes only.
pub open spec fn is_http_method(m: Seq<u8>) -> bool {
    m.len() > 0 && forall|i: int| 0 <= i < m.len() ==> is_method_byte(#[trigger] m[i])
}

/// Relies on `http::Method::from_bytes` (re-exported as `reqwest::Method`),
/// which accepts exactly the non-empty byte strings of method bytes.
#[verifier::external_body]
fn check_method(m: &str) -> (r: bool)
    ensures
        r == is_http_method(m.spec_bytes()),
{
    reqwest::Method::from_bytes(m.as_bytes()).is_ok()
}

/// The content type that a request body is declared and hashed as.
pub open spec fn json_content_type() -> Seq<char> {
    "application/json"@
}

/// A request ready for the transport: method, full URL, body and its
/// declared content type, and the `Authorization` header value when the
/// client has credentials.
pub struct ComposedRequest {
    pub method: String,
    pub url: Vec<u8>,
    pub content_type: Option<String>,
    pub body: Option<Vec<u8>>,
    pub authorization: Option<String>,
}

/// A client of one service of a deployment: the base URL
/// `<root>/api/<service>/<version>/` and optional credentials.
pub struct Client {
    /// The credentials that requests are signed with; without them requests
    /// go unsigned.
    pub credentials: Option<Credentials>,
    base_url: String,
}

pub open spec fn starts_with_slash(p: Seq<u8>) -> bool {
    p.len() > 0 && p[0] == 47
}

/// The joined URL of a request path below a base URL.
pub open spec fn joined(base: Seq<char>, path: Seq<char>) -> JoinedView {
    url_join(base, path)->0
}

pub open spec fn joined_path(j: JoinedView) -> Seq<char> {
    j.1
}

pub open spec fn joined_host(j: JoinedView) -> Option<Seq<char>> {
    j.4
}

pub open spec fn joined_port(j: JoinedView) -> Option<u16> {
    j.5
}

pub open spec fn joined_head(j: JoinedView) -> Seq<char> {
    j.0
}

impl Client {
    /// The base URL of the service.
    pub closed spec fn base_url(&self) -> Seq<char> {
        self.base_url@
    }

    /// The credentials that requests are signed with.
    pub closed spec fn creds(&self) -> Option<Credentials> {
        self.credentials
    }

    /// A client for the service `service_name`, at version `version`, of the
    /// deployment whose root URL is `root_url`: its base URL is the root
    /// joined with `/api/<service_name>/<version>/`.
    pub fn new(
        root_url: &str,
        service_name: &str,
        version: &str,
        credentials: Option<Credentials>,
    ) -> (r: Result<Client, Error>)
        ensures
            !(valid_segment(service_name.spec_bytes()) && valid_segment(version.spec_bytes()))
                ==> r == Err::<Client, Error>(Error::MalformedPath),
            valid_segment(service_name.spec_bytes()) && valid_segment(version.spec_bytes()) ==> (r
                is Ok <==> url_join(root_url@, api_reference(service_name@, version@)) is Some),
            r matches Err(e) ==> (e == Error::MalformedUrl || e == Error::MalformedPath),
            r matches Ok(c) ==> {
                &&& c.base_url() == joined_head(
                    joined(root_url@, api_reference(service_name@, version@)),
                )
                &&& c.creds() == credentials
            },
    {
        if !is_valid_segment(service_name) || !is_valid_segment(version) {
            return Err(Error::MalformedPath);
        }
        let reference = make_api_reference(service_name, version);
        match join_url(root_url, reference.as_str()) {
            Some(j) => Ok(Client { credentials, base_url: j.head }),
            None => Err(Error::MalformedUrl),
        }
    }

    /// Builds a request: `path` joined onto the base URL, the query pairs
    /// appended in order, the body as given and declared as JSON, and the
    /// signature when the client has credentials.
    pub fn build_request(
        &self,
        method: &str,
        path: &str,
        query: Option<Vec<(&str, &str)>>,
        body: Option<Vec<u8>>,
    ) -> (r: Result<ComposedRequest, Error>)
        requires
            !starts_with_slash(path.spec_bytes()),
        ensures
            (leaves_host(path.spec_bytes()) || url_join(self.base_url(), path@) is None) ==> r
                == Err::<ComposedRequest, Error>(Error::MalformedPath),
            !leaves_host(path.spec_bytes()) && url_join(self.base_url(), path@) is Some
                && !is_http_method(method.spec_bytes()) ==> r == Err::<ComposedRequest, Error>(
                Error::InvalidMethod,
            ),
            !leaves_host(path.spec_bytes()) && url_join(self.base_url(), path@) is Some
                && is_http_method(method.spec_bytes()) ==> (self.creds() is None ==> r is Ok),
            self.creds() is Some && !leaves_host(path.spec_bytes()) && url_join(
                self.base_url(),
                path@,
            ) is Some && is_http_method(method.spec_bytes()) && (joined_host(
                joined(self.base_url(), path@),
            ) is None || joined_port(joined(self.base_url(), path@)) is None) ==> r == Err::<
                ComposedRequest,
                Error,
            >(Error::SigningError),
            r matches Err(e) ==> (e == Error::MalformedPath || e == Error::InvalidMethod || e
                == Error::SigningError),
            r matches Ok(req) ==> {
                let j = joined(self.base_url(), path@);
                &&& url_join(self.base_url(), path@) is Some
                &&& req.method@ == method@
                &&& req.url@ == request_url(j, query_bytes(query))
                &&& req.body == body
                &&& (req.content_type is Some <==> body is Some)
                &&& req.content_type matches Some(ct) ==> ct@ == json_content_type()
                &&& (req.authorization is Some <==> self.creds() is Some)
                &&& req.authorization matches Some(a) ==> exists|ts: u64, nonce: Seq<char>|
                    a@ == "Hawk "@ + #[trigger] hawk_fields_of(
                        self.creds()->0.client_id@,
                        self.creds()->0.access_token@,
                        method@,
                        joined_host(j)->0,
                        joined_port(j)->0,
                        joined_path(j),
                        body_hash(json_content_type(), body),
                        ts,
                        nonce,
                    )
            },
    {
        if path_leaves_host(path) {
            return Err(Error::MalformedPath);
        }
        let j = match join_url(self.base_url.as_str(), path) {
            Some(j) => j,
            None => {
                return Err(Error::MalformedPath);
            },
        };
        if !check_method(method) {
            return Err(Error::InvalidMethod);
        }
        let url = compose_request_url(&j, &query);
        let authorization = match &self.credentials {
            Some(c) => {
                let a = sign_request(
                    c.client_id.as_str(),
                    c.access_token.as_str(),
                    method,
                    &j.host,
                    j.port,
                    j.path.as_str(),
                    "application/json",
                    &body,
                )?;
                proof {
                    let jv = joined(self.base_url(), path@);
                    assert(j@ == jv);
                    assert(joined_host(jv)->0 == j.host->0@);
                    assert(joined_port(jv)->0 == j.port->0);
                    assert(joined_path(jv) == j.path@);
                }
                Some(a)
            },
            None => None,
        };
        let content_type = match &body {
            Some(_) => Some(String::from_str("application/json")),
            None => None,
        };
        Ok(ComposedRequest { method: method.to_owned(), url, content_type, body, authorization })
    }
}

} // verus!
