use crate::encoding::{lemma_query_round_trip, pair_bytes, parse_query, query_string, query_string_into};
use crate::error::Error;
use vstd::prelude::*;
use vstd::string::StringSliceAdditionalSpecFns;

verus! {

/// A URL made by joining a reference onto a base: the URL through its path,
/// the path, the query and fragment, the host, and the port (written or the
/// scheme's default).
pub struct JoinedUrl {
    pub head: String,
    pub path: String,
    pub query: Option<String>,
    pub fragment: Option<String>,
    pub host: Option<String>,
    pub port: Option<u16>,
}

pub type JoinedView = (
    Seq<char>,
    Seq<char>,
    Option<Seq<char>>,
    Option<Seq<char>>,
    Option<Seq<char>>,
    Option<u16>,
);

pub open spec fn opt_view(s: Option<String>) -> Option<Seq<char>> {
    match s {
        Some(h) => Some(h@),
        None => None,
    }
}

impl JoinedUrl {
    pub open spec fn view(&self) -> JoinedView {
        (self.head@, self.path@, opt_view(self.query), opt_view(self.fragment), opt_view(self.host), self.port)
    }
}

/// What `url::Url::parse` of `base`, then `Url::join` of `reference`, gives:
/// `None` where either fails.
pub uninterp spec fn url_join(base: Seq<char>, reference: Seq<char>) -> Option<JoinedView>;

/// Relies on `url::Url::parse` and `url::Url::join` to resolve `reference`
/// against `base`, and on slicing to `Position::AfterPath`, `path`, `query`,
/// `fragment`, `host_str` and `port_or_known_default` to read the result.
#[verifier::external_body]
pub(crate) fn join_url(base: &str, reference: &str) -> (r: Option<JoinedUrl>)
    ensures
        match r {
            Some(j) => url_join(base@, reference@) == Some(j@),
            None => url_join(base@, reference@) is None,
        },
{
    let u = ::url::Url::parse(base).ok()?.join(reference).ok()?;
    Some(JoinedUrl {
        head: u[..::url::Position::AfterPath].to_string(),
        path: u.path().to_string(),
        query: u.query().map(|q| q.to_string()),
        fragment: u.fragment().map(|f| f.to_string()),
        host: u.host_str().map(|h| h.to_string()),
        port: u.port_or_known_default(),
    })
}

/// A byte that ends a path segment or the path: `/`, `\`, `?` or `#`.
pub open spec fn is_segment_end(b: u8) -> bool {
    b == 47 || b == 92 || b == 63 || b == 35
}

/// A service name or version that stands as one path segment: no `/`, `\`,
/// `?` or `#`, and neither `.` nor `..`.
pub open spec fn valid_segment(s: Seq<u8>) -> bool {
    &&& forall|i: int| 0 <= i < s.len() ==> !is_segment_end(#[trigger] s[i])
    &&& s != seq![46u8]
    &&& s != seq![46u8, 46u8]
}

pub fn is_valid_segment(s: &str) -> (r: bool)
    ensures
        r == valid_segment(s.spec_bytes()),
{
    let b = s.as_bytes();
    let mut i: usize = 0;
    while i < b.len()
        invariant
            i <= b@.len(),
            b@ == s.spec_bytes(),
            forall|j: int| 0 <= j < i ==> !is_segment_end(#[trigger] b@[j]),
        decreases b@.len() - i,
    {
        let c = b[i];
        if c == 47 || c == 92 || c == 63 || c == 35 {
            assert(is_segment_end(b@[i as int]));
            return false;
        }
        i = i + 1;
    }
    if b.len() == 1 && b[0] == 46 {
        assert(b@ =~= seq![46u8]);
        return false;
    }
    if b.len() == 2 && b[0] == 46 && b[1] == 46 {
        assert(b@ =~= seq![46u8, 46u8]);
        return false;
    }
    assert(b@ != seq![46u8]) by {
        if b@ == seq![46u8] {
            assert(b@.len() == 1 && b@[0] == 46);
        }
    }
    assert(b@ != seq![46u8, 46u8]) by {
        if b@ == seq![46u8, 46u8] {
            assert(b@.len() == 2 && b@[0] == 46 && b@[1] == 46);
        }
    }
    true
}

/// The path begins with a scheme: a `:` comes before any `/`, `?` or `#`.
pub open spec fn starts_with_scheme(p: Seq<u8>) -> bool
    decreases p.len(),
{
    if p.len() == 0 {
        false
    } else if p[0] == 58 {
        true
    } else if p[0] == 47 || p[0] == 63 || p[0] == 35 {
        false
    } else {
        starts_with_scheme(p.drop_first())
    }
}

/// A relative path that would leave the service's host: it names a scheme,
/// or begins with `\`, which special schemes read as `/`.
pub open spec fn leaves_host(p: Seq<u8>) -> bool {
    starts_with_scheme(p) || (p.len() > 0 && p[0] == 92)
}

pub fn path_leaves_host(p: &str) -> (r: bool)
    ensures
        r == leaves_host(p.spec_bytes()),
{
    let b = p.as_bytes();
    if b.len() > 0 && b[0] == 92 {
        return true;
    }
    let mut i: usize = 0;
    assert(b@.skip(0) =~= b@);
    while i < b.len()
        invariant
            i <= b@.len(),
            b@ == p.spec_bytes(),
            !(b@.len() > 0 && b@[0] == 92),
            starts_with_scheme(b@) == starts_with_scheme(b@.skip(i as int)),
        decreases b@.len() - i,
    {
        let c = b[i];
        assert(b@.skip(i as int).drop_first() =~= b@.skip(i as int + 1));
        assert(b@.skip(i as int)[0] == c);
        if c == 58 {
            return true;
        }
        if c == 47 || c == 63 || c == 35 {
            return false;
        }
        i = i + 1;
    }
    assert(b@.skip(i as int).len() == 0);
    false
}

/// `/api/<service>/<version>/`, the reference that a service's base URL is
/// joined from.
pub open spec fn api_reference(service: Seq<char>, version: Seq<char>) -> Seq<char> {
    "/api/"@ + service + "/"@ + version + "/"@
}

pub fn make_api_reference(service: &str, version: &str) -> (r: String)
    ensures
        r@ == api_reference(service@, version@),
{
    let r = String::from_str("/api/").concat(service).concat("/").concat(version).concat("/");
    r
}

pub open spec fn utf8(s: Seq<char>) -> Seq<u8> {
    vstd::utf8::encode_utf8(s)
}

pub open spec fn fragment_part(f: Option<Seq<char>>) -> Seq<u8> {
    match f {
        Some(x) => seq![35u8] + utf8(x),
        None => seq![],
    }
}

/// The query of a request: where pairs are given, the joined URL's own query
/// (if any), an `&` where both it and the pairs are non-empty, then the
/// pairs; else the joined URL's own query.
pub open spec fn query_part(own: Option<Seq<char>>, pairs: Option<Seq<(Seq<u8>, Seq<u8>)>>) -> Seq<u8> {
    match pairs {
        Some(ps) => seq![63u8] + match own {
            Some(q) => utf8(q) + if utf8(q).len() > 0 && ps.len() > 0 {
                seq![38u8]
            } else {
                seq![]
            },
            None => seq![],
        } + query_string(ps),
        None => match own {
            Some(q) => seq![63u8] + utf8(q),
            None => seq![],
        },
    }
}

/// The full URL of a request from the joined URL `j` and the query pairs.
pub open spec fn request_url(j: JoinedView, pairs: Option<Seq<(Seq<u8>, Seq<u8>)>>) -> Seq<u8> {
    utf8(j.0) + query_part(j.2, pairs) + fragment_part(j.3)
}

pub open spec fn query_bytes(query: Option<Vec<(&str, &str)>>) -> Option<Seq<(Seq<u8>, Seq<u8>)>> {
    match query {
        Some(q) => Some(pair_bytes(q@)),
        None => None,
    }
}

/// Where the joined URL has no query of its own, the query of a request URL,
/// after the `?` that follows the joined URL's path, parses back to every
/// query pair, decoded, in the given order.
pub proof fn lemma_request_query_round_trip(j: JoinedView, query: Seq<(Seq<u8>, Seq<u8>)>)
    requires
        j.2 is None,
    ensures
        request_url(j, Some(query)).take(utf8(j.0).len() as int) == utf8(j.0),
        request_url(j, Some(query))[utf8(j.0).len() as int] == 63u8,
        parse_query(
            request_url(j, Some(query)).subrange(
                utf8(j.0).len() as int + 1,
                utf8(j.0).len() as int + 1 + query_string(query).len() as int,
            ),
        ) == query,
{
    let u = request_url(j, Some(query));
    let h = utf8(j.0);
    assert(u =~= h + seq![63u8] + query_string(query) + fragment_part(j.3));
    assert(u.take(h.len() as int) =~= h);
    assert(u.subrange(h.len() as int + 1, h.len() as int + 1 + query_string(query).len() as int)
        =~= query_string(query));
    lemma_query_round_trip(query);
}

pub fn push_slice(out: &mut Vec<u8>, s: &[u8])
    ensures
        final(out)@ == old(out)@ + s@,
{
    let mut i: usize = 0;
    while i < s.len()
        invariant
            i <= s@.len(),
            out@ == old(out)@ + s@.take(i as int),
        decreases s@.len() - i,
    {
        out.push(s[i]);
        assert(s@.take(i as int + 1) =~= s@.take(i as int).push(s@[i as int]));
        i = i + 1;
    }
    assert(s@.take(i as int) =~= s@);
}

/// Builds the URL of a request from the joined URL and the query pairs,
/// which are appended to the joined URL's own query as
/// `Url::query_pairs_mut` appends them.
pub fn compose_request_url(j: &JoinedUrl, query: &Option<Vec<(&str, &str)>>) -> (r: Vec<u8>)
    ensures
        r@ == request_url(j@, query_bytes(*query)),
{
    let mut out: Vec<u8> = Vec::new();
    push_slice(&mut out, j.head.as_str().as_bytes());
    let ghost h = out@;
    match query {
        Some(q) => {
            out.push(63);
            match &j.query {
                Some(own) => {
                    let o = own.as_str();
                    let ob = o.as_bytes();
                    push_slice(&mut out, ob);
                    assert(ob@ == utf8(own@));
                    assert(pair_bytes(q@).len() == q@.len());
                    if ob.len() > 0 && q.len() > 0 {
                        out.push(38);
                    }
                    assert(out@ =~= h + seq![63u8] + (utf8(own@) + if utf8(own@).len() > 0
                        && pair_bytes(q@).len() > 0 {
                        seq![38u8]
                    } else {
                        seq![]
                    }));
                },
                None => {
                    assert(out@ =~= h + seq![63u8]);
                },
            }
            let ghost mid = out@;
            query_string_into(&mut out, q);
            assert(out@ =~= mid + query_string(pair_bytes(q@)));
            assert(pair_bytes(q@).len() == q@.len());
            assert(out@ =~= h + query_part(opt_view(j.query), query_bytes(*query)));
        },
        None => match &j.query {
            Some(own) => {
                out.push(63);
                push_slice(&mut out, own.as_str().as_bytes());
                assert(out@ =~= h + query_part(opt_view(j.query), query_bytes(*query)));
            },
            None => {
                assert(out@ =~= h + query_part(opt_view(j.query), query_bytes(*query)));
            },
        },
    }
    assert(out@ =~= h + query_part(opt_view(j.query), query_bytes(*query)));
    match &j.fragment {
        Some(f) => {
            out.push(35);
            push_slice(&mut out, f.as_str().as_bytes());
        },
        None => {},
    }
    assert(out@ =~= request_url(j@, query_bytes(*query)));
    out
}

} // verus!
