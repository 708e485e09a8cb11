//! A request template and how overrides are laid onto it.
use vstd::prelude::*;
use crate::error::{Fault, Field, XdiffError};
use crate::headers::{check_header, checked_header, content_type, content_type_of, content_type_name, insert_header, HeaderFault};
use crate::json::{
    coerce_value, coerced, compact_text, compact_text_of, form_text, form_text_of, object_fields_of,
    object_value, object_value_of, query_text, query_text_of, with_key, JsonObject,
};
use crate::text::{copy_pairs, pairs_view};
use crate::ExtraArgs;

verus! {

/// What `url::Url::parse` makes of a text: the URL written without its
/// query, and the query's name and value pairs (decoded, in order). `None`
/// where the text is no absolute URL.
pub uninterp spec fn url_parts_of(s: Seq<char>) -> Option<(Seq<char>, Seq<(Seq<char>, Seq<char>)>)>;

/// The URL `u` written with the query string `q`, `None` where `u` is no
/// absolute URL.
pub uninterp spec fn url_with_query_of(u: Seq<char>, q: Seq<char>) -> Option<Seq<char>>;

/// Relies on url::Url (as reqwest::Url): `parse`, `query_pairs`,
/// `set_query(None)` and its text form. Splits a URL from its query.
#[verifier::external_body]
fn split_url(s: &str) -> (r: Option<(String, Vec<(String, String)>)>)
    ensures
        r is Some <==> url_parts_of(s@) is Some,
        r is Some ==> r->Some_0.0@ == url_parts_of(s@)->Some_0.0 && pairs_view(r->Some_0.1@)
            == url_parts_of(s@)->Some_0.1,
{
    match reqwest::Url::parse(s) {
        Ok(mut u) => {
            let pairs = u.query_pairs().map(|(k, v)| (k.into_owned(), v.into_owned())).collect();
            u.set_query(None);
            Some((u.to_string(), pairs))
        },
        Err(_) => None,
    }
}

/// Relies on url::Url (as reqwest::Url): `parse`, `set_query(Some(q))` and
/// its text form. Puts a query string onto a URL.
#[verifier::external_body]
fn url_with_query(u: &str, q: &str) -> (r: Option<String>)
    ensures
        r is Some <==> url_with_query_of(u@, q@) is Some,
        r is Some ==> r->Some_0@ == url_with_query_of(u@, q@)->Some_0,
{
    match reqwest::Url::parse(u) {
        Ok(mut url) => {
            url.set_query(Some(q));
            Some(url.to_string())
        },
        Err(_) => None,
    }
}

/// One templated HTTP request.
#[derive(Clone, Debug)]
pub struct RequestProfile {
    /// The HTTP method, such as `GET`.
    pub method: String,
    /// The absolute URL, without the query.
    pub url: String,
    /// The query parameters: a JSON object where present.
    pub params: Option<serde_json::Value>,
    /// Header names (in lower case) and values.
    pub headers: Vec<(String, String)>,
    /// The body fields: a JSON object where present.
    pub body: Option<serde_json::Value>,
}

/// The headers, the query fields and the body text of a resolved request.
pub type Resolved = (Vec<(String, String)>, JsonObject, String);

/// The model of a resolved request.
pub type ResolvedView = (Seq<(Seq<char>, Seq<char>)>, Seq<(Seq<char>, serde_json::Value)>, Seq<char>);

pub open spec fn resolved_view(r: Resolved) -> ResolvedView {
    (pairs_view(r.0@), r.1@, r.2@)
}

/// The fields a template starts from: none where it has no object, `None`
/// where what it has is no object.
pub open spec fn base_fields(v: Option<serde_json::Value>) -> Option<Seq<(Seq<char>, serde_json::Value)>> {
    match v {
        None => Some(Seq::empty()),
        Some(x) => object_fields_of(x),
    }
}

/// Header overrides laid onto `h` in order; the first bad one stops it.
pub open spec fn header_overrides(
    h: Seq<(Seq<char>, Seq<char>)>,
    args: Seq<(Seq<char>, Seq<char>)>,
) -> Result<Seq<(Seq<char>, Seq<char>)>, Fault>
    decreases args.len(),
{
    if args.len() == 0 {
        Ok(h)
    } else {
        match header_overrides(h, args.drop_last()) {
            Err(f) => Err(f),
            Ok(h2) => {
                let (k, v) = args.last();
                match checked_header(k, v) {
                    Ok(n) => Ok(with_key(h2, n, v)),
                    Err(HeaderFault::Name) => Err(Fault::InvalidHeaderName(k)),
                    Err(HeaderFault::Value) => Err(Fault::InvalidHeaderValue(v)),
                }
            },
        }
    }
}

/// Field overrides laid onto `o` in order, each text read by `coerced`.
pub open spec fn field_overrides(
    o: Seq<(Seq<char>, serde_json::Value)>,
    args: Seq<(Seq<char>, Seq<char>)>,
) -> Seq<(Seq<char>, serde_json::Value)>
    decreases args.len(),
{
    if args.len() == 0 {
        o
    } else {
        let (k, v) = args.last();
        with_key(field_overrides(o, args.drop_last()), k, coerced(v))
    }
}

/// The headers after overrides, with `content-type` set to JSON where none is given.
pub open spec fn with_default_type(h: Seq<(Seq<char>, Seq<char>)>) -> Seq<(Seq<char>, Seq<char>)> {
    if crate::json::lookup(h, content_type_name()) is Some {
        h
    } else {
        with_key(h, content_type_name(), "application/json"@)
    }
}

/// The body text for a media type.
pub open spec fn body_text(ct: Seq<char>, body: Seq<(Seq<char>, serde_json::Value)>) -> Result<Seq<char>, Fault> {
    if ct == "application/json"@ {
        Ok(compact_text_of(object_value_of(body)))
    } else if ct == "application/x-www-form-urlencoded"@ || ct == "multipart/form-data"@ {
        match form_text_of(object_value_of(body)) {
            Some(t) => Ok(t),
            None => Err(Fault::FormEncoding),
        }
    } else {
        Err(Fault::UnsupportedContentType(ct))
    }
}

/// The request that a template and its overrides resolve to.
pub open spec fn resolve(
    headers: Seq<(Seq<char>, Seq<char>)>,
    params: Option<serde_json::Value>,
    body: Option<serde_json::Value>,
    args: ExtraArgs,
) -> Result<ResolvedView, Fault> {
    match header_overrides(headers, pairs_view(args.headers@)) {
        Err(f) => Err(f),
        Ok(h1) => {
            let h = with_default_type(h1);
            match base_fields(params) {
                None => Err(Fault::NotAnObject(Seq::empty(), Seq::empty(), Field::Params)),
                Some(q0) => match base_fields(body) {
                    None => Err(Fault::NotAnObject(Seq::empty(), Seq::empty(), Field::Body)),
                    Some(b0) => {
                        let q = field_overrides(q0, pairs_view(args.query@));
                        let b = field_overrides(b0, pairs_view(args.body@));
                        let ct = match content_type_of(h) {
                            Some(c) => c,
                            None => Seq::empty(),
                        };
                        match body_text(ct, b) {
                            Err(f) => Err(f),
                            Ok(t) => Ok((h, q, t)),
                        }
                    },
                },
            }
        },
    }
}

/// Lays field overrides onto an object.
fn apply_fields(o: &mut JsonObject, args: &Vec<(String, String)>)
    ensures
        final(o)@ == field_overrides(old(o)@, pairs_view(args@)),
        old(o).wf() ==> final(o).wf(),
{
    let ghost start = o@;
    let mut i: usize = 0;
    assert(pairs_view(args@).take(0) =~= Seq::<(Seq<char>, Seq<char>)>::empty());
    while i < args.len()
        invariant
            i <= args@.len(),
            o@ == field_overrides(start, pairs_view(args@).take(i as int)),
            old(o).wf() ==> o.wf(),
            start == old(o)@,
        decreases args.len() - i,
    {
        let v = coerce_value(args[i].1.as_str());
        o.set(args[i].0.clone(), v);
        assert(pairs_view(args@).take(i + 1).drop_last() =~= pairs_view(args@).take(i as int));
        i = i + 1;
    }
    assert(pairs_view(args@).take(args@.len() as int) =~= pairs_view(args@));
}

/// Lays header overrides onto a header list, stopping at the first bad one.
fn apply_headers(h: &mut Vec<(String, String)>, args: &Vec<(String, String)>) -> (r: Result<(), XdiffError>)
    ensures
        match (r, header_overrides(pairs_view(old(h)@), pairs_view(args@))) {
            (Ok(_), Ok(s)) => pairs_view(final(h)@) == s,
            (Err(e), Err(f)) => e@ == f,
            _ => false,
        },
{
    let ghost start = pairs_view(h@);
    let mut i: usize = 0;
    assert(pairs_view(args@).take(0) =~= Seq::<(Seq<char>, Seq<char>)>::empty());
    while i < args.len()
        invariant
            i <= args@.len(),
            start == pairs_view(old(h)@),
            header_overrides(start, pairs_view(args@).take(i as int)) == Ok::<_, Fault>(pairs_view(h@)),
        decreases args.len() - i,
    {
        let k = &args[i].0;
        let v = &args[i].1;
        assert(pairs_view(args@).take(i + 1).drop_last() =~= pairs_view(args@).take(i as int));
        assert(pairs_view(args@).take(i + 1).last() == (k@, v@));
        match check_header(k.as_str(), v.as_str()) {
            Ok(n) => {
                insert_header(h, n, v.clone());
            },
            Err(HeaderFault::Name) => {
                proof {
                    lemma_header_overrides_stop(start, pairs_view(args@), i as int + 1);
                }
                return Err(XdiffError::InvalidHeaderName(k.clone()));
            },
            Err(HeaderFault::Value) => {
                proof {
                    lemma_header_overrides_stop(start, pairs_view(args@), i as int + 1);
                }
                return Err(XdiffError::InvalidHeaderValue(v.clone()));
            },
        }
        i = i + 1;
    }
    assert(pairs_view(args@).take(args@.len() as int) =~= pairs_view(args@));
    Ok(())
}

/// Once the overrides fail, more of them do not change the failure.
proof fn lemma_header_overrides_stop(h: Seq<(Seq<char>, Seq<char>)>, args: Seq<(Seq<char>, Seq<char>)>, i: int)
    requires
        0 <= i <= args.len(),
        header_overrides(h, args.take(i)) is Err,
    ensures
        header_overrides(h, args) == header_overrides(h, args.take(i)),
    decreases args.len() - i,
{
    if i < args.len() {
        assert(args.take(i + 1).drop_last() =~= args.take(i));
        lemma_header_overrides_stop(h, args, i + 1);
    } else {
        assert(args.take(i) =~= args);
    }
}

/// The URL a template and its query overrides are shown as: the template's
/// `params` with the query overrides laid on, written onto the URL where
/// there are any fields. Nothing else of the overrides is read.
pub open spec fn url_spec(
    url: Seq<char>,
    params: Option<serde_json::Value>,
    query: Seq<(Seq<char>, Seq<char>)>,
) -> Result<Seq<char>, Fault> {
    match base_fields(params) {
        None => Err(Fault::NotAnObject(Seq::empty(), Seq::empty(), Field::Params)),
        Some(q0) => {
            let q = field_overrides(q0, query);
            if q.len() == 0 {
                Ok(url)
            } else {
                match query_text_of(object_value_of(q)) {
                    None => Err(Fault::QueryEncoding),
                    Some(t) => match url_with_query_of(url, t) {
                        None => Err(Fault::InvalidUrl(url)),
                        Some(u) => Ok(u),
                    },
                }
            }
        },
    }
}

/// The URL depends on the template and the query overrides alone: header
/// and body overrides, and the content type, play no part.
pub proof fn law_url_needs_query_alone(p: RequestProfile, a1: ExtraArgs, a2: ExtraArgs)
    requires
        pairs_view(a1.query@) == pairs_view(a2.query@),
    ensures
        url_spec(p.url@, p.params, pairs_view(a1.query@)) == url_spec(p.url@, p.params, pairs_view(a2.query@)),
{
}

/// Whether a template's `params` and `body` are objects where present.
pub open spec fn shape_of(params: Option<serde_json::Value>, body: Option<serde_json::Value>) -> Result<(), Fault> {
    if base_fields(params) is None {
        Err(Fault::NotAnObject(Seq::empty(), Seq::empty(), Field::Params))
    } else if base_fields(body) is None {
        Err(Fault::NotAnObject(Seq::empty(), Seq::empty(), Field::Body))
    } else {
        Ok(())
    }
}

/// Checks the shape of a configuration before anything is sent.
pub trait ValidateConfig {
    /// `Ok` where the configuration is sound, else the first fault found.
    spec fn validation(&self) -> Result<(), Fault>;

    fn validate(&self) -> (r: Result<(), XdiffError>)
        ensures
            match (r, self.validation()) {
                (Ok(_), Ok(_)) => true,
                (Err(e), Err(f)) => e@ == f,
                _ => false,
            },
    ;
}

impl ValidateConfig for RequestProfile {
    open spec fn validation(&self) -> Result<(), Fault> {
        shape_of(self.params, self.body)
    }

    fn validate(&self) -> (r: Result<(), XdiffError>) {
        if let Some(v) = &self.params {
            if JsonObject::from_value(v).is_none() {
                return Err(XdiffError::NotAnObject { profile: String::new(), request: String::new(), field: Field::Params });
            }
        }
        if let Some(v) = &self.body {
            if JsonObject::from_value(v).is_none() {
                return Err(XdiffError::NotAnObject { profile: String::new(), request: String::new(), field: Field::Body });
            }
        }
        Ok(())
    }
}

/// The template a URL stands for: `GET`, the URL without its query, the
/// query's fields as `params` (each value read as JSON, or kept as a
/// string), no headers and no body.
pub open spec fn from_url_spec(s: Seq<char>) -> Option<(Seq<char>, Seq<char>, serde_json::Value)> {
    match url_parts_of(s) {
        None => None,
        Some((u, pairs)) => Some(("GET"@, u, object_value_of(field_overrides(Seq::empty(), pairs)))),
    }
}

/// What `generate` gives for a template and overrides.
pub open spec fn generated(p: RequestProfile, args: ExtraArgs, r: Result<Resolved, XdiffError>) -> bool {
    match (r, p.resolve_spec(args)) {
        (Ok(t), Ok(s)) => resolved_view(t) == s,
        (Err(e), Err(f)) => e@ == f,
        _ => false,
    }
}

/// Resolving depends on the template and the overrides alone: two results
/// for the same inputs have the same headers, query and body text, or the
/// same error.
pub proof fn law_generate_deterministic(
    p: RequestProfile,
    args: ExtraArgs,
    r1: Result<Resolved, XdiffError>,
    r2: Result<Resolved, XdiffError>,
)
    requires
        generated(p, args, r1),
        generated(p, args, r2),
    ensures
        match (r1, r2) {
            (Ok(a), Ok(b)) => resolved_view(a) == resolved_view(b),
            (Err(a), Err(b)) => a@ == b@,
            _ => false,
        },
{
}

proof fn lemma_lookup_with_key<V>(s: Seq<(Seq<char>, V)>, k: Seq<char>, v: V)
    ensures
        crate::json::lookup(with_key(s, k, v), k) == Some(v),
{
    crate::json::lemma_without_key_absent(s, k);
    lemma_lookup_push(crate::json::without_key(s, k), k, v);
}

proof fn lemma_lookup_push<V>(s: Seq<(Seq<char>, V)>, k: Seq<char>, v: V)
    requires
        crate::json::lookup(s, k) is None,
    ensures
        crate::json::lookup(s.push((k, v)), k) == Some(v),
    decreases s.len(),
{
    if s.len() > 0 {
        assert(s.push((k, v)).drop_first() =~= s.drop_first().push((k, v)));
        lemma_lookup_push(s.drop_first(), k, v);
    } else {
        assert(s.push((k, v))[0] == (k, v));
    }
}

/// A template with no `content-type` header and no body, given no header
/// and no body overrides, resolves with `content-type: application/json`
/// and the JSON text of the empty object as its body.
pub proof fn law_default_content_type(p: RequestProfile, args: ExtraArgs)
    requires
        crate::json::lookup(pairs_view(p.headers@), content_type_name()) is None,
        base_fields(p.params) is Some,
        p.body is None,
        args.headers@.len() == 0,
        args.body@.len() == 0,
    ensures
        p.resolve_spec(args) is Ok,
        crate::json::lookup(p.resolve_spec(args)->Ok_0.0, content_type_name()) == Some("application/json"@),
        p.resolve_spec(args)->Ok_0.2 == compact_text_of(object_value_of(Seq::empty())),
{
    let h = pairs_view(p.headers@);
    assert(pairs_view(args.headers@) =~= Seq::<(Seq<char>, Seq<char>)>::empty());
    assert(pairs_view(args.body@) =~= Seq::<(Seq<char>, Seq<char>)>::empty());
    let h2 = with_default_type(h);
    lemma_lookup_with_key(h, content_type_name(), "application/json"@);
    let j = "application/json"@;
    reveal_strlit("application/json");
    assert(forall|i: int| 0 <= i < j.len() ==> j[i] != ';');
    crate::text::lemma_find_char(j, ';', j.len() as int);
    assert(j.take(j.len() as int) =~= j);
    assert(content_type_of(h2) == Some(j));
}

/// Where the content type is JSON, query and body overrides never make
/// resolving fail: each text is read as JSON or kept as a string and laid
/// onto the template's fields in order.
pub proof fn law_overrides_never_fail(p: RequestProfile, args: ExtraArgs)
    requires
        header_overrides(pairs_view(p.headers@), pairs_view(args.headers@)) is Ok,
        content_type_of(with_default_type(header_overrides(pairs_view(p.headers@), pairs_view(args.headers@))->Ok_0))
            == Some("application/json"@),
        base_fields(p.params) is Some,
        base_fields(p.body) is Some,
    ensures
        p.resolve_spec(args) is Ok,
        p.resolve_spec(args)->Ok_0.1 == field_overrides(base_fields(p.params)->Some_0, pairs_view(args.query@)),
        p.resolve_spec(args)->Ok_0.2 == compact_text_of(
            object_value_of(field_overrides(base_fields(p.body)->Some_0, pairs_view(args.body@))),
        ),
{
}

/// Of several overrides of one name, the last one given wins.
pub proof fn law_last_override_wins(
    o: Seq<(Seq<char>, serde_json::Value)>,
    args: Seq<(Seq<char>, Seq<char>)>,
    k: Seq<char>,
    v: Seq<char>,
)
    requires
        args.len() > 0,
        args.last() == (k, v),
    ensures
        crate::json::lookup(field_overrides(o, args), k) == Some(coerced(v)),
{
    lemma_lookup_with_key(field_overrides(o, args.drop_last()), k, coerced(v));
}

/// A content type that is neither JSON nor a form, set by the template or
/// by the overrides, makes resolving fail with that content type.
pub proof fn law_unsupported_content_type(p: RequestProfile, args: ExtraArgs, ct: Seq<char>)
    requires
        header_overrides(pairs_view(p.headers@), pairs_view(args.headers@)) is Ok,
        content_type_of(header_overrides(pairs_view(p.headers@), pairs_view(args.headers@))->Ok_0) == Some(ct),
        ct != "application/json"@,
        ct != "application/x-www-form-urlencoded"@,
        ct != "multipart/form-data"@,
        base_fields(p.params) is Some,
        base_fields(p.body) is Some,
    ensures
        p.resolve_spec(args) == Err::<ResolvedView, Fault>(Fault::UnsupportedContentType(ct)),
{
}

impl RequestProfile {
    /// Reads a URL into a template; fails where it is no absolute URL.
    pub fn from_url(s: &str) -> (r: Result<RequestProfile, XdiffError>)
        ensures
            match (r, from_url_spec(s@)) {
                (Ok(p), Some((m, u, q))) => p.method@ == m && p.url@ == u && p.params == Some(q)
                    && p.headers@.len() == 0 && p.body is None,
                (Err(e), None) => e@ == Fault::InvalidUrl(s@),
                _ => false,
            },
    {
        match split_url(s) {
            None => Err(XdiffError::InvalidUrl(String::from_str(s))),
            Some((url, pairs)) => {
                let mut params = JsonObject::new();
                apply_fields(&mut params, &pairs);
                let value = object_value(&params);
                Ok(RequestProfile { method: String::from_str("GET"), url, params: Some(value), headers: Vec::new(), body: None })
            },
        }
    }

    /// The URL this template and the query overrides are shown as: the
    /// template's `params` with the query overrides laid on, written onto the
    /// URL where there are any fields. Header and body overrides are not read.
    pub fn get_url(&self, args: &ExtraArgs) -> (r: Result<String, XdiffError>)
        ensures
            match (r, url_spec(self.url@, self.params, pairs_view(args.query@))) {
                (Ok(s), Ok(t)) => s@ == t,
                (Err(e), Err(f)) => e@ == f,
                _ => false,
            },
    {
        let mut query = match &self.params {
            None => JsonObject::new(),
            Some(v) => match JsonObject::from_value(v) {
                Some(o) => o,
                None => return Err(XdiffError::NotAnObject { profile: String::new(), request: String::new(), field: Field::Params }),
            },
        };
        apply_fields(&mut query, &args.query);
        if query.len() == 0 {
            return Ok(self.url.clone());
        }
        match query_text(&object_value(&query)) {
            None => Err(XdiffError::QueryEncoding),
            Some(t) => match url_with_query(self.url.as_str(), t.as_str()) {
                None => Err(XdiffError::InvalidUrl(self.url.clone())),
                Some(u) => Ok(u),
            },
        }
    }

    pub fn new(
        method: String,
        url: String,
        params: Option<serde_json::Value>,
        headers: Vec<(String, String)>,
        body: Option<serde_json::Value>,
    ) -> (r: RequestProfile)
        ensures
            r.method == method,
            r.url == url,
            r.params == params,
            r.headers == headers,
            r.body == body,
    {
        RequestProfile { method, url, params, headers, body }
    }

    /// The request that this template and the overrides resolve to.
    pub open spec fn resolve_spec(&self, args: ExtraArgs) -> Result<ResolvedView, Fault> {
        resolve(pairs_view(self.headers@), self.params, self.body, args)
    }

    /// Lays the overrides onto this template: headers (by their normal name,
    /// replacing), then `content-type` set to JSON where none is given, then
    /// query and body fields (each text read as JSON, or kept as a string),
    /// and writes the body as the content type asks. The template is left as
    /// it is.
    pub fn generate(&self, args: &ExtraArgs) -> (r: Result<Resolved, XdiffError>)
        ensures
            generated(*self, *args, r),
    {
        let mut headers = copy_pairs(&self.headers);
        match apply_headers(&mut headers, &args.headers) {
            Ok(_) => {},
            Err(e) => return Err(e),
        }
        let ct_name = String::from_str("content-type");
        proof {
            reveal_strlit("content-type");
        }
        assert(ct_name@ =~= content_type_name());
        if !crate::headers::has_header(&headers, &ct_name) {
            insert_header(&mut headers, ct_name, String::from_str("application/json"));
        }
        let mut query = match &self.params {
            None => JsonObject::new(),
            Some(v) => match JsonObject::from_value(v) {
                Some(o) => o,
                None => return Err(XdiffError::NotAnObject { profile: String::new(), request: String::new(), field: Field::Params }),
            },
        };
        let mut body = match &self.body {
            None => JsonObject::new(),
            Some(v) => match JsonObject::from_value(v) {
                Some(o) => o,
                None => return Err(XdiffError::NotAnObject { profile: String::new(), request: String::new(), field: Field::Body }),
            },
        };
        apply_fields(&mut query, &args.query);
        apply_fields(&mut body, &args.body);
        let ct = match content_type(&headers) {
            Some(c) => c,
            None => String::new(),
        };
        let value = object_value(&body);
        let text = if ct == String::from_str("application/json") {
            compact_text(&value)
        } else if ct == String::from_str("application/x-www-form-urlencoded") || ct == String::from_str("multipart/form-data") {
            match form_text(&value) {
                Some(t) => t,
                None => return Err(XdiffError::FormEncoding),
            }
        } else {
            return Err(XdiffError::UnsupportedContentType(ct));
        };
        Ok((headers, query, text))
    }
}

impl std::str::FromStr for RequestProfile {
    type Err = XdiffError;

    /// As `RequestProfile::from_url`.
    fn from_str(s: &str) -> (r: Result<RequestProfile, XdiffError>)
        ensures
            match (r, from_url_spec(s@)) {
                (Ok(p), Some((m, u, q))) => p.method@ == m && p.url@ == u && p.params == Some(q)
                    && p.headers@.len() == 0 && p.body is None,
                (Err(e), None) => e@ == Fault::InvalidUrl(s@),
                _ => false,
            },
    {
        RequestProfile::from_url(s)
    }
}

} // verus!
