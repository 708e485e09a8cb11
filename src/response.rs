//! The text a response is compared by: status line, headers, a blank line,
//! the body, with the fields that a response profile names left out.
use vstd::prelude::*;
use crate::error::{Fault, XdiffError};
use crate::headers::{content_type, content_type_of};
use crate::json::{
    json_parse_of, lemma_without_key_absent, object_fields_of, object_value, object_value_of, parse_json,
    pretty_text, pretty_text_of, without_key, JsonObject,
};
use crate::text::pairs_view;

verus! {

/// Which parts of a response to leave out before comparing: headers by
/// name, and top-level fields of a JSON body by name.
#[derive(Clone, Debug, PartialEq, Eq)]
pub struct ResponseProfile {
    pub skip_headers: Vec<String>,
    pub skip_body: Vec<String>,
}

pub open spec fn names_view(s: Seq<String>) -> Seq<Seq<char>> {
    s.map_values(|n: String| n@)
}

impl ResponseProfile {
    pub fn new(skip_headers: Vec<String>, skip_body: Vec<String>) -> (r: ResponseProfile)
        ensures
            r.skip_headers@ == skip_headers@,
            r.skip_body@ == skip_body@,
    {
        ResponseProfile { skip_headers, skip_body }
    }
}

impl Default for ResponseProfile {
    fn default() -> (r: ResponseProfile)
        ensures
            r.skip_headers@.len() == 0,
            r.skip_body@.len() == 0,
    {
        ResponseProfile { skip_headers: Vec::new(), skip_body: Vec::new() }
    }
}

/// Whether a response profile leaves nothing out, as the default one does.
pub fn is_default(v: &ResponseProfile) -> (r: bool)
    ensures
        r == (v.skip_headers@.len() == 0 && v.skip_body@.len() == 0),
{
    v.skip_headers.len() == 0 && v.skip_body.len() == 0
}

/// Whether `k` is among `list`.
pub fn contains_name(list: &Vec<String>, k: &String) -> (r: bool)
    ensures
        r == names_view(list@).contains(k@),
{
    let mut i: usize = 0;
    while i < list.len()
        invariant
            i <= list@.len(),
            forall|j: int| 0 <= j < i ==> list@[j]@ != k@,
        decreases list.len() - i,
    {
        if list[i] == *k {
            assert(names_view(list@)[i as int] == k@);
            return true;
        }
        i = i + 1;
    }
    assert forall|j: int| 0 <= j < names_view(list@).len() implies names_view(list@)[j] != k@ by {
        assert(names_view(list@)[j] == list@[j]@);
    }
    false
}

/// One line per header not in `skip`, as `name: value`.
pub open spec fn header_lines(h: Seq<(Seq<char>, Seq<char>)>, skip: Seq<Seq<char>>) -> Seq<char>
    decreases h.len(),
{
    if h.len() == 0 {
        Seq::empty()
    } else {
        let (k, v) = h.last();
        header_lines(h.drop_last(), skip) + if skip.contains(k) {
            Seq::empty()
        } else {
            k + ": "@ + v + "\n"@
        }
    }
}

/// `o` without every field that `skip` names.
pub open spec fn without_keys(o: Seq<(Seq<char>, serde_json::Value)>, skip: Seq<Seq<char>>) -> Seq<
    (Seq<char>, serde_json::Value),
>
    decreases skip.len(),
{
    if skip.len() == 0 {
        o
    } else {
        without_key(without_keys(o, skip.drop_last()), skip.last())
    }
}

/// The indented form of a JSON text, its top-level fields in `skip` left out
/// where it is an object.
pub open spec fn filtered_json(text: Seq<char>, skip: Seq<Seq<char>>) -> Option<Seq<char>> {
    match json_parse_of(text) {
        None => None,
        Some(v) => match object_fields_of(v) {
            Some(o) => Some(pretty_text_of(object_value_of(without_keys(o, skip)))),
            None => Some(pretty_text_of(v)),
        },
    }
}

/// The body as it is compared: filtered where the response declares JSON,
/// as it came otherwise.
pub open spec fn body_view(h: Seq<(Seq<char>, Seq<char>)>, body: Seq<char>, skip: Seq<Seq<char>>) -> Result<Seq<char>, Fault> {
    if content_type_of(h) == Some("application/json"@) {
        match filtered_json(body, skip) {
            Some(t) => Ok(t),
            None => Err(Fault::ResponseNotJson),
        }
    } else {
        Ok(body)
    }
}

/// The whole text of a response.
pub open spec fn normalized(
    status: Seq<char>,
    h: Seq<(Seq<char>, Seq<char>)>,
    body: Seq<char>,
    p: ResponseProfile,
) -> Result<Seq<char>, Fault> {
    match body_view(h, body, names_view(p.skip_body@)) {
        Err(f) => Err(f),
        Ok(b) => Ok(status + "\n"@ + header_lines(h, names_view(p.skip_headers@)) + "\n"@ + b + "\n"@),
    }
}

/// The header lines of a response, leaving out those that `skip` names.
pub fn get_header_text(h: &Vec<(String, String)>, skip: &Vec<String>) -> (r: String)
    ensures
        r@ == header_lines(pairs_view(h@), names_view(skip@)),
{
    let mut out = String::new();
    let mut i: usize = 0;
    while i < h.len()
        invariant
            i <= h@.len(),
            out@ == header_lines(pairs_view(h@).take(i as int), names_view(skip@)),
        decreases h.len() - i,
    {
        let ghost before = out@;
        assert(pairs_view(h@).take(i + 1).drop_last() =~= pairs_view(h@).take(i as int));
        assert(pairs_view(h@).take(i + 1).last() == (h@[i as int].0@, h@[i as int].1@));
        if !contains_name(skip, &h[i].0) {
            out.append(h[i].0.as_str());
            out.append(": ");
            out.append(h[i].1.as_str());
            out.append("\n");
            assert(out@ =~= before + (h@[i as int].0@ + ": "@ + h@[i as int].1@ + "\n"@));
        } else {
            assert(out@ =~= before + Seq::<char>::empty());
        }
        i = i + 1;
    }
    assert(pairs_view(h@).take(h@.len() as int) =~= pairs_view(h@));
    out
}

/// Takes out every field that `skip` names.
pub fn remove_fields(o: &mut JsonObject, skip: &Vec<String>)
    ensures
        final(o)@ == without_keys(old(o)@, names_view(skip@)),
        old(o).wf() ==> final(o).wf(),
{
    let ghost start = o@;
    let mut i: usize = 0;
    assert(names_view(skip@).take(0) =~= Seq::<Seq<char>>::empty());
    while i < skip.len()
        invariant
            i <= skip@.len(),
            start == old(o)@,
            o@ == without_keys(start, names_view(skip@).take(i as int)),
            old(o).wf() ==> o.wf(),
        decreases skip.len() - i,
    {
        o.remove(&skip[i]);
        assert(names_view(skip@).take(i + 1).drop_last() =~= names_view(skip@).take(i as int));
        i = i + 1;
    }
    assert(names_view(skip@).take(skip@.len() as int) =~= names_view(skip@));
}

/// Parses a JSON text and writes it indented, without the top-level fields
/// in `skip` where it is an object. Fails where the text is no JSON.
pub fn filter_json(text: &str, skip: &Vec<String>) -> (r: Result<String, XdiffError>)
    ensures
        match (r, filtered_json(text@, names_view(skip@))) {
            (Ok(s), Some(t)) => s@ == t,
            (Err(e), None) => e@ == Fault::ResponseNotJson,
            _ => false,
        },
{
    match parse_json(text) {
        None => Err(XdiffError::ResponseNotJson),
        Some(v) => match JsonObject::from_value(&v) {
            Some(o) => {
                let mut o = o;
                remove_fields(&mut o, skip);
                Ok(pretty_text(&object_value(&o)))
            },
            None => Ok(pretty_text(&v)),
        },
    }
}

/// The body as it is compared: where the headers declare JSON, indented and
/// without the top-level fields in `skip`; otherwise as it came.
pub fn get_body_text(headers: &Vec<(String, String)>, body: &str, skip: &Vec<String>) -> (r: Result<String, XdiffError>)
    ensures
        match (r, body_view(pairs_view(headers@), body@, names_view(skip@))) {
            (Ok(s), Ok(t)) => s@ == t,
            (Err(e), Err(f)) => e@ == f,
            _ => false,
        },
{
    let is_json = match content_type(headers) {
        Some(c) => c == String::from_str("application/json"),
        None => false,
    };
    if is_json {
        filter_json(body, skip)
    } else {
        Ok(String::from_str(body))
    }
}

/// The text a response is compared by: the status line, one line per header
/// not in `skip_headers` (`name: value`), a blank line, then the body. A
/// body that the response declares as JSON is written indented, without
/// the top-level fields in `skip_body`; any other body is kept as it came.
pub fn response_text(status: &str, headers: &Vec<(String, String)>, body: &str, p: &ResponseProfile) -> (r: Result<String, XdiffError>)
    ensures
        match (r, normalized(status@, pairs_view(headers@), body@, *p)) {
            (Ok(s), Ok(t)) => s@ == t,
            (Err(e), Err(f)) => e@ == f,
            _ => false,
        },
{
    let b = match get_body_text(headers, body, &p.skip_body) {
        Ok(t) => t,
        Err(e) => return Err(e),
    };
    let mut out = String::from_str(status);
    out.append("\n");
    let hs = get_header_text(headers, &p.skip_headers);
    out.append(hs.as_str());
    out.append("\n");
    out.append(b.as_str());
    out.append("\n");
    Ok(out)
}

/// A response as it came: the status line (protocol version and status),
/// the headers in the order they came (names in lower case), the body text.
#[derive(Clone, Debug)]
pub struct ResponseExt {
    pub status: String,
    pub headers: Vec<(String, String)>,
    pub body: String,
}

impl ResponseExt {
    pub fn new(status: String, headers: Vec<(String, String)>, body: String) -> (r: ResponseExt)
        ensures
            r.status == status,
            r.headers == headers,
            r.body == body,
    {
        ResponseExt { status, headers, body }
    }

    /// The text this response is compared by (see `response_text`).
    pub fn get_text(&self, p: &ResponseProfile) -> (r: Result<String, XdiffError>)
        ensures
            match (r, normalized(self.status@, pairs_view(self.headers@), self.body@, *p)) {
                (Ok(s), Ok(t)) => s@ == t,
                (Err(e), Err(f)) => e@ == f,
                _ => false,
            },
    {
        response_text(self.status.as_str(), &self.headers, self.body.as_str(), p)
    }

    /// The header names, in the order they came.
    pub fn get_header_keys(&self) -> (r: Vec<String>)
        ensures
            names_view(r@) == pairs_view(self.headers@).map_values(|e: (Seq<char>, Seq<char>)| e.0),
    {
        let mut r: Vec<String> = Vec::new();
        let mut i: usize = 0;
        while i < self.headers.len()
            invariant
                i <= self.headers@.len(),
                names_view(r@) == pairs_view(self.headers@).map_values(|e: (Seq<char>, Seq<char>)| e.0).take(i as int),
            decreases self.headers.len() - i,
        {
            let ghost before = r@;
            let k = self.headers[i].0.clone();
            r.push(k);
            assert(names_view(r@) =~= names_view(before).push(k@));
            assert(names_view(r@) =~= pairs_view(self.headers@).map_values(|e: (Seq<char>, Seq<char>)| e.0).take(i + 1));
            i = i + 1;
        }
        assert(pairs_view(self.headers@).map_values(|e: (Seq<char>, Seq<char>)| e.0).take(self.headers@.len() as int)
            =~= pairs_view(self.headers@).map_values(|e: (Seq<char>, Seq<char>)| e.0));
        r
    }
}

/// Leaving out header names that no header has changes no header line.
pub proof fn law_skip_absent_headers(h: Seq<(Seq<char>, Seq<char>)>, skip: Seq<Seq<char>>)
    requires
        forall|i: int| 0 <= i < h.len() ==> !skip.contains(#[trigger] h[i].0),
    ensures
        header_lines(h, skip) == header_lines(h, Seq::empty()),
    decreases h.len(),
{
    if h.len() > 0 {
        assert forall|i: int| 0 <= i < h.drop_last().len() implies !skip.contains(#[trigger] h.drop_last()[i].0) by {
            assert(h.drop_last()[i] == h[i]);
        }
        law_skip_absent_headers(h.drop_last(), skip);
        assert(!skip.contains(h.last().0));
        assert(!Seq::<Seq<char>>::empty().contains(h.last().0));
    }
}

/// Leaving out body fields that the body does not have leaves it as it is.
pub proof fn law_skip_absent_fields(o: Seq<(Seq<char>, serde_json::Value)>, skip: Seq<Seq<char>>)
    requires
        forall|i: int| 0 <= i < o.len() ==> !skip.contains(#[trigger] o[i].0),
    ensures
        without_keys(o, skip) == o,
    decreases skip.len(),
{
    if skip.len() > 0 {
        assert forall|i: int| 0 <= i < o.len() implies !skip.drop_last().contains(#[trigger] o[i].0) by {
            if skip.drop_last().contains(o[i].0) {
                let j = choose|j: int| 0 <= j < skip.drop_last().len() && skip.drop_last()[j] == o[i].0;
                assert(skip[j] == o[i].0);
            }
        }
        law_skip_absent_fields(o, skip.drop_last());
        assert forall|i: int| 0 <= i < o.len() implies o[i].0 != skip.last() by {
            assert(skip[skip.len() - 1] == skip.last());
        }
        lemma_without_key_absent(o, skip.last());
    }
}

} // verus!
