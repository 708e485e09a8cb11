//! Request headers: a list of name and value, each name once, names in the
//! lower-case form that the `http` crate gives them.
use vstd::prelude::*;
use crate::json::{keys_unique, lookup, with_key, without_key};
use crate::text::{before_char, cut_before, pairs_view};

verus! {

/// The name that `http::HeaderName::from_str` makes of a text, `None` where
/// the text is no header name.
pub uninterp spec fn header_name_of(s: Seq<char>) -> Option<Seq<char>>;

/// Relies on http::HeaderName::from_str (through reqwest) and
/// `HeaderName::as_str`: checks a header name and gives its normal form.
#[verifier::external_body]
fn header_name(s: &str) -> (r: Option<String>)
    ensures
        r is Some <==> header_name_of(s@) is Some,
        r is Some ==> r->Some_0@ == header_name_of(s@)->Some_0,
{
    <reqwest::header::HeaderName as std::str::FromStr>::from_str(s).ok().map(|n| n.as_str().to_string())
}

/// A header value may hold any character but the control characters other
/// than tab: each byte is at least 32 and not 127, or it is a tab.
pub open spec fn header_value_valid(s: Seq<char>) -> bool {
    forall|i: int| 0 <= i < s.len() ==> ((s[i] as u32 >= 32 && s[i] as u32 != 127) || s[i] == '\t')
}

/// Relies on http::HeaderValue::from_str (through reqwest): it accepts a text
/// exactly where every byte is at least 32 and not 127, or is a tab. Bytes of
/// characters beyond ASCII are all at least 128.
#[verifier::external_body]
fn header_value_ok(s: &str) -> (r: bool)
    ensures
        r == header_value_valid(s@),
{
    reqwest::header::HeaderValue::from_str(s).is_ok()
}

/// The name under which the content type is kept.
pub open spec fn content_type_name() -> Seq<char> {
    seq!['c', 'o', 'n', 't', 'e', 'n', 't', '-', 't', 'y', 'p', 'e']
}

/// The media type of a header list: the `content-type` value up to its first `;`.
pub open spec fn content_type_of(h: Seq<(Seq<char>, Seq<char>)>) -> Option<Seq<char>> {
    match lookup(h, content_type_name()) {
        Some(v) => Some(before_char(v, ';')),
        None => None,
    }
}

/// Why a header given on the command line was refused.
pub enum HeaderFault {
    Name,
    Value,
}

/// Checks a header given as text: its normal name, and the value where both are valid.
pub open spec fn checked_header(k: Seq<char>, v: Seq<char>) -> Result<Seq<char>, HeaderFault> {
    match header_name_of(k) {
        None => Err(HeaderFault::Name),
        Some(n) => if header_value_valid(v) { Ok(n) } else { Err(HeaderFault::Value) },
    }
}

pub fn check_header(k: &str, v: &str) -> (r: Result<String, HeaderFault>)
    ensures
        match (r, checked_header(k@, v@)) {
            (Ok(a), Ok(b)) => a@ == b,
            (Err(HeaderFault::Name), Err(HeaderFault::Name)) => true,
            (Err(HeaderFault::Value), Err(HeaderFault::Value)) => true,
            _ => false,
        },
{
    match header_name(k) {
        None => Err(HeaderFault::Name),
        Some(n) => if header_value_ok(v) {
            Ok(n)
        } else {
            Err(HeaderFault::Value)
        },
    }
}

/// Sets header `k` to `v`, replacing every value it had.
pub fn insert_header(h: &mut Vec<(String, String)>, k: String, v: String)
    ensures
        pairs_view(final(h)@) == with_key(pairs_view(old(h)@), k@, v@),
{
    let ghost orig = pairs_view(h@);
    let mut rest = Vec::new();
    std::mem::swap(&mut rest, h);
    assert(pairs_view(h@) =~= Seq::<(Seq<char>, Seq<char>)>::empty());
    while rest.len() > 0
        invariant
            pairs_view(h@) + without_key(pairs_view(rest@), k@) == without_key(orig, k@),
        decreases rest.len(),
    {
        let ghost before = rest@;
        let e = rest.remove(0);
        assert(pairs_view(rest@) =~= pairs_view(before).drop_first());
        let ghost s = pairs_view(h@);
        assert(pairs_view(before)[0] == (e.0@, e.1@));
        if e.0 != k {
            h.push(e);
            assert(pairs_view(h@) =~= s.push((e.0@, e.1@)));
            assert(pairs_view(h@) + without_key(pairs_view(rest@), k@) =~= s + without_key(
                pairs_view(before),
                k@,
            ));
        }
    }
    assert(without_key(pairs_view(rest@), k@) =~= pairs_view(rest@));
    assert(pairs_view(h@) =~= pairs_view(h@) + without_key(pairs_view(rest@), k@));
    let ghost mid = pairs_view(h@);
    let ghost kv = k@;
    let ghost vv = v@;
    h.push((k, v));
    assert(pairs_view(h@) =~= mid.push((kv, vv)));
}

/// Whether header `k` is present.
pub fn has_header(h: &Vec<(String, String)>, k: &String) -> (r: bool)
    ensures
        r == lookup(pairs_view(h@), k@) is Some,
{
    match find_header(h, k) {
        Some(_) => true,
        None => false,
    }
}

/// The value of the first header named `k`.
pub fn find_header(h: &Vec<(String, String)>, k: &String) -> (r: Option<String>)
    ensures
        r is Some <==> lookup(pairs_view(h@), k@) is Some,
        r is Some ==> r->Some_0@ == lookup(pairs_view(h@), k@)->Some_0,
{
    let mut i: usize = 0;
    assert(pairs_view(h@).skip(0) =~= pairs_view(h@));
    while i < h.len()
        invariant
            i <= h@.len(),
            lookup(pairs_view(h@), k@) == lookup(pairs_view(h@).skip(i as int), k@),
        decreases h.len() - i,
    {
        let ghost t = pairs_view(h@).skip(i as int);
        assert(t[0] == (h@[i as int].0@, h@[i as int].1@));
        if h[i].0 == *k {
            return Some(h[i].1.clone());
        }
        assert(t.drop_first() =~= pairs_view(h@).skip(i + 1));
        i = i + 1;
    }
    None
}

/// The media type of the headers: the `content-type` value up to its first `;`.
pub fn content_type(h: &Vec<(String, String)>) -> (r: Option<String>)
    ensures
        r is Some <==> content_type_of(pairs_view(h@)) is Some,
        r is Some ==> r->Some_0@ == content_type_of(pairs_view(h@))->Some_0,
{
    let name = String::from_str("content-type");
    proof {
        reveal_strlit("content-type");
    }
    assert(name@ =~= content_type_name());
    match find_header(h, &name) {
        Some(v) => Some(cut_before(v.as_str(), ';')),
        None => None,
    }
}

} // verus!
