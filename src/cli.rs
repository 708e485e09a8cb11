//! The command line as plain data, and the reading of override tokens.
use vstd::prelude::*;
use crate::error::{Fault, XdiffError};
use crate::text::{find, find_char, pairs_view};
use crate::ExtraArgs;

verus! {

/// What the program is asked to do.
#[derive(Clone, Debug)]
pub struct Args {
    pub action: Action,
}

#[derive(Clone, Debug)]
#[non_exhaustive]
pub enum Action {
    /// Diff two API responses as a profile describes them.
    Run(RunArgs),
    /// Write a profile out of URLs.
    Parse,
}

#[derive(Clone, Debug)]
pub struct RunArgs {
    /// The profile name.
    pub profile: String,
    /// Overrides of the query (`key=value`), the headers (`%key=value`) and
    /// the body (`@key=value`).
    pub extra_params: Vec<KeyVal>,
    /// The configuration file, where another than the default.
    pub config: Option<String>,
}

/// Where an override goes.
#[derive(Clone, Copy, Debug, PartialEq, Eq, Structural)]
pub enum KeyValType {
    Query,
    Header,
    Body,
}

/// One override: where it goes, the name, the text.
#[derive(Clone, Debug)]
pub struct KeyVal {
    pub key_type: KeyValType,
    pub key: String,
    pub value: String,
}

/// What `str::trim` leaves of a text.
pub uninterp spec fn trim_of(s: Seq<char>) -> Seq<char>;

/// Whether a character has the Unicode `Alphabetic` property.
pub uninterp spec fn alphabetic(c: char) -> bool;

/// Relies on str::trim: takes white space off both ends.
#[verifier::external_body]
fn trim(s: &str) -> (r: String)
    ensures
        r@ == trim_of(s@),
{
    s.trim().to_string()
}

/// Relies on char::is_alphabetic; of the ASCII characters, the letters and
/// only they have the property.
#[verifier::external_body]
fn is_alphabetic(c: char) -> (r: bool)
    ensures
        r == alphabetic(c),
        (c as u32) < 128 ==> (r <==> ('a' <= c <= 'z' || 'A' <= c <= 'Z')),
{
    c.is_alphabetic()
}

/// The model of an override.
pub open spec fn key_val_view(kv: KeyVal) -> (KeyValType, Seq<char>, Seq<char>) {
    (kv.key_type, kv.key@, kv.value@)
}

/// How a token reads: split at its first `=`, both sides trimmed; a key
/// that starts with `%` is a header and one with `@` a body field (the sign
/// dropped), one that starts with a letter is a query field. Anything else
/// is no override.
pub open spec fn key_val_of(s: Seq<char>) -> Option<(KeyValType, Seq<char>, Seq<char>)> {
    let i = find_char(s, '=');
    if i >= s.len() {
        None
    } else {
        let k = trim_of(s.take(i as int));
        let v = trim_of(s.skip(i + 1 as int));
        if k.len() == 0 {
            None
        } else if k[0] == '%' {
            Some((KeyValType::Header, k.skip(1), v))
        } else if k[0] == '@' {
            Some((KeyValType::Body, k.skip(1), v))
        } else if alphabetic(k[0]) {
            Some((KeyValType::Query, k, v))
        } else {
            None
        }
    }
}

/// Reads one override token; the error names the token.
pub fn parse_key_val(s: &str) -> (r: Result<KeyVal, XdiffError>)
    ensures
        match (r, key_val_of(s@)) {
            (Ok(kv), Some(m)) => key_val_view(kv) == m,
            (Err(e), None) => e@ == Fault::InvalidKeyVal(s@),
            _ => false,
        },
{
    let i = match find(s, '=') {
        Some(i) => i,
        None => return Err(XdiffError::InvalidKeyVal(String::from_str(s))),
    };
    let n = s.unicode_len();
    let key = trim(s.substring_char(0, i));
    let value = trim(s.substring_char(i + 1, n));
    assert(s@.subrange(0, i as int) =~= s@.take(i as int));
    assert(s@.subrange(i + 1, n as int) =~= s@.skip(i + 1 as int));
    let kn = key.as_str().unicode_len();
    if kn == 0 {
        return Err(XdiffError::InvalidKeyVal(String::from_str(s)));
    }
    let first = key.as_str().get_char(0);
    if first == '%' {
        let k = String::from_str(key.as_str().substring_char(1, kn));
        assert(key@.subrange(1, kn as int) =~= key@.skip(1));
        Ok(KeyVal { key_type: KeyValType::Header, key: k, value })
    } else if first == '@' {
        let k = String::from_str(key.as_str().substring_char(1, kn));
        assert(key@.subrange(1, kn as int) =~= key@.skip(1));
        Ok(KeyVal { key_type: KeyValType::Body, key: k, value })
    } else if is_alphabetic(first) {
        Ok(KeyVal { key_type: KeyValType::Query, key, value })
    } else {
        Err(XdiffError::InvalidKeyVal(String::from_str(s)))
    }
}

/// The overrides of one kind, in the order given.
pub open spec fn bucket(args: Seq<KeyVal>, t: KeyValType) -> Seq<(Seq<char>, Seq<char>)>
    decreases args.len(),
{
    if args.len() == 0 {
        Seq::empty()
    } else {
        let a = args.last();
        let rest = bucket(args.drop_last(), t);
        if a.key_type == t {
            rest.push((a.key@, a.value@))
        } else {
            rest
        }
    }
}

impl ExtraArgs {
    /// Sorts overrides by where they go, keeping their order within each kind.
    pub fn from_key_vals(args: Vec<KeyVal>) -> (r: ExtraArgs)
        ensures
            pairs_view(r.headers@) == bucket(args@, KeyValType::Header),
            pairs_view(r.query@) == bucket(args@, KeyValType::Query),
            pairs_view(r.body@) == bucket(args@, KeyValType::Body),
    {
        let mut headers: Vec<(String, String)> = Vec::new();
        let mut query: Vec<(String, String)> = Vec::new();
        let mut body: Vec<(String, String)> = Vec::new();
        let mut i: usize = 0;
        while i < args.len()
            invariant
                i <= args@.len(),
                pairs_view(headers@) == bucket(args@.take(i as int), KeyValType::Header),
                pairs_view(query@) == bucket(args@.take(i as int), KeyValType::Query),
                pairs_view(body@) == bucket(args@.take(i as int), KeyValType::Body),
            decreases args.len() - i,
        {
            let ghost t = args@.take(i + 1);
            assert(t.drop_last() =~= args@.take(i as int));
            assert(t.last() == args@[i as int]);
            let k = args[i].key.clone();
            let v = args[i].value.clone();
            let ghost (hb, qb, bb) = (headers@, query@, body@);
            match args[i].key_type {
                KeyValType::Header => {
                    headers.push((k, v));
                    assert(pairs_view(headers@) =~= pairs_view(hb).push((k@, v@)));
                },
                KeyValType::Query => {
                    query.push((k, v));
                    assert(pairs_view(query@) =~= pairs_view(qb).push((k@, v@)));
                },
                KeyValType::Body => {
                    body.push((k, v));
                    assert(pairs_view(body@) =~= pairs_view(bb).push((k@, v@)));
                },
            }
            i = i + 1;
        }
        assert(args@.take(args@.len() as int) =~= args@);
        ExtraArgs { headers, query, body }
    }
}

impl From<Vec<KeyVal>> for ExtraArgs {
    /// As `ExtraArgs::from_key_vals`.
    fn from(args: Vec<KeyVal>) -> (r: ExtraArgs)
        ensures
            pairs_view(r.headers@) == bucket(args@, KeyValType::Header),
            pairs_view(r.query@) == bucket(args@, KeyValType::Query),
            pairs_view(r.body@) == bucket(args@, KeyValType::Body),
    {
        ExtraArgs::from_key_vals(args)
    }
}

impl vstd::std_specs::convert::FromSpecImpl<Vec<KeyVal>> for ExtraArgs {
    open spec fn obeys_from_spec() -> bool {
        false
    }

    open spec fn from_spec(v: Vec<KeyVal>) -> ExtraArgs {
        arbitrary()
    }
}

} // verus!
