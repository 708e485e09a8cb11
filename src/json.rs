//! JSON values as the request templates and responses hold them.
//!
//! A value is a `serde_json::Value`, opaque here: its text form, its parsing and
//! its encodings come from serde_json and friends. What the templating logic
//! reads and changes is the top level of an object, held as a `JsonObject`.
use vstd::prelude::*;

verus! {

#[verifier::external_type_specification]
#[verifier::external_body]
pub struct ExValue(serde_json::Value);

/// What `serde_json::from_str` makes of a text, `None` where it is no JSON.
pub uninterp spec fn json_parse_of(s: Seq<char>) -> Option<serde_json::Value>;

/// The JSON string holding the given characters.
pub uninterp spec fn json_string_of(s: Seq<char>) -> serde_json::Value;

/// The top-level fields of a JSON object, `None` for any other value.
pub uninterp spec fn object_fields_of(v: serde_json::Value) -> Option<Seq<(Seq<char>, serde_json::Value)>>;

/// The JSON object with the given fields.
pub uninterp spec fn object_value_of(fields: Seq<(Seq<char>, serde_json::Value)>) -> serde_json::Value;

/// The compact JSON text of a value.
pub uninterp spec fn compact_text_of(v: serde_json::Value) -> Seq<char>;

/// The indented JSON text of a value.
pub uninterp spec fn pretty_text_of(v: serde_json::Value) -> Seq<char>;

/// The `application/x-www-form-urlencoded` text of a value, `None` where it has none.
pub uninterp spec fn form_text_of(v: serde_json::Value) -> Option<Seq<char>>;

/// The query string of a value, `None` where it has none.
pub uninterp spec fn query_text_of(v: serde_json::Value) -> Option<Seq<char>>;

/// Whether a value is JSON `null`.
pub uninterp spec fn is_null_of(v: serde_json::Value) -> bool;

/// Relies on serde_json::Value::is_null.
#[verifier::external_body]
pub(crate) fn is_null(v: &serde_json::Value) -> (r: bool)
    ensures
        r == is_null_of(*v),
{
    v.is_null()
}

/// Relies on serde_json::from_str (`FromStr` for `Value`): parses a JSON text.
#[verifier::external_body]
pub(crate) fn parse_json(s: &str) -> (r: Option<serde_json::Value>)
    ensures
        r == json_parse_of(s@),
{
    serde_json::from_str::<serde_json::Value>(s).ok()
}

/// Relies on the constructor `serde_json::Value::String`.
#[verifier::external_body]
pub(crate) fn string_value(s: &str) -> (r: serde_json::Value)
    ensures
        r == json_string_of(s@),
{
    serde_json::Value::String(s.to_string())
}

/// Relies on serde_json::Value::as_object: the fields of an object, in the
/// map's own order. A map holds each key once.
#[verifier::external_body]
pub(crate) fn object_fields(v: &serde_json::Value) -> (r: Option<Vec<(String, serde_json::Value)>>)
    ensures
        r is Some <==> object_fields_of(*v) is Some,
        r is Some ==> fields_view(r->Some_0@) == object_fields_of(*v)->Some_0,
        r is Some ==> keys_unique(fields_view(r->Some_0@)),
{
    v.as_object().map(|m| m.iter().map(|(k, x)| (k.clone(), x.clone())).collect())
}

/// Relies on the constructor `serde_json::Value::Object` over a
/// `serde_json::Map` collected from the fields.
#[verifier::external_body]
pub(crate) fn object_value(o: &JsonObject) -> (r: serde_json::Value)
    ensures
        r == object_value_of(o@),
{
    serde_json::Value::Object(o.entries.iter().cloned().collect())
}

/// Relies on `Display` for `serde_json::Value`: the compact text.
#[verifier::external_body]
pub(crate) fn compact_text(v: &serde_json::Value) -> (r: String)
    ensures
        r@ == compact_text_of(*v),
{
    v.to_string()
}

/// Relies on `Display` for `serde_json::Value` in its alternate form: the
/// indented text.
#[verifier::external_body]
pub(crate) fn pretty_text(v: &serde_json::Value) -> (r: String)
    ensures
        r@ == pretty_text_of(*v),
{
    format!("{:#}", v)
}

/// Relies on serde_urlencoded::to_string: the form encoding of a value.
#[verifier::external_body]
pub(crate) fn form_text(v: &serde_json::Value) -> (r: Option<String>)
    ensures
        r is Some <==> form_text_of(*v) is Some,
        r is Some ==> r->Some_0@ == form_text_of(*v)->Some_0,
{
    serde_urlencoded::to_string(v).ok()
}

/// Relies on serde_qs::to_string: the query string of a value.
#[verifier::external_body]
pub(crate) fn query_text(v: &serde_json::Value) -> (r: Option<String>)
    ensures
        r is Some <==> query_text_of(*v) is Some,
        r is Some ==> r->Some_0@ == query_text_of(*v)->Some_0,
{
    serde_qs::to_string(v).ok()
}

/// Fields with their names as character sequences.
pub open spec fn fields_view(s: Seq<(String, serde_json::Value)>) -> Seq<(Seq<char>, serde_json::Value)> {
    s.map_values(|e: (String, serde_json::Value)| (e.0@, e.1))
}

pub open spec fn keys_unique<V>(s: Seq<(Seq<char>, V)>) -> bool {
    forall|i: int, j: int| 0 <= i < j < s.len() ==> s[i].0 != s[j].0
}

/// `s` without the fields named `k`.
pub open spec fn without_key<V>(s: Seq<(Seq<char>, V)>, k: Seq<char>) -> Seq<(Seq<char>, V)>
    decreases s.len(),
{
    if s.len() == 0 {
        s
    } else if s[0].0 == k {
        without_key(s.drop_first(), k)
    } else {
        seq![s[0]] + without_key(s.drop_first(), k)
    }
}

/// `s` with field `k` set to `v`: any earlier field of that name is replaced.
pub open spec fn with_key<V>(s: Seq<(Seq<char>, V)>, k: Seq<char>, v: V) -> Seq<(Seq<char>, V)> {
    without_key(s, k).push((k, v))
}

/// The value of field `k`, if `s` has one.
pub open spec fn lookup<V>(s: Seq<(Seq<char>, V)>, k: Seq<char>) -> Option<V>
    decreases s.len(),
{
    if s.len() == 0 {
        None
    } else if s[0].0 == k {
        Some(s[0].1)
    } else {
        lookup(s.drop_first(), k)
    }
}

/// What a text given for a field stands for: its JSON value where it is
/// JSON, else the text itself as a JSON string.
pub open spec fn coerced(s: Seq<char>) -> serde_json::Value {
    match json_parse_of(s) {
        Some(v) => v,
        None => json_string_of(s),
    }
}

/// Reads a text as JSON, falling back to a JSON string of the text. Never fails.
pub fn coerce_value(s: &str) -> (r: serde_json::Value)
    ensures
        r == coerced(s@),
{
    match parse_json(s) {
        Some(v) => v,
        None => string_value(s),
    }
}

/// Whether an optional template part says nothing: absent, `null`, or an
/// object without fields.
pub open spec fn empty_json(v: Option<serde_json::Value>) -> bool {
    match v {
        None => true,
        Some(x) => is_null_of(x) || object_fields_of(x) == Some(Seq::<(Seq<char>, serde_json::Value)>::empty()),
    }
}

/// Whether an optional template part says nothing, so that it need not be
/// written out.
pub fn empty_json_value(v: &Option<serde_json::Value>) -> (r: bool)
    ensures
        r == empty_json(*v),
{
    match v {
        None => true,
        Some(x) => {
            if is_null(x) {
                return true;
            }
            match JsonObject::from_value(x) {
                Some(o) => {
                    let n = o.len();
                    assert(n == 0 ==> o@ =~= Seq::<(Seq<char>, serde_json::Value)>::empty());
                    n == 0
                },
                None => false,
            }
        },
    }
}

pub proof fn lemma_without_key_absent<V>(s: Seq<(Seq<char>, V)>, k: Seq<char>)
    ensures
        lookup(without_key(s, k), k) is None,
        (forall|i: int| 0 <= i < s.len() ==> s[i].0 != k) ==> without_key(s, k) == s,
    decreases s.len(),
{
    if s.len() > 0 {
        lemma_without_key_absent(s.drop_first(), k);
        if s[0].0 != k {
            let t = seq![s[0]] + without_key(s.drop_first(), k);
            assert(t[0] == s[0]);
            assert(t.drop_first() =~= without_key(s.drop_first(), k));
            if forall|i: int| 0 <= i < s.len() ==> s[i].0 != k {
                assert forall|i: int| 0 <= i < s.len() - 1 implies s.drop_first()[i].0 != k by {
                    assert(s.drop_first()[i] == s[i + 1]);
                }
                assert(t =~= s);
            }
        }
    }
}

/// The top level of a JSON object: its fields, each name once.
#[derive(Clone, Debug)]
pub struct JsonObject {
    pub entries: Vec<(String, serde_json::Value)>,
}

impl View for JsonObject {
    type V = Seq<(Seq<char>, serde_json::Value)>;

    open spec fn view(&self) -> Seq<(Seq<char>, serde_json::Value)> {
        fields_view(self.entries@)
    }
}

impl JsonObject {
    pub open spec fn wf(&self) -> bool {
        keys_unique(self@)
    }

    /// The empty object.
    pub fn new() -> (r: JsonObject)
        ensures
            r@ == Seq::<(Seq<char>, serde_json::Value)>::empty(),
            r.wf(),
    {
        JsonObject { entries: Vec::new() }
    }

    /// The fields of `v` where it is an object.
    pub fn from_value(v: &serde_json::Value) -> (r: Option<JsonObject>)
        ensures
            r is Some <==> object_fields_of(*v) is Some,
            r is Some ==> r->Some_0@ == object_fields_of(*v)->Some_0 && r->Some_0.wf(),
    {
        match object_fields(v) {
            Some(entries) => Some(JsonObject { entries }),
            None => None,
        }
    }

    pub fn len(&self) -> (r: usize)
        ensures
            r == self@.len(),
    {
        self.entries.len()
    }

    /// Takes out every field named `k`.
    pub fn remove(&mut self, k: &String)
        ensures
            final(self)@ == without_key(old(self)@, k@),
            old(self).wf() ==> final(self).wf(),
    {
        let ghost orig = self@;
        let mut rest = Vec::new();
        std::mem::swap(&mut rest, &mut self.entries);
        assert(self@ =~= Seq::<(Seq<char>, serde_json::Value)>::empty());
        assert(fields_view(rest@) == orig);
        while rest.len() > 0
            invariant
                self@ + without_key(fields_view(rest@), k@) == without_key(orig, k@),
            decreases rest.len(),
        {
            let ghost before = rest@;
            let e = rest.remove(0);
            assert(fields_view(rest@) =~= fields_view(before).drop_first());
            let ghost s = self@;
            if e.0 == *k {
                assert(fields_view(before)[0] == (e.0@, e.1));
            } else {
                self.entries.push(e);
                assert(self@ =~= s.push((e.0@, e.1)));
                assert(fields_view(before)[0] == (e.0@, e.1));
                assert(self@ + without_key(fields_view(rest@), k@) =~= s + without_key(fields_view(before), k@));
            }
        }
        assert(without_key(fields_view(rest@), k@) =~= fields_view(rest@));
        assert(self@ =~= self@ + without_key(fields_view(rest@), k@));
        proof {
            if keys_unique(orig) {
                lemma_without_key_unique(orig, k@);
            }
        }
    }

    /// Sets field `k` to `v`, replacing any field of that name.
    pub fn set(&mut self, k: String, v: serde_json::Value)
        ensures
            final(self)@ == with_key(old(self)@, k@, v),
            old(self).wf() ==> final(self).wf(),
    {
        let ghost orig = self@;
        self.remove(&k);
        let ghost mid = self@;
        let ghost kv = k@;
        self.entries.push((k, v));
        assert(self@ =~= mid.push((kv, v)));
        proof {
            lemma_without_key_absent(orig, kv);
            lemma_without_key_members(orig, kv);
            if keys_unique(orig) {
                lemma_without_key_unique(orig, kv);
                assert forall|i: int, j: int| 0 <= i < j < self@.len() implies self@[i].0 != self@[j].0 by {
                    if j == mid.len() {
                        assert(mid[i].0 != kv);
                    } else {
                        assert(self@[i] == mid[i] && self@[j] == mid[j]);
                    }
                }
            }
        }
    }
}

/// Every field of `without_key(s, k)` is a field of `s` not named `k`.
pub proof fn lemma_without_key_members<V>(s: Seq<(Seq<char>, V)>, k: Seq<char>)
    ensures
        forall|i: int| 0 <= i < without_key(s, k).len() ==> #[trigger] without_key(s, k)[i].0 != k
            && s.contains(without_key(s, k)[i]),
    decreases s.len(),
{
    if s.len() > 0 {
        lemma_without_key_members(s.drop_first(), k);
        let w = without_key(s.drop_first(), k);
        assert forall|i: int| 0 <= i < w.len() implies s.contains(#[trigger] w[i]) by {
            let j = choose|j: int| 0 <= j < s.drop_first().len() && s.drop_first()[j] == w[i];
            assert(s[j + 1] == w[i]);
        }
        if s[0].0 != k {
            let t = seq![s[0]] + w;
            assert forall|i: int| 0 <= i < t.len() implies #[trigger] t[i].0 != k && s.contains(t[i]) by {
                if i == 0 {
                    assert(s[0] == t[0]);
                } else {
                    assert(t[i] == w[i - 1]);
                }
            }
        }
    }
}

pub proof fn lemma_without_key_unique<V>(s: Seq<(Seq<char>, V)>, k: Seq<char>)
    requires
        keys_unique(s),
    ensures
        keys_unique(without_key(s, k)),
    decreases s.len(),
{
    if s.len() > 0 {
        let r = s.drop_first();
        assert(keys_unique(r)) by {
            assert forall|i: int, j: int| 0 <= i < j < r.len() implies r[i].0 != r[j].0 by {
                assert(r[i] == s[i + 1] && r[j] == s[j + 1]);
            }
        }
        lemma_without_key_unique(r, k);
        lemma_without_key_members(r, k);
        let w = without_key(r, k);
        if s[0].0 != k {
            let t = seq![s[0]] + w;
            assert forall|i: int, j: int| 0 <= i < j < t.len() implies t[i].0 != t[j].0 by {
                assert(t[j] == w[j - 1]);
                assert(w[j - 1].0 != k);
                if i == 0 {
                    let m = choose|m: int| 0 <= m < r.len() && r[m] == w[j - 1];
                    assert(r[m] == s[m + 1]);
                } else {
                    assert(t[i] == w[i - 1]);
                }
            }
        }
    }
}

} // verus!
