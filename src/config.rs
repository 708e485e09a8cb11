//! Named profiles: single requests, or pairs of requests to compare.
use vstd::prelude::*;
use crate::diff::{diff_of, diff_text, lines_of};
use crate::error::{Fault, XdiffError};
use crate::profile::{RequestProfile, ValidateConfig};
use crate::response::{normalized, ResponseExt, ResponseProfile};
use crate::text::pairs_view;

verus! {

/// Two requests to compare, and what to leave out of both responses.
#[derive(Clone, Debug)]
pub struct DiffProfile {
    pub req1: RequestProfile,
    pub req2: RequestProfile,
    pub res: ResponseProfile,
}

/// A fault of a request, told of a request of a pair.
pub open spec fn in_request(f: Fault, request: Seq<char>) -> Fault {
    match f {
        Fault::NotAnObject(_, _, field) => Fault::NotAnObject(Seq::empty(), request, field),
        _ => f,
    }
}

/// A fault of a profile, told of the profile's name.
pub open spec fn in_profile(f: Fault, name: Seq<char>) -> Fault {
    match f {
        Fault::NotAnObject(_, request, field) => Fault::NotAnObject(name, request, field),
        _ => f,
    }
}

fn mark_request(e: XdiffError, request: &str) -> (r: XdiffError)
    ensures
        r@ == in_request(e@, request@),
{
    match e {
        XdiffError::NotAnObject { profile: _, request: _, field } => XdiffError::NotAnObject {
            profile: String::new(),
            request: String::from_str(request),
            field,
        },
        other => other,
    }
}

fn mark_profile(e: XdiffError, name: &String) -> (r: XdiffError)
    ensures
        r@ == in_profile(e@, name@),
{
    match e {
        XdiffError::NotAnObject { profile: _, request, field } => XdiffError::NotAnObject {
            profile: name.clone(),
            request,
            field,
        },
        other => other,
    }
}

/// The diff of two responses' texts, as a diff profile writes them.
pub open spec fn diff_spec(p: DiffProfile, r1: ResponseExt, r2: ResponseExt) -> Result<Seq<char>, Fault> {
    match normalized(r1.status@, pairs_view(r1.headers@), r1.body@, p.res) {
        Err(f) => Err(f),
        Ok(t1) => match normalized(r2.status@, pairs_view(r2.headers@), r2.body@, p.res) {
            Err(f) => Err(f),
            Ok(t2) => Ok(diff_of(lines_of(t1), lines_of(t2))),
        },
    }
}

impl DiffProfile {
    pub fn new(req1: RequestProfile, req2: RequestProfile, res: ResponseProfile) -> (r: DiffProfile)
        ensures
            r.req1 == req1,
            r.req2 == req2,
            r.res == res,
    {
        DiffProfile { req1, req2, res }
    }

    /// Compares the responses to `req1` and `req2`: both are written as
    /// `res` asks, then diffed line by line.
    pub fn diff(&self, res1: &ResponseExt, res2: &ResponseExt) -> (r: Result<String, XdiffError>)
        ensures
            match (r, diff_spec(*self, *res1, *res2)) {
                (Ok(s), Ok(t)) => s@ == t,
                (Err(e), Err(f)) => e@ == f,
                _ => false,
            },
    {
        let text1 = match res1.get_text(&self.res) {
            Ok(t) => t,
            Err(e) => return Err(e),
        };
        let text2 = match res2.get_text(&self.res) {
            Ok(t) => t,
            Err(e) => return Err(e),
        };
        Ok(diff_text(text1.as_str(), text2.as_str()))
    }
}

impl ValidateConfig for DiffProfile {
    open spec fn validation(&self) -> Result<(), Fault> {
        match self.req1.validation() {
            Err(f) => Err(in_request(f, "req1"@)),
            Ok(_) => match self.req2.validation() {
                Err(f) => Err(in_request(f, "req2"@)),
                Ok(_) => Ok(()),
            },
        }
    }

    fn validate(&self) -> (r: Result<(), XdiffError>) {
        match self.req1.validate() {
            Err(e) => return Err(mark_request(e, "req1")),
            Ok(_) => {},
        }
        match self.req2.validate() {
            Err(e) => Err(mark_request(e, "req2")),
            Ok(_) => Ok(()),
        }
    }
}

/// The first profile of the given name, by its index.
pub open spec fn first_named<P>(s: Seq<(String, P)>, name: Seq<char>, i: int) -> bool {
    0 <= i < s.len() && s[i].0@ == name && forall|j: int| 0 <= j < i ==> s[j].0@ != name
}

/// Finds the first profile of the given name.
fn find_named<P>(s: &Vec<(String, P)>, name: &str) -> (r: Option<usize>)
    ensures
        r is Some ==> first_named(s@, name@, r->Some_0 as int),
        r is None ==> forall|j: int| 0 <= j < s@.len() ==> s@[j].0@ != name@,
{
    let target = String::from_str(name);
    let mut i: usize = 0;
    while i < s.len()
        invariant
            i <= s@.len(),
            target@ == name@,
            forall|j: int| 0 <= j < i ==> s@[j].0@ != name@,
        decreases s.len() - i,
    {
        if s[i].0 == target {
            return Some(i);
        }
        i = i + 1;
    }
    None
}

/// The profiles of the first validation fault, told of their name.
pub open spec fn profiles_validation<P: ValidateConfig>(s: Seq<(String, P)>) -> Result<(), Fault>
    decreases s.len(),
{
    if s.len() == 0 {
        Ok(())
    } else {
        match s[0].1.validation() {
            Err(f) => Err(in_profile(f, s[0].0@)),
            Ok(_) => profiles_validation(s.drop_first()),
        }
    }
}

fn validate_profiles<P: ValidateConfig>(s: &Vec<(String, P)>) -> (r: Result<(), XdiffError>)
    ensures
        match (r, profiles_validation(s@)) {
            (Ok(_), Ok(_)) => true,
            (Err(e), Err(f)) => e@ == f,
            _ => false,
        },
{
    let mut i: usize = 0;
    assert(s@.skip(0) =~= s@);
    while i < s.len()
        invariant
            i <= s@.len(),
            profiles_validation(s@) == profiles_validation(s@.skip(i as int)),
        decreases s.len() - i,
    {
        assert(s@.skip(i as int)[0] == s@[i as int]);
        assert(s@.skip(i as int).drop_first() =~= s@.skip(i + 1));
        match s[i].1.validate() {
            Err(e) => return Err(mark_profile(e, &s[i].0)),
            Ok(_) => {},
        }
        i = i + 1;
    }
    Ok(())
}

/// Named diff profiles.
#[derive(Clone, Debug)]
pub struct DiffConfig {
    pub profiles: Vec<(String, DiffProfile)>,
}

impl DiffConfig {
    pub fn new(profiles: Vec<(String, DiffProfile)>) -> (r: DiffConfig)
        ensures
            r.profiles == profiles,
    {
        DiffConfig { profiles }
    }

    /// The profile of that name (the first, were there two).
    pub fn get_profile(&self, name: &str) -> (r: Option<&DiffProfile>)
        ensures
            r is None <==> forall|j: int| 0 <= j < self.profiles@.len() ==> self.profiles@[j].0@ != name@,
            r is Some ==> exists|i: int| first_named(self.profiles@, name@, i) && *r->Some_0 == self.profiles@[i].1,
    {
        match find_named(&self.profiles, name) {
            Some(i) => Some(&self.profiles[i].1),
            None => None,
        }
    }
}

impl ValidateConfig for DiffConfig {
    open spec fn validation(&self) -> Result<(), Fault> {
        profiles_validation(self.profiles@)
    }

    fn validate(&self) -> (r: Result<(), XdiffError>) {
        validate_profiles(&self.profiles)
    }
}

/// Named single requests.
#[derive(Clone, Debug)]
pub struct RequestConfig {
    pub profiles: Vec<(String, RequestProfile)>,
}

impl RequestConfig {
    pub fn new(profiles: Vec<(String, RequestProfile)>) -> (r: RequestConfig)
        ensures
            r.profiles == profiles,
    {
        RequestConfig { profiles }
    }

    /// The profile of that name (the first, were there two).
    pub fn get_profile(&self, name: &str) -> (r: Option<&RequestProfile>)
        ensures
            r is None <==> forall|j: int| 0 <= j < self.profiles@.len() ==> self.profiles@[j].0@ != name@,
            r is Some ==> exists|i: int| first_named(self.profiles@, name@, i) && *r->Some_0 == self.profiles@[i].1,
    {
        match find_named(&self.profiles, name) {
            Some(i) => Some(&self.profiles[i].1),
            None => None,
        }
    }
}

impl ValidateConfig for RequestConfig {
    open spec fn validation(&self) -> Result<(), Fault> {
        profiles_validation(self.profiles@)
    }

    fn validate(&self) -> (r: Result<(), XdiffError>) {
        validate_profiles(&self.profiles)
    }
}

} // verus!
