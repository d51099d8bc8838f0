//! Per-user task cache with time-based freshness and task-completion
//! reconciliation, together with the pure parts of the task source
//! adapter and the time service that the cache depends on.

use vstd::prelude::*;

pub mod error;
pub mod process;
pub mod request;
pub mod responses;
pub mod tasks;
pub mod time;
pub mod unsplash;
pub mod user;

use crate::error::Error;
use crate::tasks::Task;
use crate::unsplash::Unsplash;
use vstd::string::StringExecFns;

verus! {

/// Everything cached for one (account token, filter) pair: the task list,
/// the suppressed task identifiers, the fetch instants, the cached image,
/// and the resolved timezone.
#[derive(Debug, PartialEq, Eq)]
pub struct UserState {
    pub tasks: Vec<Task>,
    pub skip_task_ids: Vec<String>,
    pub tasks_updated_at: Option<i64>,
    pub unsplash: Option<Unsplash>,
    pub unsplash_updated_at: Option<i64>,
    pub timezone: Option<chrono_tz::Tz>,
}

impl Clone for UserState {
    fn clone(&self) -> (r: Self)
        ensures
            r.tasks@.len() == self.tasks@.len(),
            forall|i: int|
                0 <= i < self.tasks@.len() ==> (#[trigger] r.tasks@[i]).id == self.tasks@[i].id,
            r.skip_task_ids@ == self.skip_task_ids@,
            r.tasks_updated_at == self.tasks_updated_at,
            r.unsplash == self.unsplash,
            r.unsplash_updated_at == self.unsplash_updated_at,
            r.timezone == self.timezone,
    {
        let tasks = self.tasks.clone();
        let skip_task_ids = self.skip_task_ids.clone();
        proof {
            assert(skip_task_ids@ =~= self.skip_task_ids@);
        }
        UserState {
            tasks,
            skip_task_ids,
            tasks_updated_at: self.tasks_updated_at,
            unsplash: self.unsplash.clone(),
            unsplash_updated_at: self.unsplash_updated_at,
            timezone: self.timezone,
        }
    }
}

/// The running mode of the application: live credentials, development, or
/// test fixtures.
#[derive(Debug, Clone, Copy, PartialEq, Eq, Structural)]
pub enum Env {
    Prod,
    Dev,
    Test,
}

/// The mode a configuration string names, if any.
pub open spec fn env_of(s: Seq<char>) -> Option<Env> {
    if s == "Prod"@ {
        Some(Env::Prod)
    } else if s == "Dev"@ {
        Some(Env::Dev)
    } else if s == "Test"@ {
        Some(Env::Test)
    } else {
        None
    }
}

/// Parses the running mode from its configuration string.
pub fn env_from_str(s: &str) -> (r: Option<Env>)
    ensures
        r == env_of(s@),
{
    if str_eq(s, "Prod") {
        Some(Env::Prod)
    } else if str_eq(s, "Dev") {
        Some(Env::Dev)
    } else if str_eq(s, "Test") {
        Some(Env::Test)
    } else {
        None
    }
}

/// Character-by-character string equality.
pub fn str_eq(a: &str, b: &str) -> (r: bool)
    ensures
        r == (a@ == b@),
{
    let a_len = a.unicode_len();
    let b_len = b.unicode_len();
    if a_len != b_len {
        return false;
    }
    let mut i: usize = 0;
    while i < a_len
        invariant
            i <= a_len,
            a_len == a@.len(),
            b_len == b@.len(),
            a_len == b_len,
            forall|j: int| 0 <= j < i ==> a@[j] == b@[j],
        decreases a_len - i,
    {
        if a.get_char(i) != b.get_char(i) {
            return false;
        }
        i += 1;
    }
    proof {
        assert(a@ =~= b@);
    }
    true
}

/// The cache key for one (account token, filter expression) pair.
pub fn make_key(token: &str, filter: &str) -> (r: String)
    ensures
        r@ == token@ + filter@,
{
    let mut key = token.to_owned();
    key.append(filter);
    key
}

/// The value of a request parameter: the first pair whose name matches.
pub open spec fn lookup_param(params: Seq<(String, String)>, field: Seq<char>) -> Option<Seq<char>>
    decreases params.len(),
{
    if params.len() == 0 {
        None
    } else if params[0].0@ == field {
        Some(params[0].1@)
    } else {
        lookup_param(params.drop_first(), field)
    }
}

/// The named request parameter, or a client error naming the missing
/// parameter.
pub fn fetch_parameter(params: &Vec<(String, String)>, field: &str) -> (r: Result<String, Error>)
    ensures
        match r {
            Ok(v) => lookup_param(params@, field@) == Some(v@),
            Err(e) => {
                &&& lookup_param(params@, field@) is None
                &&& e.code == error::BAD_REQUEST
                &&& e.source@ == "fetch_parameter"@
                &&& e.message@ == "Missing query parameter: "@ + field@
            },
        },
{
    let mut i: usize = 0;
    proof {
        assert(params@.skip(0) =~= params@);
    }
    while i < params.len()
        invariant
            i <= params@.len(),
            lookup_param(params@.skip(i as int), field@) == lookup_param(params@, field@),
        decreases params@.len() - i,
    {
        proof {
            assert(params@.skip(i as int)[0] == params@[i as int]);
            assert(params@.skip(i as int).drop_first() =~= params@.skip(i as int + 1));
        }
        if str_eq(params[i].0.as_str(), field) {
            return Ok(params[i].1.clone());
        }
        i += 1;
    }
    proof {
        assert(params@.skip(i as int) =~= Seq::<(String, String)>::empty());
    }
    Err(error::bad_request("fetch_parameter", "Missing query parameter: ".to_owned().concat(
        field,
    ).as_str()))
}

/// A navigation entry handed to the presentation layer.
#[derive(Debug, PartialEq, Eq)]
pub struct Link {
    pub name: String,
    pub href: String,
}

impl Clone for Link {
    fn clone(&self) -> (r: Self)
        ensures
            r == *self,
    {
        Link { name: self.name.clone(), href: self.href.clone() }
    }
}

/// The fixed navigation shown on every page.
pub fn get_nav() -> (r: Vec<Link>)
    ensures
        r@.len() == 2,
        r@[0].href@ == "/"@,
        r@[0].name@ == "SingleTask"@,
        r@[1].href@ == "/shortcuts"@,
        r@[1].name@ == "Keyboard Shortcuts"@,
{
    let mut nav: Vec<Link> = Vec::new();
    nav.push(Link { href: "/".to_owned(), name: "SingleTask".to_owned() });
    nav.push(Link { href: "/shortcuts".to_owned(), name: "Keyboard Shortcuts".to_owned() });
    nav
}

} // verus!
