//! The HTTP method of a request.

use vstd::prelude::*;

verus! {

/// The HTTP method, for the request that is sent and for its signature alike.
#[derive(Clone, Copy, Debug, PartialEq, Eq, Structural)]
pub enum Method {
    Get,
    Post,
    Put,
    Delete,
}

impl Method {
    /// The name of the verb, in upper case.
    pub open spec fn verb(self) -> Seq<char> {
        match self {
            Method::Get => "GET"@,
            Method::Post => "POST"@,
            Method::Put => "PUT"@,
            Method::Delete => "DELETE"@,
        }
    }

    /// The name of the verb, in upper case.
    pub fn as_str(&self) -> (name: &'static str)
        ensures
            name@ == self.verb(),
    {
        match self {
            Method::Get => "GET",
            Method::Post => "POST",
            Method::Put => "PUT",
            Method::Delete => "DELETE",
        }
    }

    /// The name of the verb, in upper case.
    pub fn to_string(&self) -> (name: String)
        ensures
            name@ == self.verb(),
    {
        match self {
            Method::Get => "GET".to_owned(),
            Method::Post => "POST".to_owned(),
            Method::Put => "PUT".to_owned(),
            Method::Delete => "DELETE".to_owned(),
        }
    }
}

} // verus!
