//! The tracing exporter service's configuration.

use vstd::prelude::*;

verus! {

/// The name a service is reported under.
pub open spec fn service_name(name: Seq<char>) -> Seq<char> {
    "pingap-"@ + name
}

/// A background service that exports traces of one named server to an
/// endpoint.
pub struct TracerService {
    pub name: String,
    pub endpoint: String,
}

impl TracerService {
    pub fn new(name: &str, endpoint: &str) -> (r: TracerService)
        ensures
            r.name@ == name@,
            r.endpoint@ == endpoint@,
    {
        TracerService { name: name.to_owned(), endpoint: endpoint.to_owned() }
    }

    /// The name this service's traces are reported under.
    pub fn service_name(&self) -> (r: String)
        ensures
            r@ == service_name(self.name@),
    {
        get_service_name(self.name.as_str())
    }
}

/// The name a service is reported under: its name after `pingap-`.
pub fn get_service_name(name: &str) -> (r: String)
    ensures
        r@ == service_name(name@),
{
    let mut s = "pingap-".to_owned();
    s.append(name);
    s
}

} // verus!
