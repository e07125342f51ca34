//! The per-request context threaded through every stage of processing.

use vstd::prelude::*;
use crate::text::{dec, dec_signed, dec_string, dec_string_signed, str_eq};

verus! {

/// A value kept in the context's named-attribute store.
pub enum AttrValue {
    Str(String),
    Int(i64),
    Bool(bool),
}

/// The text that an attribute value renders to in a header.
pub open spec fn attr_text(v: AttrValue) -> Seq<char> {
    match v {
        AttrValue::Str(s) => s@,
        AttrValue::Int(n) => dec_signed(n as int),
        AttrValue::Bool(b) => if b { "true"@ } else { "false"@ },
    }
}

/// The first entry of `attrs` named `name`, if any.
pub open spec fn attr_lookup(attrs: Seq<(String, AttrValue)>, name: Seq<char>) -> Option<AttrValue>
    decreases attrs.len(),
{
    if attrs.len() == 0 {
        None
    } else if attrs[0].0@ == name {
        Some(attrs[0].1)
    } else {
        attr_lookup(attrs.drop_first(), name)
    }
}

/// The per-request record. Facts not known yet are `None` (or an empty
/// upstream address), never a placeholder.
pub struct State {
    pub tls_version: Option<String>,
    pub remote_addr: Option<String>,
    pub remote_port: Option<u16>,
    pub server_addr: Option<String>,
    pub server_port: Option<u16>,
    pub upstream_address: String,
    pub connection_id: usize,
    pub location_processing: i32,
    pub location_accepted: u64,
    pub attributes: Vec<(String, AttrValue)>,
}

/// What the `:name` lookup convention reads from a context: a fixed field for
/// the names below, else the named-attribute store; empty when absent.
pub open spec fn named_value(ctx: State, name: Seq<char>) -> Seq<char> {
    if name == "connection_id"@ {
        dec(ctx.connection_id as nat)
    } else if name == "upstream_address"@ {
        ctx.upstream_address@
    } else if name == "location_processing"@ {
        dec_signed(ctx.location_processing as int)
    } else if name == "location_accepted"@ {
        dec(ctx.location_accepted as nat)
    } else {
        match attr_lookup(ctx.attributes@, name) {
            Some(v) => attr_text(v),
            None => Seq::empty(),
        }
    }
}

fn clone_attr(v: &AttrValue) -> (r: AttrValue)
    ensures
        r == *v,
{
    match v {
        AttrValue::Str(s) => AttrValue::Str(s.clone()),
        AttrValue::Int(n) => AttrValue::Int(*n),
        AttrValue::Bool(b) => AttrValue::Bool(*b),
    }
}

fn render_attr(v: &AttrValue) -> (r: String)
    ensures
        r@ == attr_text(*v),
{
    match v {
        AttrValue::Str(s) => s.clone(),
        AttrValue::Int(n) => dec_string_signed(*n),
        AttrValue::Bool(b) => {
            proof {
                reveal_strlit("true");
                reveal_strlit("false");
            }
            if *b { "true".to_owned() } else { "false".to_owned() }
        },
    }
}

impl State {
    /// A context with the connection-level facts given and every
    /// request-scoped fact at its unknown default.
    pub fn new(
        tls_version: Option<String>,
        remote_addr: Option<String>,
        remote_port: Option<u16>,
        server_addr: Option<String>,
        server_port: Option<u16>,
        connection_id: usize,
    ) -> (r: State)
        ensures
            r.tls_version == tls_version,
            r.remote_addr == remote_addr,
            r.remote_port == remote_port,
            r.server_addr == server_addr,
            r.server_port == server_port,
            r.connection_id == connection_id,
            r.upstream_address@.len() == 0,
            r.location_processing == 0,
            r.location_accepted == 0,
            r.attributes@.len() == 0,
    {
        State {
            tls_version,
            remote_addr,
            remote_port,
            server_addr,
            server_port,
            upstream_address: String::new(),
            connection_id,
            location_processing: 0,
            location_accepted: 0,
            attributes: Vec::new(),
        }
    }

    /// Index of the first attribute named `name`.
    fn find_attr(&self, name: &str) -> (r: Option<usize>)
        ensures
            match r {
                Some(i) => i < self.attributes@.len() && self.attributes@[i as int].0@ == name@
                    && attr_lookup(self.attributes@, name@) == Some(self.attributes@[i as int].1)
                    && forall|j: int| 0 <= j < i ==> self.attributes@[j].0@ != name@,
                None => attr_lookup(self.attributes@, name@) is None
                    && forall|j: int| 0 <= j < self.attributes@.len() ==> self.attributes@[j].0@ != name@,
            },
    {
        let n = self.attributes.len();
        let mut i: usize = 0;
        assert(self.attributes@.skip(0) =~= self.attributes@);
        while i < n
            invariant
                n == self.attributes@.len(),
                i <= n,
                forall|j: int| 0 <= j < i ==> self.attributes@[j].0@ != name@,
                attr_lookup(self.attributes@, name@) == attr_lookup(self.attributes@.skip(i as int), name@),
            decreases n - i,
        {
            assert(self.attributes@.skip(i as int).drop_first() =~= self.attributes@.skip(i + 1));
            if str_eq(self.attributes[i].0.as_str(), name) {
                return Some(i);
            }
            i = i + 1;
        }
        None
    }

    /// The attribute named `name`, if one was set.
    pub fn get_attr(&self, name: &str) -> (r: Option<AttrValue>)
        ensures
            r == attr_lookup(self.attributes@, name@),
    {
        match self.find_attr(name) {
            Some(i) => Some(clone_attr(&self.attributes[i].1)),
            None => None,
        }
    }

    /// Sets the attribute named `name`, replacing an earlier value.
    pub fn set_attr(&mut self, name: &str, value: AttrValue)
        ensures
            attr_lookup(final(self).attributes@, name@) == Some(value),
            forall|k: Seq<char>| k != name@ ==> attr_lookup(#[trigger] final(self).attributes@, k)
                == attr_lookup(old(self).attributes@, k),
            final(self).connection_id == old(self).connection_id,
            final(self).tls_version == old(self).tls_version,
            final(self).remote_addr == old(self).remote_addr,
            final(self).remote_port == old(self).remote_port,
            final(self).server_addr == old(self).server_addr,
            final(self).server_port == old(self).server_port,
            final(self).upstream_address == old(self).upstream_address,
            final(self).location_processing == old(self).location_processing,
            final(self).location_accepted == old(self).location_accepted,
    {
        let ghost before = self.attributes@;
        match self.find_attr(name) {
            Some(i) => {
                let entry = (self.attributes[i].0.clone(), value);
                let ghost e = entry;
                self.attributes.set(i, entry);
                proof {
                    lemma_lookup_update(before, i as int, e);
                }
            },
            None => {
                let entry = (name.to_owned(), value);
                let ghost e = entry;
                self.attributes.push(entry);
                proof {
                    lemma_lookup_push(before, e, name@);
                }
            },
        }
    }

    /// The text that `:name` reads from this context; empty when absent.
    pub fn lookup_value(&self, name: &str) -> (r: String)
        ensures
            r@ == named_value(*self, name@),
    {
        proof {
            reveal_strlit("connection_id");
            reveal_strlit("upstream_address");
            reveal_strlit("location_processing");
            reveal_strlit("location_accepted");
        }
        if str_eq(name, "connection_id") {
            dec_string(self.connection_id as u64)
        } else if str_eq(name, "upstream_address") {
            self.upstream_address.clone()
        } else if str_eq(name, "location_processing") {
            dec_string_signed(self.location_processing as i64)
        } else if str_eq(name, "location_accepted") {
            dec_string(self.location_accepted)
        } else {
            match self.find_attr(name) {
                Some(i) => render_attr(&self.attributes[i].1),
                None => String::new(),
            }
        }
    }
}

proof fn lemma_lookup_update(s: Seq<(String, AttrValue)>, i: int, e: (String, AttrValue))
    requires
        0 <= i < s.len(),
        e.0@ == s[i].0@,
        forall|j: int| 0 <= j < i ==> s[j].0@ != e.0@,
    ensures
        attr_lookup(s.update(i, e), e.0@) == Some(e.1),
        forall|k: Seq<char>| k != e.0@ ==> attr_lookup(#[trigger] s.update(i, e), k) == attr_lookup(s, k),
    decreases s.len(),
{
    if i > 0 {
        assert(s.update(i, e).drop_first() =~= s.drop_first().update(i - 1, e));
        lemma_lookup_update(s.drop_first(), i - 1, e);
    }
    assert forall|k: Seq<char>| k != e.0@ implies #[trigger] attr_lookup(s.update(i, e), k) == attr_lookup(s, k) by {
        lemma_lookup_update_other(s, i, e, k);
    }
}

proof fn lemma_lookup_update_other(s: Seq<(String, AttrValue)>, i: int, e: (String, AttrValue), k: Seq<char>)
    requires
        0 <= i < s.len(),
        e.0@ == s[i].0@,
        k != e.0@,
    ensures
        attr_lookup(s.update(i, e), k) == attr_lookup(s, k),
    decreases s.len(),
{
    if i > 0 {
        assert(s.update(i, e).drop_first() =~= s.drop_first().update(i - 1, e));
        lemma_lookup_update_other(s.drop_first(), i - 1, e, k);
    } else {
        assert(s.update(i, e).drop_first() =~= s.drop_first());
    }
}

proof fn lemma_lookup_push(s: Seq<(String, AttrValue)>, e: (String, AttrValue), name: Seq<char>)
    requires
        e.0@ == name,
        forall|j: int| 0 <= j < s.len() ==> s[j].0@ != name,
    ensures
        attr_lookup(s.push(e), name) == Some(e.1),
        forall|k: Seq<char>| k != name ==> attr_lookup(#[trigger] s.push(e), k) == attr_lookup(s, k),
    decreases s.len(),
{
    if s.len() > 0 {
        assert(s.push(e).drop_first() =~= s.drop_first().push(e));
        lemma_lookup_push(s.drop_first(), e, name);
    } else {
        assert(s.push(e).drop_first() =~= s);
    }
    assert forall|k: Seq<char>| k != name implies #[trigger] attr_lookup(s.push(e), k) == attr_lookup(s, k) by {
        lemma_lookup_push_other(s, e, k);
    }
}

proof fn lemma_lookup_push_other(s: Seq<(String, AttrValue)>, e: (String, AttrValue), k: Seq<char>)
    requires
        e.0@ != k,
    ensures
        attr_lookup(s.push(e), k) == attr_lookup(s, k),
    decreases s.len(),
{
    if s.len() > 0 {
        assert(s.push(e).drop_first() =~= s.drop_first().push(e));
        lemma_lookup_push_other(s.drop_first(), e, k);
    } else {
        assert(s.push(e).drop_first() =~= s);
    }
}


/// The inbound request as the core reads it: its effective host, its path
/// and its header lines in arrival order.
pub struct RequestHeader {
    pub host: Option<String>,
    pub path: String,
    pub headers: Vec<(String, String)>,
}

/// The value of the first header of `headers` whose name equals `name` up to
/// ASCII case.
pub open spec fn header_lookup(headers: Seq<(String, String)>, name: Seq<char>) -> Option<Seq<char>>
    decreases headers.len(),
{
    if headers.len() == 0 {
        None
    } else if crate::text::eq_ignore_ascii_case(headers[0].0@, name) {
        Some(headers[0].1@)
    } else {
        header_lookup(headers.drop_first(), name)
    }
}

impl RequestHeader {
    /// The value of the first header named `name`, compared up to ASCII case.
    pub fn get_header(&self, name: &str) -> (r: Option<String>)
        ensures
            match r {
                Some(v) => header_lookup(self.headers@, name@) == Some(v@),
                None => header_lookup(self.headers@, name@) is None,
            },
    {
        let n = self.headers.len();
        let mut i: usize = 0;
        assert(self.headers@.skip(0) =~= self.headers@);
        while i < n
            invariant
                n == self.headers@.len(),
                i <= n,
                header_lookup(self.headers@, name@) == header_lookup(self.headers@.skip(i as int), name@),
            decreases n - i,
        {
            assert(self.headers@.skip(i as int).drop_first() =~= self.headers@.skip(i + 1));
            if crate::text::str_eq_ignore_ascii_case(self.headers[i].0.as_str(), name) {
                return Some(self.headers[i].1.clone());
            }
            i = i + 1;
        }
        None
    }
}

/// Resource figures of the host and the process, as a status report shows them.
pub struct SystemInfo {
    pub memory_mb: usize,
    pub memory: String,
    pub arch: String,
    pub cpus: usize,
    pub physical_cpus: usize,
    pub total_memory: String,
    pub used_memory: String,
    pub threads: usize,
    pub fd_count: usize,
    pub tcp_count: usize,
    pub tcp6_count: usize,
}

/// Facts of the running process that the core reads: its host name, its
/// environment and its counters, taken once and passed in.
pub struct ProcessInfo {
    pub system: SystemInfo,
    pub hostname: String,
    pub env: Vec<(String, String)>,
    pub version: String,
    pub rustc_version: String,
    pub start_time: u64,
    pub now: u64,
    pub processing: i32,
    pub accepted: u64,
}

/// The value of the first environment entry named exactly `name`.
pub open spec fn env_lookup(env: Seq<(String, String)>, name: Seq<char>) -> Option<Seq<char>>
    decreases env.len(),
{
    if env.len() == 0 {
        None
    } else if env[0].0@ == name {
        Some(env[0].1@)
    } else {
        env_lookup(env.drop_first(), name)
    }
}

impl ProcessInfo {
    /// The environment variable named `name`, if it is set.
    pub fn get_env(&self, name: &str) -> (r: Option<String>)
        ensures
            match r {
                Some(v) => env_lookup(self.env@, name@) == Some(v@),
                None => env_lookup(self.env@, name@) is None,
            },
    {
        let n = self.env.len();
        let mut i: usize = 0;
        assert(self.env@.skip(0) =~= self.env@);
        while i < n
            invariant
                n == self.env@.len(),
                i <= n,
                env_lookup(self.env@, name@) == env_lookup(self.env@.skip(i as int), name@),
            decreases n - i,
        {
            assert(self.env@.skip(i as int).drop_first() =~= self.env@.skip(i + 1));
            if crate::text::str_eq(self.env[i].0.as_str(), name) {
                return Some(self.env[i].1.clone());
            }
            i = i + 1;
        }
        None
    }
}

} // verus!
