//! Plugins and the pipeline that runs them at each lifecycle step.

use vstd::prelude::*;
use crate::state::{ProcessInfo, RequestHeader, State, SystemInfo};
use crate::text::str_eq;

verus! {

/// A point in request processing where plugins run.
#[derive(PartialEq, Eq, Structural, Clone, Copy, Debug)]
pub enum PluginStep {
    Request,
    ProxyUpstream,
    Response,
}

/// The configuration text that names a step, if any.
pub open spec fn step_of(s: Seq<char>) -> Option<PluginStep> {
    if s == "request"@ {
        Some(PluginStep::Request)
    } else if s == "proxy_upstream"@ {
        Some(PluginStep::ProxyUpstream)
    } else if s == "response"@ {
        Some(PluginStep::Response)
    } else {
        None
    }
}

/// The configuration text of a step.
pub open spec fn step_name(step: PluginStep) -> Seq<char> {
    match step {
        PluginStep::Request => "request"@,
        PluginStep::ProxyUpstream => "proxy_upstream"@,
        PluginStep::Response => "response"@,
    }
}

impl PluginStep {
    /// The configuration text of this step.
    pub fn as_str(&self) -> (r: &'static str)
        ensures
            r@ == step_name(*self),
    {
        match self {
            PluginStep::Request => "request",
            PluginStep::ProxyUpstream => "proxy_upstream",
            PluginStep::Response => "response",
        }
    }

    /// The step that `s` names, if it names one.
    pub fn parse(s: &str) -> (r: Option<PluginStep>)
        ensures
            r == step_of(s@),
    {
        if str_eq(s, "request") {
            Some(PluginStep::Request)
        } else if str_eq(s, "proxy_upstream") {
            Some(PluginStep::ProxyUpstream)
        } else if str_eq(s, "response") {
            Some(PluginStep::Response)
        } else {
            None
        }
    }
}

/// A plugin's configuration block: its `key = value` entries in order.
pub struct PluginConf {
    pub entries: Vec<(String, String)>,
}

/// The value of the first entry named `key`, if any.
pub open spec fn conf_lookup(entries: Seq<(String, String)>, key: Seq<char>) -> Option<Seq<char>>
    decreases entries.len(),
{
    if entries.len() == 0 {
        None
    } else if entries[0].0@ == key {
        Some(entries[0].1@)
    } else {
        conf_lookup(entries.drop_first(), key)
    }
}

/// The text value of `key`; empty when it is not set.
pub open spec fn conf_str(entries: Seq<(String, String)>, key: Seq<char>) -> Seq<char> {
    match conf_lookup(entries, key) {
        Some(v) => v,
        None => Seq::empty(),
    }
}

/// The configured step; `Request` when none, or no known one, is set.
pub open spec fn conf_step(entries: Seq<(String, String)>) -> PluginStep {
    match step_of(conf_str(entries, "step"@)) {
        Some(s) => s,
        None => PluginStep::Request,
    }
}

/// The identity of a configuration: each entry as `key=value` and a new line.
pub open spec fn conf_key(entries: Seq<(String, String)>) -> Seq<char>
    decreases entries.len(),
{
    if entries.len() == 0 {
        Seq::empty()
    } else {
        conf_key(entries.drop_last()) + entries.last().0@ + "="@ + entries.last().1@ + "\n"@
    }
}

impl PluginConf {
    /// The text value of `key`; empty when it is not set.
    pub fn get_str(&self, key: &str) -> (r: String)
        ensures
            r@ == conf_str(self.entries@, key@),
    {
        let n = self.entries.len();
        let mut i: usize = 0;
        assert(self.entries@.skip(0) =~= self.entries@);
        while i < n
            invariant
                n == self.entries@.len(),
                i <= n,
                conf_lookup(self.entries@, key@) == conf_lookup(self.entries@.skip(i as int), key@),
            decreases n - i,
        {
            assert(self.entries@.skip(i as int).drop_first() =~= self.entries@.skip(i + 1));
            if str_eq(self.entries[i].0.as_str(), key) {
                return self.entries[i].1.clone();
            }
            i = i + 1;
        }
        String::new()
    }

    /// The configured step; `Request` when none, or no known one, is set.
    pub fn get_step(&self) -> (r: PluginStep)
        ensures
            r == conf_step(self.entries@),
    {
        proof {
            reveal_strlit("step");
        }
        let s = self.get_str("step");
        match PluginStep::parse(s.as_str()) {
            Some(step) => step,
            None => PluginStep::Request,
        }
    }

    /// A stable identity derived from the whole configuration.
    pub fn hash_key(&self) -> (r: String)
        ensures
            r@ == conf_key(self.entries@),
    {
        let mut s = String::new();
        let n = self.entries.len();
        let mut i: usize = 0;
        proof {
            reveal_strlit("=");
            reveal_strlit("\n");
            assert(self.entries@.take(0) =~= Seq::<(String, String)>::empty());
        }
        while i < n
            invariant
                n == self.entries@.len(),
                i <= n,
                s@ == conf_key(self.entries@.take(i as int)),
            decreases n - i,
        {
            assert(self.entries@.take(i + 1).drop_last() =~= self.entries@.take(i as int));
            s.append(self.entries[i].0.as_str());
            s.append("=");
            s.append(self.entries[i].1.as_str());
            s.append("\n");
            i = i + 1;
        }
        assert(self.entries@.take(n as int) =~= self.entries@);
        s
    }
}

/// A plugin failure: a configuration it refuses, or a request it could not
/// handle.
pub enum Error {
    InvalidStep { category: String, step: PluginStep, message: String },
    Failed { category: String, message: String },
}

/// An error as data.
pub enum ErrorView {
    InvalidStep { category: Seq<char>, step: PluginStep, message: Seq<char> },
    Failed { category: Seq<char>, message: Seq<char> },
}

pub open spec fn error_view(e: Error) -> ErrorView {
    match e {
        Error::InvalidStep { category, step, message } => ErrorView::InvalidStep { category: category@, step, message: message@ },
        Error::Failed { category, message } => ErrorView::Failed { category: category@, message: message@ },
    }
}

/// The text of an error as it is reported.
pub open spec fn error_text(e: ErrorView) -> Seq<char> {
    match e {
        ErrorView::InvalidStep { category, step, message } => "Plugin "@ + category + " invalid at step "@ + step_name(step)
            + ", message: "@ + message,
        ErrorView::Failed { category, message } => "Plugin "@ + category + " failed, message: "@ + message,
    }
}

impl Error {
    /// The error as text, naming the plugin category.
    pub fn to_string(&self) -> (r: String)
        ensures
            r@ == error_text(error_view(*self)),
    {
        proof {
            reveal_strlit("Plugin ");
            reveal_strlit(" invalid at step ");
            reveal_strlit(", message: ");
            reveal_strlit(" failed, message: ");
        }
        let mut s = "Plugin ".to_owned();
        match self {
            Error::InvalidStep { category, step, message } => {
                s.append(category.as_str());
                s.append(" invalid at step ");
                s.append(step.as_str());
                s.append(", message: ");
                s.append(message.as_str());
            },
            Error::Failed { category, message } => {
                s.append(category.as_str());
                s.append(" failed, message: ");
                s.append(message.as_str());
            },
        }
        s
    }
}


/// The status report that the stats plugin answers with.
pub struct ServerStats {
    pub processing: i32,
    pub accepted: u64,
    pub location_processing: i32,
    pub location_accepted: u64,
    pub hostname: String,
    pub version: String,
    pub rustc_version: String,
    pub start_time: u64,
    pub uptime: String,
    pub system: SystemInfo,
}

/// What a plugin answers with: a status and a body, either bytes or a status
/// report to be rendered as JSON.
pub struct HttpResponse {
    pub status: u16,
    pub body: ResponseBody,
}

pub enum ResponseBody {
    Bytes(Vec<u8>),
    Stats(ServerStats),
}

/// What became of one plugin call.
pub enum Outcome {
    /// Nothing to answer: processing goes on.
    Skip,
    /// A response: processing stops here.
    Respond,
    /// A failure: processing stops here.
    Fail,
}

pub open spec fn outcome_of(r: Result<Option<HttpResponse>, Error>) -> Outcome {
    match r {
        Ok(None) => Outcome::Skip,
        Ok(Some(_)) => Outcome::Respond,
        Err(_) => Outcome::Fail,
    }
}

/// A unit of behaviour bound to a lifecycle step. Called at another step it
/// does nothing.
pub trait Plugin {
    /// What a call gives, in kind.
    spec fn spec_outcome(&self, step: PluginStep, session: RequestHeader, ctx: State, process: ProcessInfo) -> Outcome;

    /// The context after a call.
    spec fn spec_ctx_after(&self, step: PluginStep, session: RequestHeader, ctx: State, process: ProcessInfo) -> State;

    /// What a call's result holds beyond its kind.
    spec fn spec_result(&self, step: PluginStep, session: RequestHeader, ctx: State, process: ProcessInfo, r: Result<Option<HttpResponse>, Error>) -> bool;

    /// The identity derived from the plugin's configuration.
    spec fn spec_hash_key(&self) -> Seq<char>;

    fn hash_key(&self) -> (r: String)
        ensures
            r@ == self.spec_hash_key(),
    ;

    fn handle_request(&self, step: PluginStep, session: &RequestHeader, ctx: &mut State, process: &ProcessInfo) -> (r: Result<Option<HttpResponse>, Error>)
        ensures
            outcome_of(r) == self.spec_outcome(step, *session, *old(ctx), *process),
            *final(ctx) == self.spec_ctx_after(step, *session, *old(ctx), *process),
            self.spec_result(step, *session, *old(ctx), *process, r),
    ;
}

/// The context after the first `k` plugins of a pipeline ran.
pub open spec fn ctx_at<P: Plugin>(plugins: Seq<P>, k: nat, step: PluginStep, session: RequestHeader, ctx: State, process: ProcessInfo) -> State
    decreases k,
{
    if k == 0 {
        ctx
    } else {
        plugins[k - 1].spec_ctx_after(step, session, ctx_at(plugins, (k - 1) as nat, step, session, ctx, process), process)
    }
}

/// How many plugins run from the `k`-th on: up to and including the first
/// that responds or fails, else all of them.
pub open spec fn runs_from<P: Plugin>(plugins: Seq<P>, k: nat, step: PluginStep, session: RequestHeader, ctx: State, process: ProcessInfo) -> nat
    decreases plugins.len() - k,
{
    if k >= plugins.len() {
        plugins.len()
    } else if !(plugins[k as int].spec_outcome(step, session, ctx_at(plugins, k, step, session, ctx, process), process) is Skip) {
        k + 1
    } else {
        runs_from(plugins, k + 1, step, session, ctx, process)
    }
}

/// Runs the plugins in order at `step` until one responds or fails. Gives
/// that result, or `Ok(None)` when none did, and how many plugins ran.
pub fn run_plugins<P: Plugin>(plugins: &Vec<P>, step: PluginStep, session: &RequestHeader, ctx: &mut State, process: &ProcessInfo) -> (r: (Result<Option<HttpResponse>, Error>, usize))
    ensures
        r.1 == runs_from(plugins@, 0, step, *session, *old(ctx), *process),
        *final(ctx) == ctx_at(plugins@, r.1 as nat, step, *session, *old(ctx), *process),
        forall|j: int| 0 <= j < r.1 - 1 ==> #[trigger] plugins@[j].spec_outcome(step, *session, ctx_at(plugins@, j as nat, step, *session, *old(ctx), *process), *process) is Skip,
        r.0 is Ok && r.0->Ok_0 is None ==> r.1 == plugins@.len() && (r.1 == 0 || plugins@[r.1 - 1].spec_outcome(step, *session, ctx_at(plugins@, (r.1 - 1) as nat, step, *session, *old(ctx), *process), *process) is Skip),
        !(r.0 is Ok && r.0->Ok_0 is None) ==> r.1 >= 1 && plugins@[r.1 - 1].spec_result(step, *session, ctx_at(plugins@, (r.1 - 1) as nat, step, *session, *old(ctx), *process), *process, r.0)
            && outcome_of(r.0) == plugins@[r.1 - 1].spec_outcome(step, *session, ctx_at(plugins@, (r.1 - 1) as nat, step, *session, *old(ctx), *process), *process),
{
    let ghost ctx0 = *ctx;
    let n = plugins.len();
    let mut i: usize = 0;
    while i < n
        invariant
            n == plugins@.len(),
            i <= n,
            ctx0 == *old(ctx),
            *ctx == ctx_at(plugins@, i as nat, step, *session, ctx0, *process),
            runs_from(plugins@, 0, step, *session, ctx0, *process) == runs_from(plugins@, i as nat, step, *session, ctx0, *process),
            forall|j: int| 0 <= j < i ==> #[trigger] plugins@[j].spec_outcome(step, *session, ctx_at(plugins@, j as nat, step, *session, ctx0, *process), *process) is Skip,
        decreases n - i,
    {
        let ghost before = *ctx;
        let r = plugins[i].handle_request(step, session, ctx, process);
        proof {
            assert(ctx_at(plugins@, (i + 1) as nat, step, *session, ctx0, *process)
                == plugins@[i as int].spec_ctx_after(step, *session, before, *process));
        }
        match r {
            Ok(None) => {},
            _ => {
                assert(runs_from(plugins@, i as nat, step, *session, ctx0, *process) == i + 1);
                return (r, i + 1);
            },
        }
        i = i + 1;
    }
    (Ok(None), n)
}


/// Seconds since the process started; zero if the clock reads earlier.
pub open spec fn uptime_secs(process: ProcessInfo) -> nat {
    if process.now >= process.start_time { (process.now - process.start_time) as nat } else { 0 }
}

/// How `humantime` renders a span of seconds.
pub uninterp spec fn duration_text_of(secs: nat) -> Seq<char>;

/// Relies on `humantime::format_duration`: the text of a span of seconds.
#[verifier::external_body]
fn format_uptime(secs: u64) -> (r: String)
    ensures
        r@ == duration_text_of(secs as nat),
{
    humantime::format_duration(std::time::Duration::from_secs(secs)).to_string()
}

/// Two resource reports agree, field by field.
pub open spec fn same_system(a: SystemInfo, b: SystemInfo) -> bool {
    &&& a.memory_mb == b.memory_mb
    &&& a.memory@ == b.memory@
    &&& a.arch@ == b.arch@
    &&& a.cpus == b.cpus
    &&& a.physical_cpus == b.physical_cpus
    &&& a.total_memory@ == b.total_memory@
    &&& a.used_memory@ == b.used_memory@
    &&& a.threads == b.threads
    &&& a.fd_count == b.fd_count
    &&& a.tcp_count == b.tcp_count
    &&& a.tcp6_count == b.tcp6_count
}

fn copy_system(s: &SystemInfo) -> (r: SystemInfo)
    ensures
        same_system(r, *s),
{
    SystemInfo {
        memory_mb: s.memory_mb,
        memory: s.memory.clone(),
        arch: s.arch.clone(),
        cpus: s.cpus,
        physical_cpus: s.physical_cpus,
        total_memory: s.total_memory.clone(),
        used_memory: s.used_memory.clone(),
        threads: s.threads,
        fd_count: s.fd_count,
        tcp_count: s.tcp_count,
        tcp6_count: s.tcp6_count,
    }
}

/// The status report for a request handled with `ctx` in `process`.
pub open spec fn stats_of(s: ServerStats, ctx: State, process: ProcessInfo) -> bool {
    &&& s.processing == process.processing
    &&& s.accepted == process.accepted
    &&& s.location_processing == ctx.location_processing
    &&& s.location_accepted == ctx.location_accepted
    &&& s.hostname@ == process.hostname@
    &&& s.version@ == process.version@
    &&& s.rustc_version@ == process.rustc_version@
    &&& s.start_time == process.start_time
    &&& s.uptime@ == duration_text_of(uptime_secs(process))
    &&& same_system(s.system, process.system)
}

/// The plugin that answers requests for one path with a status report.
pub struct Stats {
    pub path: String,
    pub plugin_step: PluginStep,
    pub hash_value: String,
}

/// The steps the stats plugin can run at.
pub open spec fn stats_step_allowed(step: PluginStep) -> bool {
    step == PluginStep::Request || step == PluginStep::ProxyUpstream
}

/// Why the stats plugin refuses a step.
pub open spec fn stats_step_message() -> Seq<char> {
    "Stats plugin should be executed at request or proxy upstream step"@
}

impl Stats {
    /// Builds the plugin from its configuration: the `path` it answers and
    /// its `step`, which must be `request` or `proxy_upstream`.
    pub fn try_from(value: &PluginConf) -> (r: Result<Stats, Error>)
        ensures
            match r {
                Ok(s) => stats_step_allowed(conf_step(value.entries@))
                    && s.plugin_step == conf_step(value.entries@)
                    && s.path@ == conf_str(value.entries@, "path"@)
                    && s.hash_value@ == conf_key(value.entries@),
                Err(e) => !stats_step_allowed(conf_step(value.entries@))
                    && error_view(e) == (ErrorView::InvalidStep {
                        category: "stats"@,
                        step: conf_step(value.entries@),
                        message: stats_step_message(),
                    }),
            },
    {
        let hash_value = value.hash_key();
        let step = value.get_step();
        let path = value.get_str("path");
        if !(step == PluginStep::Request || step == PluginStep::ProxyUpstream) {
            return Err(Error::InvalidStep {
                category: "stats".to_owned(),
                step,
                message: "Stats plugin should be executed at request or proxy upstream step".to_owned(),
            });
        }
        Ok(Stats { path, plugin_step: step, hash_value })
    }

    /// Same as `try_from`.
    pub fn new(params: &PluginConf) -> (r: Result<Stats, Error>)
        ensures
            match r {
                Ok(s) => stats_step_allowed(conf_step(params.entries@))
                    && s.plugin_step == conf_step(params.entries@)
                    && s.path@ == conf_str(params.entries@, "path"@)
                    && s.hash_value@ == conf_key(params.entries@),
                Err(e) => !stats_step_allowed(conf_step(params.entries@))
                    && error_view(e) == (ErrorView::InvalidStep {
                        category: "stats"@,
                        step: conf_step(params.entries@),
                        message: stats_step_message(),
                    }),
            },
    {
        Stats::try_from(params)
    }
}

impl Plugin for Stats {
    open spec fn spec_outcome(&self, step: PluginStep, session: RequestHeader, ctx: State, process: ProcessInfo) -> Outcome {
        if step == self.plugin_step && session.path@ == self.path@ { Outcome::Respond } else { Outcome::Skip }
    }

    open spec fn spec_ctx_after(&self, step: PluginStep, session: RequestHeader, ctx: State, process: ProcessInfo) -> State {
        ctx
    }

    open spec fn spec_result(&self, step: PluginStep, session: RequestHeader, ctx: State, process: ProcessInfo, r: Result<Option<HttpResponse>, Error>) -> bool {
        r matches Ok(Some(resp)) ==> resp.status == 200 && (resp.body matches ResponseBody::Stats(s) && stats_of(s, ctx, process))
    }

    open spec fn spec_hash_key(&self) -> Seq<char> {
        self.hash_value@
    }

    fn hash_key(&self) -> (r: String) {
        self.hash_value.clone()
    }

    fn handle_request(&self, step: PluginStep, session: &RequestHeader, ctx: &mut State, process: &ProcessInfo) -> (r: Result<Option<HttpResponse>, Error>) {
        if step != self.plugin_step {
            return Ok(None);
        }
        if str_eq(session.path.as_str(), self.path.as_str()) {
            let secs: u64 = if process.now >= process.start_time { process.now - process.start_time } else { 0 };
            let stats = ServerStats {
                processing: process.processing,
                accepted: process.accepted,
                location_processing: ctx.location_processing,
                location_accepted: ctx.location_accepted,
                hostname: process.hostname.clone(),
                version: process.version.clone(),
                rustc_version: process.rustc_version.clone(),
                start_time: process.start_time,
                uptime: format_uptime(secs),
                system: copy_system(&process.system),
            };
            return Ok(Some(HttpResponse { status: 200, body: ResponseBody::Stats(stats) }));
        }
        Ok(None)
    }
}

/// With three plugins at one step where the first passes and the second
/// responds, the pipeline stops after the second: the third never runs.
pub proof fn lemma_pipeline_stops_at_first_response<P: Plugin>(plugins: Seq<P>, step: PluginStep, session: RequestHeader, ctx: State, process: ProcessInfo)
    requires
        plugins.len() == 3,
        plugins[0].spec_outcome(step, session, ctx, process) is Skip,
        plugins[1].spec_outcome(step, session, ctx_at(plugins, 1, step, session, ctx, process), process) is Respond,
    ensures
        runs_from(plugins, 0, step, session, ctx, process) == 2,
{
    assert(ctx_at(plugins, 0, step, session, ctx, process) == ctx);
    assert(runs_from(plugins, 1, step, session, ctx, process) == 2);
}

} // verus!
