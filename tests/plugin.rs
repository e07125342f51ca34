use pingap_core::plugin::{run_plugins, Plugin, PluginConf, PluginStep, ResponseBody, Stats};
use pingap_core::state::{ProcessInfo, RequestHeader, State, SystemInfo};
use pingap_core::otel::{get_service_name, TracerService};

fn conf(entries: &[(&str, &str)]) -> PluginConf {
    PluginConf {
        entries: entries
            .iter()
            .map(|(k, v)| (k.to_string(), v.to_string()))
            .collect(),
    }
}

fn process() -> ProcessInfo {
    ProcessInfo {
        system: SystemInfo {
            memory_mb: 10,
            memory: "10 MB".to_string(),
            arch: "x86_64".to_string(),
            cpus: 4,
            physical_cpus: 2,
            total_memory: "8 GB".to_string(),
            used_memory: "1 GB".to_string(),
            threads: 8,
            fd_count: 12,
            tcp_count: 3,
            tcp6_count: 1,
        },
        hostname: "proxy-1".to_string(),
        env: vec![],
        version: "0.1.0".to_string(),
        rustc_version: "1.80.0".to_string(),
        start_time: 100,
        now: 190,
        processing: 1,
        accepted: 5,
    }
}

fn request(path: &str) -> RequestHeader {
    RequestHeader {
        host: None,
        path: path.to_string(),
        headers: vec![("Accept-Encoding".to_string(), "gzip".to_string())],
    }
}

fn state() -> State {
    State::new(None, None, None, None, None, 0)
}

#[test]
fn test_stats_params() {
    let params = Stats::try_from(&conf(&[("path", "/stats")])).ok().unwrap();
    assert_eq!("/stats", params.path);

    let result = Stats::try_from(&conf(&[("step", "response"), ("path", "/stats")]));
    assert_eq!(
        "Plugin stats invalid at step response, message: Stats plugin should be executed at request or proxy upstream step",
        result.err().unwrap().to_string()
    );
}

#[test]
fn test_stats() {
    let stats = Stats::new(&conf(&[("path", "/stats")])).ok().unwrap();

    let result = stats
        .handle_request(PluginStep::Request, &request("/vicanso/pingap"), &mut state(), &process())
        .ok()
        .unwrap();
    assert_eq!(true, result.is_none());

    let result = stats
        .handle_request(PluginStep::Request, &request("/stats"), &mut state(), &process())
        .ok()
        .unwrap();
    assert_eq!(true, result.is_some());
}

#[test]
fn stats_report_holds_process_and_context_figures() {
    let stats = Stats::new(&conf(&[("path", "/stats")])).ok().unwrap();
    let mut ctx = state();
    ctx.location_processing = 3;
    ctx.location_accepted = 9;
    let resp = stats
        .handle_request(PluginStep::Request, &request("/stats"), &mut ctx, &process())
        .ok()
        .unwrap()
        .unwrap();
    assert_eq!(200, resp.status);
    match resp.body {
        ResponseBody::Stats(s) => {
            assert_eq!(1, s.processing);
            assert_eq!(5, s.accepted);
            assert_eq!(3, s.location_processing);
            assert_eq!(9, s.location_accepted);
            assert_eq!("proxy-1", s.hostname);
            assert_eq!(100, s.start_time);
            assert_eq!("1m 30s", s.uptime);
            assert_eq!(4, s.system.cpus);
        }
        ResponseBody::Bytes(_) => panic!("expected a status report"),
    }
}

#[test]
fn stats_does_nothing_at_another_step() {
    let stats = Stats::new(&conf(&[("path", "/stats"), ("step", "proxy_upstream")])).ok().unwrap();
    assert_eq!(PluginStep::ProxyUpstream, stats.plugin_step);
    let result = stats
        .handle_request(PluginStep::Request, &request("/stats"), &mut state(), &process())
        .ok()
        .unwrap();
    assert!(result.is_none());
}

#[test]
fn stats_refuses_response_step_naming_category_and_step() {
    let e = Stats::new(&conf(&[("step", "response"), ("path", "/stats")])).err().unwrap();
    match e {
        pingap_core::plugin::Error::InvalidStep { category, step, .. } => {
            assert_eq!("stats", category);
            assert_eq!(PluginStep::Response, step);
        }
        _ => panic!("expected a step error"),
    }
}

#[test]
fn unknown_step_defaults_to_request() {
    let stats = Stats::new(&conf(&[("step", "later"), ("path", "/s")])).ok().unwrap();
    assert_eq!(PluginStep::Request, stats.plugin_step);
}

#[test]
fn hash_key_derives_from_configuration() {
    let a = Stats::new(&conf(&[("path", "/stats")])).ok().unwrap();
    let b = Stats::new(&conf(&[("path", "/stats")])).ok().unwrap();
    let c = Stats::new(&conf(&[("path", "/other")])).ok().unwrap();
    assert_eq!("path=/stats\n", a.hash_key());
    assert_eq!(a.hash_key(), b.hash_key());
    assert_ne!(a.hash_key(), c.hash_key());
}

#[test]
fn pipeline_stops_at_first_response() {
    let plugins = vec![
        Stats::new(&conf(&[("path", "/a")])).ok().unwrap(),
        Stats::new(&conf(&[("path", "/stats")])).ok().unwrap(),
        Stats::new(&conf(&[("path", "/stats"), ("x", "1")])).ok().unwrap(),
    ];
    let (r, ran) = run_plugins(&plugins, PluginStep::Request, &request("/stats"), &mut state(), &process());
    assert_eq!(2, ran);
    assert!(r.ok().unwrap().is_some());
}

#[test]
fn pipeline_runs_all_when_none_responds() {
    let plugins = vec![
        Stats::new(&conf(&[("path", "/a")])).ok().unwrap(),
        Stats::new(&conf(&[("path", "/b")])).ok().unwrap(),
    ];
    let (r, ran) = run_plugins(&plugins, PluginStep::Request, &request("/stats"), &mut state(), &process());
    assert_eq!(2, ran);
    assert!(r.ok().unwrap().is_none());
    let (r, ran) = run_plugins(&plugins, PluginStep::Response, &request("/a"), &mut state(), &process());
    assert_eq!(2, ran);
    assert!(r.ok().unwrap().is_none());
}

#[test]
fn tracer_service_names() {
    let t = TracerService::new("web", "http://127.0.0.1:4317");
    assert_eq!("web", t.name);
    assert_eq!("http://127.0.0.1:4317", t.endpoint);
    assert_eq!("pingap-web", t.service_name());
    assert_eq!("pingap-", get_service_name(""));
}
