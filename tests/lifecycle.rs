use std::cell::{Cell, RefCell};

use gml::daemon::{expired_cluster_ids, is_expired, run_tick};
use gml::error::{ErrorKind, GmlError};
use gml::node::{
    handle_connect_command, handle_create_node, handle_delete_node, handle_node_timeout_remove,
    handle_node_timeout_reset, node_request, plan_expiry, record_created_node, record_started_node,
    teardown_details, finish_delete,
};
use gml::provider::{NodeDetails, NodeProvider, NodeRequest};
use gml::state::{ClusterEntry, GmlState, NodeEntry};

const T: i64 = 1_704_067_200;

/// A provider that succeeds unless told otherwise and counts its calls.
struct Stub {
    next_id: String,
    fail_start: bool,
    fail_stop: bool,
    starts: Cell<u32>,
    stops: RefCell<Vec<String>>,
}

impl Stub {
    fn new(next_id: &str) -> Stub {
        Stub {
            next_id: next_id.to_string(),
            fail_start: false,
            fail_stop: false,
            starts: Cell::new(0),
            stops: RefCell::new(Vec::new()),
        }
    }
}

impl NodeProvider for Stub {
    fn start_node(&self, request: NodeRequest) -> Result<NodeDetails, GmlError> {
        self.starts.set(self.starts.get() + 1);
        assert_eq!(request.instance_type, "gpu.small");
        if self.fail_start {
            return Err(GmlError::new(ErrorKind::RemoteApi(500), "boom".to_string()));
        }
        Ok(NodeDetails { ip: "192.0.2.7".to_string(), id: self.next_id.clone() })
    }

    fn stop_node(&self, details: NodeDetails) -> Result<NodeDetails, GmlError> {
        self.stops.borrow_mut().push(details.id.clone());
        if self.fail_stop {
            return Err(GmlError::new(ErrorKind::RemoteApi(502), "bad gateway".to_string()));
        }
        Ok(details)
    }

    fn get_user(&self) -> Result<String, GmlError> {
        Ok("ubuntu".to_string())
    }

    fn get_node_types(&self) -> Result<String, GmlError> {
        Ok("{}".to_string())
    }
}

fn entry(id: &str, provider: &str, timeout: Option<i64>) -> NodeEntry {
    NodeEntry {
        id: id.to_string(),
        provider_id: format!("remote-{}", id),
        ip: "192.0.2.1".to_string(),
        provider: provider.to_string(),
        instance_type: "gpu.small".to_string(),
        user: "ubuntu".to_string(),
        created_at: T,
        timeout,
    }
}

#[test]
fn create_sets_timeout_from_duration() {
    let mut s = GmlState::new();
    let stub = Stub::new("n1");
    let e = handle_create_node(&mut s, &stub, "lambda".to_string(), "gpu.small".to_string(), "1h", T)
        .unwrap();
    assert_eq!(e.created_at, T);
    assert_eq!(e.timeout, Some(T + 3600));
    let got = s.get_node("n1").unwrap();
    assert_eq!(got, e);
    assert_eq!(got.provider_id, "n1");
    assert_eq!(got.ip, "192.0.2.7");
    assert_eq!(got.user, "ubuntu");
    assert_eq!(got.provider, "lambda");
}

#[test]
fn create_without_a_duration_never_expires() {
    let mut s = GmlState::new();
    let stub = Stub::new("n2");
    let e = handle_create_node(&mut s, &stub, "lambda".to_string(), "gpu.small".to_string(), "", T)
        .unwrap();
    assert_eq!(e.timeout, None);
    assert_eq!(s.get_node("n2").unwrap().timeout, None);
}

#[test]
fn create_with_compound_duration() {
    let mut s = GmlState::new();
    let stub = Stub::new("n3");
    let e =
        handle_create_node(&mut s, &stub, "lambda".to_string(), "gpu.small".to_string(), "2h 30m", T)
            .unwrap();
    assert_eq!(e.timeout, Some(T + 9000));
}

#[test]
fn failed_start_leaves_state_untouched() {
    let mut s = GmlState::new();
    s.add_node(entry("old", "lambda", None)).unwrap();
    let mut stub = Stub::new("n1");
    stub.fail_start = true;
    let err = handle_create_node(&mut s, &stub, "lambda".to_string(), "gpu.small".to_string(), "1h", T)
        .unwrap_err();
    assert_eq!(err.kind, ErrorKind::RemoteApi(500));
    assert_eq!(s.list_nodes(), vec![entry("old", "lambda", None)]);
}

#[test]
fn expiry_beyond_range_fails_before_the_provider_is_called() {
    let mut s = GmlState::new();
    let stub = Stub::new("n1");
    let err = handle_create_node(
        &mut s,
        &stub,
        "lambda".to_string(),
        "gpu.small".to_string(),
        "1h",
        i64::MAX - 10,
    )
    .unwrap_err();
    assert_eq!(err.kind, ErrorKind::InvalidDuration);
    assert_eq!(stub.starts.get(), 0);
    assert!(s.list_nodes().is_empty());
}

#[test]
fn create_with_a_taken_id_reports_duplicate() {
    let mut s = GmlState::new();
    s.add_node(entry("n1", "lambda", None)).unwrap();
    let stub = Stub::new("n1");
    let err = handle_create_node(&mut s, &stub, "lambda".to_string(), "gpu.small".to_string(), "1h", T)
        .unwrap_err();
    assert_eq!(err.kind, ErrorKind::DuplicateKey);
    assert_eq!(s.list_nodes(), vec![entry("n1", "lambda", None)]);
}

#[test]
fn delete_stops_remote_then_removes() {
    let mut s = GmlState::new();
    s.add_node(entry("a", "lambda", None)).unwrap();
    let stub = Stub::new("unused");
    let d = handle_delete_node(&mut s, "a", &stub).unwrap();
    assert_eq!(d.id, "remote-a");
    assert_eq!(*stub.stops.borrow(), vec!["remote-a".to_string()]);
    assert!(s.get_node("a").is_none());
}

#[test]
fn delete_of_unknown_id_is_not_found() {
    let mut s = GmlState::new();
    let stub = Stub::new("unused");
    assert_eq!(handle_delete_node(&mut s, "nope", &stub).unwrap_err().kind, ErrorKind::NotFound);
    assert!(stub.stops.borrow().is_empty());
}

#[test]
fn failed_remote_delete_keeps_the_entry() {
    let mut s = GmlState::new();
    s.add_node(entry("a", "lambda", None)).unwrap();
    let mut stub = Stub::new("unused");
    stub.fail_stop = true;
    assert_eq!(handle_delete_node(&mut s, "a", &stub).unwrap_err().kind, ErrorKind::RemoteApi(502));
    assert_eq!(s.get_node("a"), Some(entry("a", "lambda", None)));
}

#[test]
fn timeout_reset_and_remove() {
    let mut s = GmlState::new();
    s.add_node(entry("a", "lambda", None)).unwrap();
    handle_node_timeout_reset(&mut s, "a", "30m", T).unwrap();
    assert_eq!(s.get_node("a").unwrap().timeout, Some(T + 1800));
    assert_eq!(
        handle_node_timeout_reset(&mut s, "a", "soon", T).unwrap_err().kind,
        ErrorKind::InvalidDuration
    );
    assert_eq!(s.get_node("a").unwrap().timeout, Some(T + 1800));
    assert_eq!(
        handle_node_timeout_reset(&mut s, "b", "30m", T).unwrap_err().kind,
        ErrorKind::NotFound
    );
    handle_node_timeout_remove(&mut s, "a").unwrap();
    assert_eq!(s.get_node("a").unwrap().timeout, None);
    assert_eq!(handle_node_timeout_remove(&mut s, "b").unwrap_err().kind, ErrorKind::NotFound);
}

#[test]
fn connect_target_is_user_at_address() {
    let mut s = GmlState::new();
    s.add_node(entry("a", "lambda", None)).unwrap();
    assert_eq!(handle_connect_command(&s, "a").unwrap(), "ubuntu@192.0.2.1");
    assert_eq!(handle_connect_command(&s, "b").unwrap_err().kind, ErrorKind::NotFound);
}

#[test]
fn expiry_is_reached_at_the_instant_itself() {
    assert!(is_expired(Some(T), T));
    assert!(is_expired(Some(T - 1), T));
    assert!(!is_expired(Some(T + 1), T));
    assert!(!is_expired(None, T));
}

#[test]
fn tick_deletes_only_the_expired_node() {
    let mut s = GmlState::new();
    s.add_node(entry("expired", "lambda", Some(T - 1))).unwrap();
    s.add_node(entry("forever", "lambda", None)).unwrap();
    let stub = Stub::new("unused");
    let report = run_tick(&mut s, T, "lambda", &stub);
    assert_eq!(report.len(), 1);
    assert_eq!(report[0].id, "expired");
    assert!(report[0].error.is_none());
    assert_eq!(*stub.stops.borrow(), vec!["remote-expired".to_string()]);
    assert_eq!(s.list_nodes(), vec![entry("forever", "lambda", None)]);
}

#[test]
fn scenario_create_expire_and_reap() {
    let mut s = GmlState::new();
    let creator = Stub::new("n1");
    let e = handle_create_node(&mut s, &creator, "lambda".to_string(), "gpu.small".to_string(), "1h", T)
        .unwrap();
    assert_eq!(e.timeout, Some(T + 3600));
    let stub = Stub::new("unused");
    let report = run_tick(&mut s, T + 7200, "lambda", &stub);
    assert_eq!(report.len(), 1);
    assert!(s.get_node("n1").is_none());
    assert!(s.list_nodes().is_empty());
    assert_eq!(stub.stops.borrow().len(), 1);
    assert_eq!(*stub.stops.borrow(), vec!["n1".to_string()]);
}

#[test]
fn tick_isolates_a_failed_deletion() {
    let mut s = GmlState::new();
    s.add_node(entry("a", "lambda", Some(T - 10))).unwrap();
    s.add_node(entry("b", "lambda", Some(T - 5))).unwrap();
    let mut stub = Stub::new("unused");
    stub.fail_stop = true;
    let report = run_tick(&mut s, T, "lambda", &stub);
    assert_eq!(report.len(), 2);
    assert!(report.iter().all(|o| o.error.is_some()));
    assert_eq!(stub.stops.borrow().len(), 2);
    assert_eq!(s.list_nodes().len(), 2);
}

#[test]
fn tick_leaves_other_providers_and_future_expiries() {
    let mut s = GmlState::new();
    s.add_node(entry("other", "elsewhere", Some(T - 10))).unwrap();
    s.add_node(entry("later", "lambda", Some(T + 10))).unwrap();
    let stub = Stub::new("unused");
    let report = run_tick(&mut s, T, "lambda", &stub);
    assert!(report.is_empty());
    assert!(stub.stops.borrow().is_empty());
    assert_eq!(s.list_nodes().len(), 2);
}

#[test]
fn expired_clusters_are_listed_in_order() {
    let mut s = GmlState::new();
    for (id, t) in [("c1", Some(T - 1)), ("c2", None), ("c3", Some(T)), ("c4", Some(T + 1))] {
        s.add_cluster(ClusterEntry {
            id: id.to_string(),
            provider: "lambda".to_string(),
            created_at: T - 100,
            node_count: 2,
            timeout: t,
        })
        .unwrap();
    }
    assert_eq!(expired_cluster_ids(&s, T), vec!["c1".to_string(), "c3".to_string()]);
}

#[test]
fn recording_a_created_node() {
    let mut s = GmlState::new();
    let d = NodeDetails { ip: "198.51.100.4".to_string(), id: "i-42".to_string() };
    let e = record_created_node(
        &mut s,
        d,
        "ubuntu".to_string(),
        "lambda".to_string(),
        "gpu.small".to_string(),
        T,
        Some(T + 60),
    )
    .unwrap();
    let expected = NodeEntry {
        id: "i-42".to_string(),
        provider_id: "i-42".to_string(),
        ip: "198.51.100.4".to_string(),
        provider: "lambda".to_string(),
        instance_type: "gpu.small".to_string(),
        user: "ubuntu".to_string(),
        created_at: T,
        timeout: Some(T + 60),
    };
    assert_eq!(e, expected);
    assert_eq!(s.list_nodes(), vec![expected]);
    let again = NodeDetails { ip: "198.51.100.5".to_string(), id: "i-42".to_string() };
    let err = record_created_node(
        &mut s,
        again,
        "ubuntu".to_string(),
        "lambda".to_string(),
        "gpu.small".to_string(),
        T,
        None,
    )
    .unwrap_err();
    assert_eq!(err.kind, ErrorKind::DuplicateKey);
    assert_eq!(s.list_nodes().len(), 1);
    assert_eq!(s.get_node("i-42").unwrap().ip, "198.51.100.4");
}

#[test]
fn create_rejects_a_text_that_is_not_a_duration() {
    let mut s = GmlState::new();
    let stub = Stub::new("n1");
    for text in ["soon", "10000y"] {
        let err = handle_create_node(&mut s, &stub, "lambda".to_string(), "gpu.small".to_string(), text, T)
            .unwrap_err();
        assert_eq!(err.kind, ErrorKind::InvalidDuration);
    }
    assert_eq!(stub.starts.get(), 0);
    assert!(s.list_nodes().is_empty());
}

#[test]
fn planning_expiries() {
    assert_eq!(plan_expiry("", T).unwrap(), None);
    assert_eq!(plan_expiry("1h", T).unwrap(), Some(T + 3600));
    assert_eq!(plan_expiry("soon", T).unwrap_err().kind, ErrorKind::InvalidDuration);
    assert_eq!(plan_expiry("10000y", T).unwrap_err().kind, ErrorKind::InvalidDuration);
    assert_eq!(node_request("gpu.small".to_string()).instance_type, "gpu.small");
}

#[test]
fn a_started_node_is_recorded_only_after_both_answers() {
    let mut s = GmlState::new();
    let failed = record_started_node(
        &mut s,
        Err(GmlError::new(ErrorKind::RemoteApi(503), "busy".to_string())),
        Ok("ubuntu".to_string()),
        "lambda".to_string(),
        "gpu.small".to_string(),
        T,
        None,
    )
    .unwrap_err();
    assert_eq!(failed.kind, ErrorKind::RemoteApi(503));
    assert_eq!(failed.message, "busy");
    let no_user = record_started_node(
        &mut s,
        Ok(NodeDetails { ip: "10.0.0.9".to_string(), id: "i-9".to_string() }),
        Err(GmlError::new(ErrorKind::Auth, "denied".to_string())),
        "lambda".to_string(),
        "gpu.small".to_string(),
        T,
        None,
    )
    .unwrap_err();
    assert_eq!(no_user.kind, ErrorKind::Auth);
    assert!(s.list_nodes().is_empty());
    let e = record_started_node(
        &mut s,
        Ok(NodeDetails { ip: "10.0.0.9".to_string(), id: "i-9".to_string() }),
        Ok("root".to_string()),
        "lambda".to_string(),
        "gpu.small".to_string(),
        T,
        Some(T + 5),
    )
    .unwrap();
    assert_eq!(e.user, "root");
    assert_eq!(s.list_nodes(), vec![e]);
}

#[test]
fn teardown_uses_the_provider_id_and_address() {
    let d = teardown_details(&entry("a", "lambda", None));
    assert_eq!(d, NodeDetails { id: "remote-a".to_string(), ip: "192.0.2.1".to_string() });
}

#[test]
fn finishing_a_delete_follows_the_provider_answer() {
    let mut s = GmlState::new();
    s.add_node(entry("a", "lambda", None)).unwrap();
    s.add_node(entry("b", "lambda", None)).unwrap();
    let err = finish_delete(&mut s, "a", Err(GmlError::new(ErrorKind::RemoteApi(500), "x".to_string())))
        .unwrap_err();
    assert_eq!(err.kind, ErrorKind::RemoteApi(500));
    assert_eq!(s.list_nodes().len(), 2);
    let ok = NodeDetails { id: "remote-a".to_string(), ip: "192.0.2.1".to_string() };
    assert_eq!(finish_delete(&mut s, "a", Ok(ok)).unwrap().id, "remote-a");
    assert_eq!(s.list_nodes(), vec![entry("b", "lambda", None)]);
}
