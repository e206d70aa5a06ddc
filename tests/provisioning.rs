use gml::config::{parse_config_for_provider, Config, ProviderConfig};
use gml::error::ErrorKind;
use gml::lambda::{
    available_instance_types, check_response_status, launched_instance_id, terminated_node,
    InstanceTypeOffer, Lambda,
};
use gml::provider::{create_provider_handle, NodeDetails, NodeRequest, ProviderHandle};
use gml::readiness::{PollStep, ReadinessPoll, StatusReport, POLL_ATTEMPTS, POLL_INTERVAL_SECS};

fn report(ip: Option<&str>, status: &str) -> StatusReport {
    StatusReport { ip: ip.map(|s| s.to_string()), status: status.to_string() }
}

#[test]
fn polling_times_out_after_exactly_the_bound() {
    let mut poll = ReadinessPoll::new("i-123".to_string());
    let mut polls = 0;
    let outcome = loop {
        assert!(!poll.exhausted());
        polls += 1;
        match poll.observe(report(Some("10.0.0.1"), "booting")) {
            PollStep::Retry(secs) => assert_eq!(secs, POLL_INTERVAL_SECS),
            other => break other,
        }
    };
    assert_eq!(polls, 60);
    assert_eq!(POLL_ATTEMPTS, 60);
    assert!(poll.exhausted());
    match outcome {
        PollStep::TimedOut(e) => {
            assert_eq!(e.kind, ErrorKind::Timeout);
            assert_eq!(
                e.message,
                "instance i-123 did not become active with an IP address after 10 minutes"
            );
        }
        other => panic!("unexpected {:?}", other),
    }
}

#[test]
fn address_without_active_status_is_not_ready() {
    let mut poll = ReadinessPoll::new("i-1".to_string());
    assert!(matches!(poll.observe(report(Some("10.0.0.1"), "booting")), PollStep::Retry(10)));
    assert!(matches!(poll.observe(report(None, "active")), PollStep::Retry(10)));
    match poll.observe(report(Some("10.0.0.2"), "active")) {
        PollStep::Ready(ip) => assert_eq!(ip, "10.0.0.2"),
        other => panic!("unexpected {:?}", other),
    }
    assert_eq!(poll.attempts, 3);
}

#[test]
fn ready_on_the_last_allowed_poll() {
    let mut poll = ReadinessPoll::new("i-9".to_string());
    for _ in 0..59 {
        assert!(matches!(poll.observe(report(None, "booting")), PollStep::Retry(_)));
    }
    assert!(matches!(poll.observe(report(Some("1.2.3.4"), "active")), PollStep::Ready(_)));
}

#[test]
fn status_codes_are_classified() {
    assert!(check_response_status(200, "").is_ok());
    assert!(check_response_status(204, "").is_ok());
    let e = check_response_status(401, "bad key").unwrap_err();
    assert_eq!(e.kind, ErrorKind::Auth);
    assert_eq!(e.message, "bad key");
    assert_eq!(check_response_status(403, "").unwrap_err().kind, ErrorKind::Auth);
    assert_eq!(check_response_status(500, "oops").unwrap_err().kind, ErrorKind::RemoteApi(500));
    assert_eq!(check_response_status(302, "").unwrap_err().kind, ErrorKind::RemoteApi(302));
}

#[test]
fn launch_and_terminate_responses() {
    assert_eq!(launched_instance_id(&vec!["i-1".to_string(), "i-2".to_string()]).unwrap(), "i-1");
    assert_eq!(launched_instance_id(&vec![]).unwrap_err().kind, ErrorKind::Protocol);
    let d = NodeDetails { ip: "10.0.0.3".to_string(), id: "i-7".to_string() };
    let t = terminated_node(d, &vec!["i-7".to_string()]).unwrap();
    assert_eq!(t, NodeDetails { ip: "10.0.0.3".to_string(), id: "i-7".to_string() });
    let d = NodeDetails { ip: "10.0.0.3".to_string(), id: "i-7".to_string() };
    assert_eq!(terminated_node(d, &vec![]).unwrap_err().kind, ErrorKind::Protocol);
}

#[test]
fn lambda_requests_and_urls() {
    let l = Lambda::new("key".to_string(), "laptop".to_string(), "us-east-1".to_string());
    let req = l.launch_request(&NodeRequest { instance_type: "gpu_1x_a10".to_string() });
    assert_eq!(req.region_name, "us-east-1");
    assert_eq!(req.instance_type_name, "gpu_1x_a10");
    assert_eq!(req.ssh_key_names, vec!["laptop".to_string()]);
    let d = NodeDetails { ip: String::new(), id: "i-5".to_string() };
    assert_eq!(l.terminate_request(&d).instance_ids, vec!["i-5".to_string()]);
    assert_eq!(l.launch_url(), "https://cloud.lambda.ai/api/v1/instance-operations/launch");
    assert_eq!(l.terminate_url(), "https://cloud.lambda.ai/api/v1/instance-operations/terminate");
    assert_eq!(l.instance_types_url(), "https://cloud.lambda.ai/api/v1/instance-types");
    assert_eq!(l.instance_url("i-5"), "https://cloud.lambda.ai/api/v1/instances/i-5");
    assert_eq!(l.default_user(), "ubuntu");
}

#[test]
fn catalogue_keeps_types_with_capacity() {
    let offers = vec![
        InstanceTypeOffer { name: "a".to_string(), regions_with_capacity: 0 },
        InstanceTypeOffer { name: "b".to_string(), regions_with_capacity: 2 },
        InstanceTypeOffer { name: "c".to_string(), regions_with_capacity: 0 },
        InstanceTypeOffer { name: "d".to_string(), regions_with_capacity: 1 },
    ];
    assert_eq!(available_instance_types(&offers), vec!["b".to_string(), "d".to_string()]);
    assert!(available_instance_types(&vec![]).is_empty());
}

fn full_config() -> ProviderConfig {
    ProviderConfig {
        api_key: Some("k".to_string()),
        ssh_key: Some("s".to_string()),
        region: Some("r".to_string()),
    }
}

#[test]
fn provider_handle_needs_known_name_and_credentials() {
    match create_provider_handle("lambda", &full_config()).unwrap() {
        ProviderHandle::Lambda(l) => {
            assert_eq!(l, Lambda::new("k".to_string(), "s".to_string(), "r".to_string()))
        }
    }
    assert_eq!(create_provider_handle("aws", &full_config()).unwrap_err().kind, ErrorKind::Config);
    let mut c = full_config();
    c.region = None;
    assert_eq!(create_provider_handle("lambda", &c).unwrap_err().kind, ErrorKind::Config);
    let mut c = full_config();
    c.api_key = None;
    assert_eq!(create_provider_handle("lambda", &c).unwrap_err().kind, ErrorKind::Config);
    let mut c = full_config();
    c.ssh_key = None;
    assert_eq!(create_provider_handle("lambda", &c).unwrap_err().kind, ErrorKind::Config);
}

#[test]
fn config_lookup_by_provider_name() {
    let mut config = Config::new();
    config.insert("lambda".to_string(), full_config());
    config.insert("other".to_string(), ProviderConfig { api_key: None, ssh_key: None, region: None });
    assert_eq!(config.get_provider("lambda"), Some(&full_config()));
    assert_eq!(config.get_provider("missing"), None);
    assert_eq!(config.provider_names(), vec!["lambda".to_string(), "other".to_string()]);
    let mut replaced = full_config();
    replaced.region = Some("eu".to_string());
    config.insert("lambda".to_string(), replaced);
    assert_eq!(config.get_provider("lambda").unwrap().region.as_deref(), Some("eu"));
    assert_eq!(config.provider_names().len(), 2);
    assert_eq!(parse_config_for_provider(&config, "other").unwrap().api_key, None);
    assert_eq!(parse_config_for_provider(&config, "nope").unwrap_err().kind, ErrorKind::Config);
}
