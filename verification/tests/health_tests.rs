use wakecore::arp::{lookup_mac_address, lookup_mac_in_query_output};
use wakecore::connection::{Connection, ConnectionConfig};
use wakecore::health::{
    classify_http_response, classify_tcp_outcome, effective_url, http_status_is_healthy,
    probe_plan, HealthResult, HealthStatus, ProbePlan, TcpProbeOutcome, PROBE_TIMEOUT_SECS,
};
use wakecore::ident::ConnectionId;
use wakecore::wol::WolError;

#[test]
fn test_http_classification_online() {
    let id = ConnectionId::new(1);
    let r = classify_http_response(id, 200, 42);
    assert_eq!(r.status, HealthStatus::Online);
    assert_eq!(r.latency_ms, Some(42));
    assert!(r.error.is_none());

    let r = classify_http_response(id, 301, 7);
    assert_eq!(r.status, HealthStatus::Online);
    assert_eq!(r.latency_ms, Some(7));
}

#[test]
fn test_http_classification_offline_with_code() {
    let id = ConnectionId::new(1);
    let r = classify_http_response(id, 404, 42);
    assert_eq!(r.status, HealthStatus::Offline);
    assert!(r.latency_ms.is_none());
    assert_eq!(r.error.as_deref(), Some("HTTP 404"));

    let r = classify_http_response(id, 500, 42);
    assert_eq!(r.status, HealthStatus::Offline);
    assert_eq!(r.error.as_deref(), Some("HTTP 500"));
}

#[test]
fn test_http_healthy_ranges() {
    assert!(http_status_is_healthy(200));
    assert!(http_status_is_healthy(204));
    assert!(http_status_is_healthy(399));
    assert!(!http_status_is_healthy(199));
    assert!(!http_status_is_healthy(400));
    assert!(!http_status_is_healthy(404));
    assert!(!http_status_is_healthy(500));
}

#[test]
fn test_tcp_classification() {
    let id = ConnectionId::new(2);
    let r = classify_tcp_outcome(id, TcpProbeOutcome::Connected { latency_ms: 12 });
    assert_eq!(r.status, HealthStatus::Online);
    assert_eq!(r.latency_ms, Some(12));

    let r = classify_tcp_outcome(id, TcpProbeOutcome::NoAddress);
    assert_eq!(r.status, HealthStatus::Offline);
    assert_eq!(r.error.as_deref(), Some("Could not resolve host"));

    let r = classify_tcp_outcome(id, TcpProbeOutcome::TimedOut);
    assert_eq!(r.status, HealthStatus::Offline);
    assert_eq!(r.error.as_deref(), Some("Connection timed out"));

    let r = classify_tcp_outcome(
        id,
        TcpProbeOutcome::ConnectFailed { message: "connection refused".to_string() },
    );
    assert_eq!(r.status, HealthStatus::Offline);
    assert_eq!(r.error.as_deref(), Some("connection refused"));
}

#[test]
fn test_probe_timeout_constant() {
    assert_eq!(PROBE_TIMEOUT_SECS, 5);
}

#[test]
fn test_effective_url() {
    assert_eq!(effective_url("http://x.com/", Some("/health")), "http://x.com/health");
    assert_eq!(effective_url("http://x.com///", Some("/health")), "http://x.com/health");
    assert_eq!(effective_url("http://x.com", Some("/health")), "http://x.com/health");
    assert_eq!(effective_url("http://x.com/", None), "http://x.com/");
    assert_eq!(effective_url("http://x.com", None), "http://x.com");
}

#[test]
fn test_probe_plan_dispatch() {
    let conn = Connection {
        id: ConnectionId::new(3),
        name: "site".to_string(),
        icon: None,
        icon_color: None,
        order: 0,
        config: ConnectionConfig::Website {
            url: "http://x.com/".to_string(),
            check_path: Some("/ping".to_string()),
        },
        created_at: "t".to_string(),
        updated_at: "t".to_string(),
    };
    match probe_plan(&conn) {
        ProbePlan::Http { url } => assert_eq!(url, "http://x.com/ping"),
        _ => panic!("expected an http probe"),
    }

    let mut conn = conn;
    conn.config = ConnectionConfig::Ssh {
        host: "box.local".to_string(),
        port: 2222,
        username: "u".to_string(),
        wol_enabled: false,
        mac_address: None,
        broadcast_addr: None,
    };
    match probe_plan(&conn) {
        ProbePlan::Tcp { host, port } => {
            assert_eq!(host, "box.local");
            assert_eq!(port, 2222);
        },
        _ => panic!("expected a tcp probe"),
    }
}

#[test]
fn test_health_result_constructors() {
    let id = ConnectionId::new(4);
    let r = HealthResult::online(id, 3);
    assert_eq!(r.status, HealthStatus::Online);
    assert_eq!(r.latency_ms, Some(3));
    assert!(r.error.is_none());
    assert!(!r.checked_at.is_empty());

    let r = HealthResult::offline(id, Some("boom".to_string()));
    assert_eq!(r.status, HealthStatus::Offline);
    assert!(r.latency_ms.is_none());
    assert_eq!(r.error.as_deref(), Some("boom"));

    let r = HealthResult::unknown(id);
    assert_eq!(r.status, HealthStatus::Unknown);
    assert!(r.latency_ms.is_none());
    assert!(r.error.is_none());
}

#[test]
fn test_arp_table_lookup() {
    let table = "IP address       HW type     Flags       HW address            Mask     Device\n\
                 192.168.1.10     0x1         0x2         aa:bb:cc:dd:ee:ff     *        eth0\n\
                 192.168.1.11     0x1         0x0         00:00:00:00:00:00     *        eth0\n";
    assert_eq!(lookup_mac_address("192.168.1.10", table).unwrap(), "AA:BB:CC:DD:EE:FF");
    assert_eq!(
        lookup_mac_address("192.168.1.11", table).unwrap_err(),
        WolError::MacNotFound
    );
    assert_eq!(
        lookup_mac_address("10.0.0.1", table).unwrap_err(),
        WolError::MacNotFound
    );
}

#[test]
fn test_arp_query_output_lookup() {
    let output = "? (192.168.1.10) at aa:bb:cc:dd:ee:ff on en0 ifscope [ethernet]\n";
    assert_eq!(
        lookup_mac_in_query_output("192.168.1.10", output).unwrap(),
        "AA:BB:CC:DD:EE:FF"
    );
    assert_eq!(
        lookup_mac_in_query_output("192.168.1.99", output).unwrap_err(),
        WolError::MacNotFound
    );
    let no_mac = "? (192.168.1.10) -- no entry\n";
    assert_eq!(
        lookup_mac_in_query_output("192.168.1.10", no_mac).unwrap_err(),
        WolError::MacNotFound
    );
}
