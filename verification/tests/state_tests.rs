use kino::config::{PortProtocol, ProbeConfig, ProbeKindConfig};
use kino::kino_v1::SnapshotValue;
use kino::probe::{build_probe, FileExistsValue, ProbeDefinition, ProbeStatus, ProbeValue};
use kino::state::{
    duration_millis_u64, probe_kind_to_proto, probe_status_to_proto, unix_time_ms, ProbeStore,
    ProbeUpdate,
};
use kino::probe::ProbeKind;
use std::time::Duration;

#[test]
fn duration_conversion_saturates() {
    let huge = Duration::MAX;
    let value = duration_millis_u64(huge.as_secs(), huge.subsec_nanos());
    assert_eq!(value, u64::MAX);
}

#[test]
fn duration_conversion_counts_whole_milliseconds() {
    let d = Duration::new(3, 2_999_999);
    assert_eq!(duration_millis_u64(d.as_secs(), d.subsec_nanos()), 3002);
    assert_eq!(unix_time_ms(None), 0);
    assert_eq!(unix_time_ms(Some((1_700_000_000, 500_000_000))), 1_700_000_000_500);
}

#[test]
fn proto_codes_follow_the_wire_format() {
    assert_eq!(probe_kind_to_proto(ProbeKind::FileExists), 1);
    assert_eq!(probe_kind_to_proto(ProbeKind::FileRegexCapture), 2);
    assert_eq!(probe_kind_to_proto(ProbeKind::PortOpen), 3);
    assert_eq!(probe_kind_to_proto(ProbeKind::K8sPodState), 4);
    assert_eq!(probe_kind_to_proto(ProbeKind::CommandJsonPath), 5);
    assert_eq!(probe_status_to_proto(ProbeStatus::Unknown), 0);
    assert_eq!(probe_status_to_proto(ProbeStatus::Pass), 1);
    assert_eq!(probe_status_to_proto(ProbeStatus::Fail), 2);
}

fn definition(id: &str, kind: ProbeKindConfig) -> ProbeDefinition {
    let config = ProbeConfig { id: id.to_owned(), every_seconds: 5, timeout_seconds: 2, kind };
    match build_probe(&config) {
        Ok(def) => def,
        Err(_) => panic!("probe should build"),
    }
}

fn store() -> ProbeStore {
    let probes = vec![
        definition("ssh", ProbeKindConfig::PortOpen { host: "127.0.0.1".to_owned(), port: 22, protocol: PortProtocol::Tcp }),
        definition("hosts", ProbeKindConfig::FileExists { path: "/etc/hosts".to_owned() }),
    ];
    ProbeStore::new(&probes)
}

#[test]
fn snapshot_lists_probes_by_id_as_unknown() {
    let snapshot = store().snapshot_proto(42);
    assert_eq!(snapshot.generated_at_unix_ms, 42);
    let ids: Vec<&str> = snapshot.probes.iter().map(|p| p.id.as_str()).collect();
    assert_eq!(ids, vec!["hosts", "ssh"]);
    for probe in &snapshot.probes {
        assert_eq!(probe.status, 0);
        assert_eq!(probe.last_attempt_unix_ms, 0);
        assert_eq!(probe.last_success_unix_ms, 0);
        assert_eq!(probe.error, "");
        assert_eq!(probe.every_seconds, 5);
    }
    assert_eq!(snapshot.probes[1].kind, 3);
    match &snapshot.probes[1].value {
        Some(SnapshotValue::PortOpen(value)) => {
            assert_eq!(value.port, 22);
            assert_eq!(value.protocol, "tcp");
            assert!(!value.open);
        }
        other => panic!("unexpected value: {other:?}"),
    }
}

#[test]
fn updates_are_reported_and_success_time_only_moves_on_pass() {
    let mut store = store();
    store.apply_update(
        "hosts",
        ProbeUpdate {
            status: ProbeStatus::Pass,
            value: Some(ProbeValue::FileExists(FileExistsValue { path: "/etc/hosts".to_owned(), exists: true })),
            error: None,
            attempted_at_unix_ms: 1000,
            duration_ms: 3,
        },
    );
    store.apply_update(
        "hosts",
        ProbeUpdate {
            status: ProbeStatus::Fail,
            value: None,
            error: Some("probe execution timed out after 2s".to_owned()),
            attempted_at_unix_ms: 2000,
            duration_ms: 2000,
        },
    );
    store.apply_update(
        "absent",
        ProbeUpdate { status: ProbeStatus::Pass, value: None, error: None, attempted_at_unix_ms: 3000, duration_ms: 1 },
    );
    let snapshot = store.snapshot_proto(5000);
    assert_eq!(snapshot.probes.len(), 2);
    let hosts = &snapshot.probes[0];
    assert_eq!(hosts.id, "hosts");
    assert_eq!(hosts.status, 2);
    assert_eq!(hosts.last_attempt_unix_ms, 2000);
    assert_eq!(hosts.last_success_unix_ms, 1000);
    assert_eq!(hosts.last_duration_ms, 2000);
    assert_eq!(hosts.error, "probe execution timed out after 2s");
    match &hosts.value {
        Some(SnapshotValue::FileExists(value)) => assert!(value.exists),
        other => panic!("unexpected value: {other:?}"),
    }
    assert_eq!(snapshot.probes[1].status, 0);
}

#[test]
fn later_probe_with_same_id_wins() {
    let probes = vec![
        definition("dup", ProbeKindConfig::FileExists { path: "/first".to_owned() }),
        definition("dup", ProbeKindConfig::FileExists { path: "/second".to_owned() }),
    ];
    let snapshot = ProbeStore::new(&probes).snapshot_proto(0);
    assert_eq!(snapshot.probes.len(), 1);
    match &snapshot.probes[0].value {
        Some(SnapshotValue::FileExists(value)) => assert_eq!(value.path, "/second"),
        other => panic!("unexpected value: {other:?}"),
    }
}
