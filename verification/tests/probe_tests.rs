use kino::config::{
    DesiredPodState, PodCondition, PodPhase, PortProtocol, ProbeConfig, ProbeKindConfig,
};
use kino::probe::{
    build_probe, capture_outcome, pod_matches_condition, pod_matches_phase, FileExistsProbe,
    FileLookup, FileRegexCaptureProbe, K8sPodStateProbe, PodConditionInfo, PodInfo,
    PortOpenProbe, ProbeBuildError, ProbeKind, ProbeStatus, ProbeValue,
};
use std::io::{Read, Write};

#[test]
fn regex_probe_captures_multiline_content() {
    let temp = tempfile::NamedTempFile::new();
    assert!(temp.is_ok());
    let mut file = match temp {
        Ok(value) => value,
        Err(error) => panic!("failed to create tempdir: {error}"),
    };
    let file_path = file.path().to_path_buf();
    let write_result = file.write_all(b"first line\nvalue=abc123\nthird line\n");
    assert!(write_result.is_ok());

    let compiled = FileRegexCaptureProbe::new(
        file_path.to_string_lossy().into_owned(),
        r"value=(\w+)".to_owned(),
    );
    assert!(compiled.is_ok());
    let probe = match compiled {
        Ok(value) => value,
        Err(error) => panic!("failed to compile regex: {error}"),
    };

    let read = file.reopen().and_then(|mut f| {
        let mut bytes = Vec::new();
        f.read_to_end(&mut bytes).map(|_| bytes)
    });
    let read = read.map_err(|error| error.to_string());
    let result = probe.observe(read);
    assert_eq!(result.status, ProbeStatus::Pass);

    match result.value {
        ProbeValue::FileRegexCapture(value) => {
            assert!(value.matched);
            assert_eq!(value.full_match, "value=abc123");
            assert_eq!(value.captures, vec!["abc123".to_owned()]);
            assert!(value.file_content.contains("first line"));
        }
        _ => panic!("unexpected probe value type"),
    }
}

#[test]
fn regex_probe_reports_no_match_and_read_errors() {
    let probe =
        FileRegexCaptureProbe::new("/etc/app.conf".to_owned(), r"missing=(\d+)".to_owned()).unwrap();
    let result = probe.observe(Ok(b"value=1\n".to_vec()));
    assert_eq!(result.status, ProbeStatus::Fail);
    assert_eq!(result.error, None);
    match result.value {
        ProbeValue::FileRegexCapture(value) => {
            assert!(!value.matched);
            assert_eq!(value.full_match, "");
            assert!(value.captures.is_empty());
            assert_eq!(value.file_content, "value=1\n");
        }
        _ => panic!("unexpected probe value type"),
    }

    let failed = probe.observe(Err("No such file or directory (os error 2)".to_owned()));
    assert_eq!(failed.status, ProbeStatus::Fail);
    assert_eq!(failed.error.as_deref(), Some("No such file or directory (os error 2)"));
    match failed.value {
        ProbeValue::FileRegexCapture(value) => assert_eq!(value.file_content, ""),
        _ => panic!("unexpected probe value type"),
    }
}

#[test]
fn regex_probe_decodes_invalid_utf8_lossily() {
    let probe = FileRegexCaptureProbe::new("/data".to_owned(), "b".to_owned()).unwrap();
    let result = probe.observe(Ok(vec![b'a', 0xff, b'b']));
    match result.value {
        ProbeValue::FileRegexCapture(value) => {
            assert_eq!(value.file_content, "a\u{FFFD}b");
            assert_eq!(value.full_match, "b");
        }
        _ => panic!("unexpected probe value type"),
    }
}

#[test]
fn capture_outcome_maps_missing_groups_to_empty_text() {
    let result = capture_outcome(
        "/f",
        "p",
        "abc".to_owned(),
        Some(vec![Some("ab".to_owned()), None, Some("b".to_owned())]),
    );
    match result.value {
        ProbeValue::FileRegexCapture(value) => {
            assert_eq!(value.full_match, "ab");
            assert_eq!(value.captures, vec![String::new(), "b".to_owned()]);
        }
        _ => panic!("unexpected probe value type"),
    }
}

#[test]
fn tcp_port_probe_passes_when_connect_succeeds() {
    let probe = PortOpenProbe { host: "127.0.0.1".to_owned(), port: 40123, protocol: PortProtocol::Tcp };
    let result = probe.tcp_outcome(Ok(()));
    assert_eq!(result.status, ProbeStatus::Pass);
    assert_eq!(result.error, None);
    match result.value {
        ProbeValue::PortOpen(value) => {
            assert!(value.open);
            assert_eq!(value.port, 40123);
            assert_eq!(value.host, "127.0.0.1");
            assert_eq!(value.detail, "TCP connect succeeded");
        }
        _ => panic!("unexpected probe value type"),
    }
}

#[test]
fn port_probe_reports_failures_and_udp_details() {
    let probe = PortOpenProbe { host: "::1".to_owned(), port: 53, protocol: PortProtocol::Udp };
    assert_eq!(probe.udp_bind_address(), "[::]:0");
    let v4 = PortOpenProbe { host: "10.0.0.1".to_owned(), port: 53, protocol: PortProtocol::Udp };
    assert_eq!(v4.udp_bind_address(), "0.0.0.0:0");

    let sent = probe.udp_outcome(Ok(4));
    assert_eq!(sent.status, ProbeStatus::Pass);
    match sent.value {
        ProbeValue::PortOpen(value) => {
            assert!(value.open);
            assert_eq!(value.detail, "UDP datagram send succeeded (4 bytes)");
        }
        _ => panic!("unexpected probe value type"),
    }

    let refused = probe.tcp_outcome(Err("connection refused".to_owned()));
    assert_eq!(refused.status, ProbeStatus::Fail);
    assert_eq!(refused.error.as_deref(), Some("connection refused"));
    match refused.value {
        ProbeValue::PortOpen(value) => {
            assert!(!value.open);
            assert_eq!(value.detail, "");
        }
        _ => panic!("unexpected probe value type"),
    }
}

#[test]
fn file_exists_probe_reports_lookup() {
    let probe = FileExistsProbe { path: "/etc/hosts".to_owned() };
    let found = probe.observe(FileLookup::Found);
    assert_eq!(found.status, ProbeStatus::Pass);
    assert_eq!(found.error, None);
    let missing = probe.observe(FileLookup::NotFound);
    assert_eq!(missing.status, ProbeStatus::Fail);
    assert_eq!(missing.error, None);
    let failed = probe.observe(FileLookup::Failed("permission denied".to_owned()));
    assert_eq!(failed.status, ProbeStatus::Fail);
    assert_eq!(failed.error.as_deref(), Some("permission denied"));
    match failed.value {
        ProbeValue::FileExists(value) => {
            assert_eq!(value.path, "/etc/hosts");
            assert!(!value.exists);
        }
        _ => panic!("unexpected probe value type"),
    }
}

fn pod(name: Option<&str>, phase: Option<&str>, conditions: Option<Vec<(&str, &str)>>) -> PodInfo {
    PodInfo {
        name: name.map(str::to_owned),
        phase: phase.map(str::to_owned),
        conditions: conditions.map(|cs| {
            cs.into_iter()
                .map(|(t, s)| PodConditionInfo { type_: t.to_owned(), status: s.to_owned() })
                .collect()
        }),
    }
}

#[test]
fn phase_match_uses_pod_status_phase() {
    let pod = pod(Some("api-0"), Some("Running"), None);

    assert!(pod_matches_phase(PodPhase::Running, &pod));
    assert!(!pod_matches_phase(PodPhase::Succeeded, &pod));
}

#[test]
fn condition_match_checks_true_condition() {
    let pod = pod(Some("api-0"), None, Some(vec![("Ready", "True")]));

    assert!(pod_matches_condition(PodCondition::Ready, &pod));
    assert!(!pod_matches_condition(PodCondition::Initialized, &pod));
}

#[test]
fn k8s_probe_counts_pods_and_names_matching_ones() {
    let probe = K8sPodStateProbe {
        namespace: "default".to_owned(),
        selector: "app=api".to_owned(),
        desired_state: DesiredPodState::Condition(PodCondition::Ready),
    };
    let pods = vec![
        pod(Some("api-0"), Some("Running"), Some(vec![("Ready", "True")])),
        pod(Some("api-1"), Some("Running"), Some(vec![("Ready", "False")])),
        pod(None, Some("Running"), Some(vec![("Initialized", "True"), ("Ready", "True")])),
    ];
    let result = probe.observe(Ok(pods));
    assert_eq!(result.status, ProbeStatus::Pass);
    match result.value {
        ProbeValue::K8sPodState(value) => {
            assert_eq!(value.matched_pods, 3);
            assert_eq!(
                value.matching_pod_names,
                vec!["api-0".to_owned(), "<unknown-pod-name>".to_owned()]
            );
            assert!(value.state_satisfied);
            assert_eq!(value.desired_state, "condition:Ready");
        }
        _ => panic!("unexpected probe value type"),
    }

    let none = probe.observe(Ok(vec![pod(Some("api-1"), None, None)]));
    assert_eq!(none.status, ProbeStatus::Fail);

    let failed = probe.observe(Err("forbidden".to_owned()));
    assert_eq!(failed.status, ProbeStatus::Fail);
    assert_eq!(failed.error.as_deref(), Some("forbidden"));
}

#[test]
fn build_probe_compiles_patterns_and_reports_bad_ones() {
    let good = ProbeConfig {
        id: "conf".to_owned(),
        every_seconds: 5,
        timeout_seconds: 2,
        kind: ProbeKindConfig::FileRegexCapture { path: "/etc/conf".to_owned(), pattern: "a(b)".to_owned() },
    };
    match build_probe(&good) {
        Ok(def) => {
            assert_eq!(def.id(), "conf");
            assert_eq!(def.kind(), ProbeKind::FileRegexCapture);
            assert_eq!(def.every_seconds(), 5);
            assert_eq!(def.timeout_seconds(), 2);
            match def.initial_value() {
                ProbeValue::FileRegexCapture(value) => {
                    assert!(!value.matched);
                    assert_eq!(value.pattern, "a(b)");
                }
                _ => panic!("unexpected probe value type"),
            }
        }
        Err(_) => panic!("pattern should compile"),
    }
    let bad = ProbeConfig {
        id: "broken".to_owned(),
        every_seconds: 5,
        timeout_seconds: 2,
        kind: ProbeKindConfig::FileRegexCapture { path: "/etc/conf".to_owned(), pattern: "a(b".to_owned() },
    };
    match build_probe(&bad) {
        Err(ProbeBuildError::InvalidRegex { probe_id, pattern, .. }) => {
            assert_eq!(probe_id, "broken");
            assert_eq!(pattern, "a(b");
        }
        Ok(_) => panic!("pattern should not compile"),
    }
}

#[test]
fn udp_probe_sends_kino_to_its_target() {
    let probe = PortOpenProbe { host: "10.0.0.5".to_owned(), port: 5353, protocol: PortProtocol::Udp };
    assert_eq!(probe.udp_payload(), b"kino".to_vec());
    assert_eq!(probe.target(), ("10.0.0.5", 5353));
}

#[test]
fn regex_probe_refuses_an_invalid_pattern() {
    assert!(FileRegexCaptureProbe::new("/f".to_owned(), "(unclosed".to_owned()).is_err());
}
