use kino::config::{
    config_from_raw, parse_server_bind_uri, AppConfig, ConfigError, ConfigIssue, DefaultField,
    DesiredPodState, DesiredPodStateParseError, PodCondition, PodPhase, PortProtocol,
    ProbeKindConfig, RawConfig, RawDefaults, RawProbe, RawProbes, RawRecording, RawServer,
    ServerBind,
};
use kino::net::IpAddress;
use kino::text::IntErrorKind;

fn raw_with_bind(bind: &str) -> RawConfig {
    RawConfig {
        server: RawServer { bind: bind.to_owned() },
        defaults: None,
        recording: None,
        probe: RawProbes::new(),
    }
}

fn probes_of(blocks: Vec<(String, RawProbe)>) -> RawProbes {
    let mut probes = RawProbes::new();
    for (id, probe) in blocks {
        probes.insert(id, probe);
    }
    probes
}

fn load(raw: &RawConfig) -> AppConfig {
    match config_from_raw(raw) {
        Ok(value) => value,
        Err(error) => panic!("failed to parse config: {error:?}"),
    }
}

#[test]
fn parses_probe_blocks_from_hcl() {
    let raw = RawConfig {
        server: RawServer { bind: "tcp://127.0.0.1:9000".to_owned() },
        defaults: Some(RawDefaults {
            every_seconds: Some(5),
            timeout_seconds: Some(2),
            kubeconfig: Some("/tmp/kubeconfig".to_owned()),
            kube_context: None,
        }),
        recording: Some(RawRecording {
            output_dir: "/tmp/kino-recordings".to_owned(),
            real_shell: Some("/bin/sh".to_owned()),
        }),
        probe: probes_of(vec![
            (
                "hosts".to_owned(),
                RawProbe::FileExists {
                    path: "/etc/hosts".to_owned(),
                    every_seconds: None,
                    timeout_seconds: None,
                },
            ),
            (
                "ssh".to_owned(),
                RawProbe::PortOpen {
                    host: "127.0.0.1".to_owned(),
                    port: 22,
                    protocol: PortProtocol::Tcp,
                    every_seconds: None,
                    timeout_seconds: None,
                },
            ),
        ]),
    };
    let config = load(&raw);
    match config.server_bind {
        ServerBind::Tcp(addr) => assert_eq!(addr.port, 9000),
        ServerBind::Unix(path) => panic!("unexpected unix socket binding: {}", path),
        ServerBind::Vsock { cid, port } => {
            panic!("unexpected vsock binding: cid={cid}, port={port}")
        }
    }
    assert_eq!(
        config.recording.as_ref().map(|recording| recording.output_dir.as_str()),
        Some("/tmp/kino-recordings")
    );
    assert_eq!(
        config.recording.as_ref().map(|recording| recording.real_shell.as_str()),
        Some("/bin/sh")
    );
    assert_eq!(config.probes.len(), 2);
    assert_eq!(config.probes[0].id, "hosts");
    assert_eq!(config.probes[0].every_seconds, 5);
    assert_eq!(config.probes[0].timeout_seconds, 2);
    assert_eq!(config.probes[1].id, "ssh");
}

#[test]
fn parses_unix_socket_server_binding() {
    let socket_path = "/tmp/kino-test-dir/kino.sock";
    let config = load(&raw_with_bind(&format!("unix://{}", socket_path)));
    match config.server_bind {
        ServerBind::Unix(path) => assert_eq!(path, socket_path),
        ServerBind::Tcp(addr) => panic!("unexpected tcp binding: {addr:?}"),
        ServerBind::Vsock { cid, port } => {
            panic!("unexpected vsock binding: cid={cid}, port={port}")
        }
    }
}

#[test]
fn parses_vsock_server_binding() {
    let config = load(&raw_with_bind("vsock://3:8080"));
    match config.server_bind {
        ServerBind::Vsock { cid, port } => {
            assert_eq!(cid, 3);
            assert_eq!(port, 8080);
        }
        ServerBind::Tcp(addr) => panic!("unexpected tcp binding: {addr:?}"),
        ServerBind::Unix(path) => panic!("unexpected unix binding: {}", path),
    }
}

#[test]
fn rejects_invalid_desired_state_values() {
    let parsed = DesiredPodState::from_str("condition:NotARealState");
    assert!(parsed.is_err());
}

#[test]
fn recording_defaults_real_shell() {
    let mut raw = raw_with_bind("tcp://127.0.0.1:9000");
    raw.recording = Some(RawRecording {
        output_dir: "/tmp/kino-recordings".to_owned(),
        real_shell: None,
    });
    let config = load(&raw);
    assert_eq!(
        config.recording.as_ref().map(|recording| recording.real_shell.as_str()),
        Some("/bin/bash")
    );
}

#[test]
fn rejects_relative_recording_output_dir() {
    let mut raw = raw_with_bind("tcp://127.0.0.1:9000");
    raw.recording = Some(RawRecording {
        output_dir: "relative-recordings".to_owned(),
        real_shell: None,
    });
    let loaded = config_from_raw(&raw);
    assert!(loaded.is_err());
    assert_eq!(
        loaded.err(),
        Some(ConfigError::Validation {
            issue: ConfigIssue::RecordingOutputDirNotAbsolute {
                output_dir: "relative-recordings".to_owned()
            }
        })
    );
}

#[test]
fn rejects_empty_recording_shell() {
    let mut raw = raw_with_bind("tcp://127.0.0.1:9000");
    raw.recording = Some(RawRecording {
        output_dir: "/tmp/kino-recordings".to_owned(),
        real_shell: Some(String::new()),
    });
    assert_eq!(
        config_from_raw(&raw).err(),
        Some(ConfigError::Validation { issue: ConfigIssue::RecordingShellEmpty })
    );
}

#[test]
fn parses_tcp_ipv4_and_ipv6_bindings() {
    match parse_server_bind_uri("tcp://127.0.0.1:9000") {
        Ok(ServerBind::Tcp(addr)) => {
            assert_eq!(addr.ip, IpAddress::V4(127, 0, 0, 1));
            assert_eq!(addr.port, 9000);
        }
        other => panic!("unexpected: {other:?}"),
    }
    match parse_server_bind_uri("tcp://[::1]:8443") {
        Ok(ServerBind::Tcp(addr)) => {
            assert_eq!(addr.ip, IpAddress::V6(0, 0, 0, 0, 0, 0, 0, 1));
            assert_eq!(addr.port, 8443);
        }
        other => panic!("unexpected: {other:?}"),
    }
}

#[test]
fn rejects_malformed_server_bindings() {
    let issue = |value: &str| match parse_server_bind_uri(value) {
        Err(ConfigError::Validation { issue }) => issue,
        other => panic!("unexpected: {other:?}"),
    };
    assert_eq!(
        issue("127.0.0.1:9000"),
        ConfigIssue::BindMissingScheme { value: "127.0.0.1:9000".to_owned() }
    );
    assert_eq!(
        issue("tcp://localhost"),
        ConfigIssue::BindInvalidTcpAddress {
            value: "tcp://localhost".to_owned(),
            address: "localhost".to_owned()
        }
    );
    assert_eq!(
        issue("unix://relative.sock"),
        ConfigIssue::BindInvalidUnixPath { value: "unix://relative.sock".to_owned() }
    );
    assert_eq!(
        issue("unix://"),
        ConfigIssue::BindInvalidUnixPath { value: "unix://".to_owned() }
    );
    assert_eq!(
        issue("vsock://3"),
        ConfigIssue::BindInvalidVsockFormat { value: "vsock://3".to_owned() }
    );
    assert_eq!(
        issue("vsock://x:1"),
        ConfigIssue::BindInvalidVsockCid {
            value: "vsock://x:1".to_owned(),
            cid: "x".to_owned(),
            reason: IntErrorKind::InvalidDigit
        }
    );
    assert_eq!(
        issue("vsock://3:"),
        ConfigIssue::BindInvalidVsockPort {
            value: "vsock://3:".to_owned(),
            port: String::new(),
            reason: IntErrorKind::Empty
        }
    );
    assert_eq!(
        issue("vsock://3:4294967296"),
        ConfigIssue::BindInvalidVsockPort {
            value: "vsock://3:4294967296".to_owned(),
            port: "4294967296".to_owned(),
            reason: IntErrorKind::PosOverflow
        }
    );
    assert_eq!(
        issue("http://127.0.0.1:80"),
        ConfigIssue::BindUnsupportedScheme {
            value: "http://127.0.0.1:80".to_owned(),
            scheme: "http".to_owned()
        }
    );
}

#[test]
fn vsock_binding_accepts_plus_sign_and_max_values() {
    match parse_server_bind_uri("vsock://+4294967295:0") {
        Ok(ServerBind::Vsock { cid, port }) => {
            assert_eq!(cid, u32::MAX);
            assert_eq!(port, 0);
        }
        other => panic!("unexpected: {other:?}"),
    }
}

#[test]
fn defaults_apply_when_absent_and_zero_is_refused() {
    let mut raw = raw_with_bind("vsock://3:8080");
    raw.probe = probes_of(vec![(
        "hosts".to_owned(),
        RawProbe::FileExists { path: "/etc/hosts".to_owned(), every_seconds: None, timeout_seconds: Some(7) },
    )]);
    let config = load(&raw);
    assert_eq!(config.probes[0].every_seconds, 5);
    assert_eq!(config.probes[0].timeout_seconds, 7);

    raw.defaults = Some(RawDefaults {
        every_seconds: Some(0),
        timeout_seconds: None,
        kubeconfig: None,
        kube_context: None,
    });
    assert_eq!(
        config_from_raw(&raw).err(),
        Some(ConfigError::Validation {
            issue: ConfigIssue::DefaultNotPositive { field: DefaultField::EverySeconds }
        })
    );

    raw.defaults = None;
    raw.probe = probes_of(vec![(
        "hosts".to_owned(),
        RawProbe::FileExists { path: "/etc/hosts".to_owned(), every_seconds: None, timeout_seconds: Some(0) },
    )]);
    assert_eq!(
        config_from_raw(&raw).err(),
        Some(ConfigError::Validation {
            issue: ConfigIssue::ProbeTimeoutZero { probe_id: "hosts".to_owned() }
        })
    );
}

#[test]
fn k8s_probe_resolves_kubeconfig_and_desired_state() {
    let mut raw = raw_with_bind("vsock://3:8080");
    raw.defaults = Some(RawDefaults {
        every_seconds: None,
        timeout_seconds: None,
        kubeconfig: Some("/etc/kube/config".to_owned()),
        kube_context: Some("dev".to_owned()),
    });
    raw.probe = probes_of(vec![(
        "api".to_owned(),
        RawProbe::K8sPodState {
            namespace: "default".to_owned(),
            selector: "app=api".to_owned(),
            desired_state: "condition:Ready".to_owned(),
            kubeconfig: None,
            kube_context: None,
            every_seconds: None,
            timeout_seconds: None,
        },
    )]);
    let config = load(&raw);
    assert_eq!(
        config.probes[0].kind,
        ProbeKindConfig::K8sPodState {
            namespace: "default".to_owned(),
            selector: "app=api".to_owned(),
            desired_state: DesiredPodState::Condition(PodCondition::Ready),
            kubeconfig: "/etc/kube/config".to_owned(),
            kube_context: Some("dev".to_owned()),
        }
    );

    raw.defaults = None;
    assert_eq!(
        config_from_raw(&raw).err(),
        Some(ConfigError::Validation {
            issue: ConfigIssue::ProbeKubeconfigMissing { probe_id: "api".to_owned() }
        })
    );
}

#[test]
fn desired_state_errors_name_the_problem() {
    assert_eq!(
        DesiredPodState::from_str("Running"),
        Err(DesiredPodStateParseError::MissingPrefix { value: "Running".to_owned() })
    );
    assert_eq!(
        DesiredPodState::from_str("state:Running"),
        Err(DesiredPodStateParseError::UnknownPrefix {
            prefix: "state".to_owned(),
            value: "state:Running".to_owned()
        })
    );
    assert_eq!(
        DesiredPodState::from_str("phase:Sleeping"),
        Err(DesiredPodStateParseError::UnknownPhase { value: "Sleeping".to_owned() })
    );
    assert_eq!(
        DesiredPodState::from_str("condition:NotARealState"),
        Err(DesiredPodStateParseError::UnknownCondition { value: "NotARealState".to_owned() })
    );
}

#[test]
fn desired_state_text_round_trips() {
    let states = [
        DesiredPodState::Phase(PodPhase::Pending),
        DesiredPodState::Phase(PodPhase::Running),
        DesiredPodState::Phase(PodPhase::Succeeded),
        DesiredPodState::Phase(PodPhase::Failed),
        DesiredPodState::Phase(PodPhase::Unknown),
        DesiredPodState::Condition(PodCondition::Ready),
        DesiredPodState::Condition(PodCondition::ContainersReady),
        DesiredPodState::Condition(PodCondition::Initialized),
        DesiredPodState::Condition(PodCondition::PodScheduled),
    ];
    for state in states {
        assert_eq!(DesiredPodState::from_str(state.as_str()), Ok(state));
    }
    assert_eq!(DesiredPodState::Phase(PodPhase::Running).as_str(), "phase:Running");
    assert_eq!(DesiredPodState::Condition(PodCondition::Ready).as_str(), "condition:Ready");
}

#[test]
fn probe_blocks_are_kept_by_id_in_ascending_order() {
    let mut probes = RawProbes::new();
    for id in ["zeta", "alpha", "mid", "alpha"] {
        probes.insert(
            id.to_owned(),
            RawProbe::FileExists {
                path: format!("/{id}"),
                every_seconds: if id == "alpha" && probes.len() > 1 { Some(9) } else { None },
                timeout_seconds: None,
            },
        );
    }
    assert_eq!(probes.len(), 3);
    let mut raw = raw_with_bind("vsock://3:8080");
    raw.probe = probes;
    let config = load(&raw);
    let ids: Vec<&str> = config.probes.iter().map(|p| p.id.as_str()).collect();
    assert_eq!(ids, vec!["alpha", "mid", "zeta"]);
    assert_eq!(config.probes[0].every_seconds, 9);
}

#[test]
fn config_errors_render_their_messages() {
    let refused = config_from_raw(&raw_with_bind("vsock://x:1")).err().unwrap();
    assert_eq!(
        refused.message(),
        "invalid config: server.bind 'vsock://x:1' has invalid vsock cid 'x': invalid digit found in string"
    );
    let missing = config_from_raw(&raw_with_bind("127.0.0.1:9000")).err().unwrap();
    assert_eq!(
        missing.message(),
        "invalid config: server.bind '127.0.0.1:9000' must use one of: tcp://<ip:port>, unix://<absolute-path>, vsock://<cid>:<port>"
    );
    let parse = ConfigError::ParseHcl { message: "oops".to_owned() };
    assert_eq!(parse.message(), "failed to parse HCL config: oops");
    let state = DesiredPodStateParseError::UnknownPrefix {
        prefix: "status".to_owned(),
        value: "status:Ready".to_owned(),
    };
    assert_eq!(state.message(), "desired_state 'status:Ready' uses unknown prefix 'status'");
}
