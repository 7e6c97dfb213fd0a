//! The service configuration: the raw configuration as read from HCL, the
//! validated configuration, and the rules that turn one into the other.
use vstd::prelude::*;
use crate::net::{SocketAddress, parse_socket_addr, socket_addr_from_str};
use crate::order::{
    Comparison, compare_text, lemma_text_less_asymmetric, lemma_text_less_irreflexive,
    lemma_text_less_total, lemma_text_less_transitive, text_less,
};
use crate::text::{
    IntErrorKind, chars_eq_str, chars_of, decimal, lemma_decimal_digits, lemma_parse_decimal,
    lemma_split_once_concat, occurs_at, owned, parse_u32, parse_u32_spec, split_once,
    split_once_chars, string_from_chars,
};

verus! {

// ---------------------------------------------------------------------------
// Small helpers over views
// ---------------------------------------------------------------------------

pub open spec fn opt_str(o: Option<String>) -> Option<Seq<char>> {
    match o {
        Some(s) => Some(s@),
        None => None,
    }
}

fn clone_opt(o: &Option<String>) -> (res: Option<String>)
    ensures
        opt_str(res) == opt_str(*o),
{
    match o {
        Some(s) => Some(s.clone()),
        None => None,
    }
}

/// A path is absolute when it starts at the root (`Path::is_absolute` on Unix).
pub open spec fn is_absolute_path(p: Seq<char>) -> bool {
    p.len() > 0 && p[0] == '/'
}

/// Does the path start at the root?
pub fn path_is_absolute(p: &[char]) -> (res: bool)
    ensures
        res == is_absolute_path(p@),
{
    p.len() > 0 && p[0] == '/'
}

// ---------------------------------------------------------------------------
// Desired pod state
// ---------------------------------------------------------------------------

#[derive(Debug, Clone, Copy, PartialEq, Eq, Structural)]
pub enum PortProtocol {
    Tcp,
    Udp,
}

#[derive(Debug, Clone, Copy, PartialEq, Eq, Structural)]
pub enum PodPhase {
    Pending,
    Running,
    Succeeded,
    Failed,
    Unknown,
}

#[derive(Debug, Clone, Copy, PartialEq, Eq, Structural)]
pub enum PodCondition {
    Ready,
    ContainersReady,
    Initialized,
    PodScheduled,
}

#[derive(Debug, Clone, Copy, PartialEq, Eq, Structural)]
pub enum DesiredPodState {
    Phase(PodPhase),
    Condition(PodCondition),
}

/// Why a `desired_state` text was refused.
#[derive(Debug, Clone, PartialEq, Eq)]
pub enum DesiredPodStateParseError {
    MissingPrefix { value: String },
    UnknownPrefix { prefix: String, value: String },
    UnknownPhase { value: String },
    UnknownCondition { value: String },
}

pub enum DesiredPodStateParseErrorView {
    MissingPrefix { value: Seq<char> },
    UnknownPrefix { prefix: Seq<char>, value: Seq<char> },
    UnknownPhase { value: Seq<char> },
    UnknownCondition { value: Seq<char> },
}

impl View for DesiredPodStateParseError {
    type V = DesiredPodStateParseErrorView;

    open spec fn view(&self) -> DesiredPodStateParseErrorView {
        match self {
            DesiredPodStateParseError::MissingPrefix { value } =>
                DesiredPodStateParseErrorView::MissingPrefix { value: value@ },
            DesiredPodStateParseError::UnknownPrefix { prefix, value } =>
                DesiredPodStateParseErrorView::UnknownPrefix { prefix: prefix@, value: value@ },
            DesiredPodStateParseError::UnknownPhase { value } =>
                DesiredPodStateParseErrorView::UnknownPhase { value: value@ },
            DesiredPodStateParseError::UnknownCondition { value } =>
                DesiredPodStateParseErrorView::UnknownCondition { value: value@ },
        }
    }
}

/// The name of a pod phase, as the Kubernetes API writes it.
pub open spec fn phase_name(p: PodPhase) -> Seq<char> {
    match p {
        PodPhase::Pending => "Pending"@,
        PodPhase::Running => "Running"@,
        PodPhase::Succeeded => "Succeeded"@,
        PodPhase::Failed => "Failed"@,
        PodPhase::Unknown => "Unknown"@,
    }
}

/// The type of a pod condition, as the Kubernetes API writes it.
pub open spec fn condition_name(c: PodCondition) -> Seq<char> {
    match c {
        PodCondition::Ready => "Ready"@,
        PodCondition::ContainersReady => "ContainersReady"@,
        PodCondition::Initialized => "Initialized"@,
        PodCondition::PodScheduled => "PodScheduled"@,
    }
}

/// The phase that a name denotes.
pub open spec fn phase_spec(s: Seq<char>) -> Option<PodPhase> {
    if s == "Pending"@ {
        Some(PodPhase::Pending)
    } else if s == "Running"@ {
        Some(PodPhase::Running)
    } else if s == "Succeeded"@ {
        Some(PodPhase::Succeeded)
    } else if s == "Failed"@ {
        Some(PodPhase::Failed)
    } else if s == "Unknown"@ {
        Some(PodPhase::Unknown)
    } else {
        None
    }
}

/// The condition that a name denotes.
pub open spec fn condition_spec(s: Seq<char>) -> Option<PodCondition> {
    if s == "Ready"@ {
        Some(PodCondition::Ready)
    } else if s == "ContainersReady"@ {
        Some(PodCondition::ContainersReady)
    } else if s == "Initialized"@ {
        Some(PodCondition::Initialized)
    } else if s == "PodScheduled"@ {
        Some(PodCondition::PodScheduled)
    } else {
        None
    }
}

/// What a `desired_state` text `<phase|condition>:<value>` denotes.
pub open spec fn desired_state_spec(value: Seq<char>) -> Result<
    DesiredPodState,
    DesiredPodStateParseErrorView,
> {
    match split_once(value, seq![':']) {
        None => Err(DesiredPodStateParseErrorView::MissingPrefix { value }),
        Some((kind, raw)) => if kind == "phase"@ {
            match phase_spec(raw) {
                Some(p) => Ok(DesiredPodState::Phase(p)),
                None => Err(DesiredPodStateParseErrorView::UnknownPhase { value: raw }),
            }
        } else if kind == "condition"@ {
            match condition_spec(raw) {
                Some(c) => Ok(DesiredPodState::Condition(c)),
                None => Err(DesiredPodStateParseErrorView::UnknownCondition { value: raw }),
            }
        } else {
            Err(DesiredPodStateParseErrorView::UnknownPrefix { prefix: kind, value })
        },
    }
}

/// The text of a desired state: `phase:<name>` or `condition:<name>`.
pub open spec fn desired_state_text(s: DesiredPodState) -> Seq<char> {
    match s {
        DesiredPodState::Phase(p) => "phase:"@ + phase_name(p),
        DesiredPodState::Condition(c) => "condition:"@ + condition_name(c),
    }
}

pub open spec fn parse_error_outcome<T>(res: Result<T, DesiredPodStateParseError>) -> Result<
    T,
    DesiredPodStateParseErrorView,
> {
    match res {
        Ok(v) => Ok(v),
        Err(e) => Err(e@),
    }
}

impl PodPhase {
    /// The desired-state text of this phase.
    pub fn as_str(self) -> (res: &'static str)
        ensures
            res@ == desired_state_text(DesiredPodState::Phase(self)),
    {
        proof {
            reveal_strlit("phase:");
            reveal_strlit("phase:Pending");
            reveal_strlit("phase:Running");
            reveal_strlit("phase:Succeeded");
            reveal_strlit("phase:Failed");
            reveal_strlit("phase:Unknown");
            reveal_strlit("Pending");
            reveal_strlit("Running");
            reveal_strlit("Succeeded");
            reveal_strlit("Failed");
            reveal_strlit("Unknown");
        }
        match self {
            PodPhase::Pending => {
                assert("phase:Pending"@ =~= "phase:"@ + "Pending"@);
                "phase:Pending"
            },
            PodPhase::Running => {
                assert("phase:Running"@ =~= "phase:"@ + "Running"@);
                "phase:Running"
            },
            PodPhase::Succeeded => {
                assert("phase:Succeeded"@ =~= "phase:"@ + "Succeeded"@);
                "phase:Succeeded"
            },
            PodPhase::Failed => {
                assert("phase:Failed"@ =~= "phase:"@ + "Failed"@);
                "phase:Failed"
            },
            PodPhase::Unknown => {
                assert("phase:Unknown"@ =~= "phase:"@ + "Unknown"@);
                "phase:Unknown"
            },
        }
    }

    /// Read a phase name.
    pub fn from_str(value: &str) -> (res: Result<PodPhase, DesiredPodStateParseError>)
        ensures
            parse_error_outcome(res) == match phase_spec(value@) {
                Some(p) => Ok(p),
                None => Err(DesiredPodStateParseErrorView::UnknownPhase { value: value@ }),
            },
    {
        let v = chars_of(value);
        if chars_eq_str(v.as_slice(), "Pending") {
            Ok(PodPhase::Pending)
        } else if chars_eq_str(v.as_slice(), "Running") {
            Ok(PodPhase::Running)
        } else if chars_eq_str(v.as_slice(), "Succeeded") {
            Ok(PodPhase::Succeeded)
        } else if chars_eq_str(v.as_slice(), "Failed") {
            Ok(PodPhase::Failed)
        } else if chars_eq_str(v.as_slice(), "Unknown") {
            Ok(PodPhase::Unknown)
        } else {
            Err(DesiredPodStateParseError::UnknownPhase { value: owned(value) })
        }
    }
}

impl PodCondition {
    /// The desired-state text of this condition.
    pub fn as_str(self) -> (res: &'static str)
        ensures
            res@ == desired_state_text(DesiredPodState::Condition(self)),
    {
        proof {
            reveal_strlit("condition:");
            reveal_strlit("condition:Ready");
            reveal_strlit("condition:ContainersReady");
            reveal_strlit("condition:Initialized");
            reveal_strlit("condition:PodScheduled");
            reveal_strlit("Ready");
            reveal_strlit("ContainersReady");
            reveal_strlit("Initialized");
            reveal_strlit("PodScheduled");
        }
        match self {
            PodCondition::Ready => {
                assert("condition:Ready"@ =~= "condition:"@ + "Ready"@);
                "condition:Ready"
            },
            PodCondition::ContainersReady => {
                assert("condition:ContainersReady"@ =~= "condition:"@ + "ContainersReady"@);
                "condition:ContainersReady"
            },
            PodCondition::Initialized => {
                assert("condition:Initialized"@ =~= "condition:"@ + "Initialized"@);
                "condition:Initialized"
            },
            PodCondition::PodScheduled => {
                assert("condition:PodScheduled"@ =~= "condition:"@ + "PodScheduled"@);
                "condition:PodScheduled"
            },
        }
    }

    /// Read a condition type.
    pub fn from_str(value: &str) -> (res: Result<PodCondition, DesiredPodStateParseError>)
        ensures
            parse_error_outcome(res) == match condition_spec(value@) {
                Some(c) => Ok(c),
                None => Err(DesiredPodStateParseErrorView::UnknownCondition { value: value@ }),
            },
    {
        let v = chars_of(value);
        if chars_eq_str(v.as_slice(), "Ready") {
            Ok(PodCondition::Ready)
        } else if chars_eq_str(v.as_slice(), "ContainersReady") {
            Ok(PodCondition::ContainersReady)
        } else if chars_eq_str(v.as_slice(), "Initialized") {
            Ok(PodCondition::Initialized)
        } else if chars_eq_str(v.as_slice(), "PodScheduled") {
            Ok(PodCondition::PodScheduled)
        } else {
            Err(DesiredPodStateParseError::UnknownCondition { value: owned(value) })
        }
    }
}

impl DesiredPodState {
    /// The text of this desired state, `phase:<name>` or `condition:<name>`.
    pub fn as_str(&self) -> (res: &'static str)
        ensures
            res@ == desired_state_text(*self),
    {
        match self {
            DesiredPodState::Phase(phase) => phase.as_str(),
            DesiredPodState::Condition(condition) => condition.as_str(),
        }
    }

    /// Read a desired state from `<phase|condition>:<value>`.
    pub fn from_str(value: &str) -> (res: Result<DesiredPodState, DesiredPodStateParseError>)
        ensures
            parse_error_outcome(res) == desired_state_spec(value@),
    {
        let v = chars_of(value);
        let colon = chars_of(":");
        proof {
            reveal_strlit(":");
            assert(colon@ =~= seq![':']);
        }
        match split_once_chars(&v, &colon) {
            None => Err(DesiredPodStateParseError::MissingPrefix { value: owned(value) }),
            Some((kind, raw)) => {
                let raw_text = string_from_chars(raw.as_slice());
                if chars_eq_str(kind.as_slice(), "phase") {
                    match PodPhase::from_str(raw_text.as_str()) {
                        Ok(p) => Ok(DesiredPodState::Phase(p)),
                        Err(e) => Err(e),
                    }
                } else if chars_eq_str(kind.as_slice(), "condition") {
                    match PodCondition::from_str(raw_text.as_str()) {
                        Ok(c) => Ok(DesiredPodState::Condition(c)),
                        Err(e) => Err(e),
                    }
                } else {
                    Err(
                        DesiredPodStateParseError::UnknownPrefix {
                            prefix: string_from_chars(kind.as_slice()),
                            value: owned(value),
                        },
                    )
                }
            },
        }
    }
}

/// Reading the text of a desired state gives that state back.
pub proof fn law_desired_state_text_roundtrip(s: DesiredPodState)
    ensures
        desired_state_spec(desired_state_text(s)) == Ok::<
            DesiredPodState,
            DesiredPodStateParseErrorView,
        >(s),
{
    reveal_strlit("phase:");
    reveal_strlit("condition:");
    reveal_strlit("phase");
    reveal_strlit("condition");
    reveal_strlit(":");
    reveal_strlit("Pending");
    reveal_strlit("Running");
    reveal_strlit("Succeeded");
    reveal_strlit("Failed");
    reveal_strlit("Unknown");
    reveal_strlit("Ready");
    reveal_strlit("ContainersReady");
    reveal_strlit("Initialized");
    reveal_strlit("PodScheduled");
    let colon = seq![':'];
    match s {
        DesiredPodState::Phase(p) => {
            let name = phase_name(p);
            assert("phase:"@ + name =~= "phase"@ + colon + name);
            assert forall|j: int| 0 <= j < "phase"@.len() implies !occurs_at(
                "phase"@ + colon + name,
                colon,
                j,
            ) by {
                assert(("phase"@ + colon + name).subrange(j, j + 1)[0] == "phase"@[j]);
            }
            lemma_split_once_concat("phase"@, colon, name);
            assert(name[0] != "Pending"@[0] ==> name != "Pending"@);
            assert(name[0] != "Running"@[0] ==> name != "Running"@);
            assert(name[0] != "Succeeded"@[0] ==> name != "Succeeded"@);
            assert(name[0] != "Failed"@[0] ==> name != "Failed"@);
        },
        DesiredPodState::Condition(c) => {
            let name = condition_name(c);
            assert("condition:"@ + name =~= "condition"@ + colon + name);
            assert forall|j: int| 0 <= j < "condition"@.len() implies !occurs_at(
                "condition"@ + colon + name,
                colon,
                j,
            ) by {
                assert(("condition"@ + colon + name).subrange(j, j + 1)[0] == "condition"@[j]);
            }
            lemma_split_once_concat("condition"@, colon, name);
            assert("condition"@ != "phase"@);
            assert(name[0] != "Ready"@[0] ==> name != "Ready"@);
            assert(name[0] != "ContainersReady"@[0] ==> name != "ContainersReady"@);
            assert(name[0] != "Initialized"@[0] ==> name != "Initialized"@);
        },
    }
}

// ---------------------------------------------------------------------------
// Errors
// ---------------------------------------------------------------------------

/// Which `defaults` field a refusal is about.
#[derive(Debug, Clone, Copy, PartialEq, Eq, Structural)]
pub enum DefaultField {
    EverySeconds,
    TimeoutSeconds,
}

/// What is wrong with a configuration that was read successfully.
#[derive(Debug, Clone, PartialEq, Eq)]
pub enum ConfigIssue {
    BindMissingScheme { value: String },
    BindInvalidTcpAddress { value: String, address: String },
    BindInvalidUnixPath { value: String },
    BindInvalidVsockFormat { value: String },
    BindInvalidVsockCid { value: String, cid: String, reason: IntErrorKind },
    BindInvalidVsockPort { value: String, port: String, reason: IntErrorKind },
    BindUnsupportedScheme { value: String, scheme: String },
    DefaultNotPositive { field: DefaultField },
    RecordingOutputDirNotAbsolute { output_dir: String },
    RecordingShellEmpty,
    ProbeEveryZero { probe_id: String },
    ProbeTimeoutZero { probe_id: String },
    ProbeDesiredStateInvalid { probe_id: String, error: DesiredPodStateParseError },
    ProbeKubeconfigMissing { probe_id: String },
}

pub enum ConfigIssueView {
    BindMissingScheme { value: Seq<char> },
    BindInvalidTcpAddress { value: Seq<char>, address: Seq<char> },
    BindInvalidUnixPath { value: Seq<char> },
    BindInvalidVsockFormat { value: Seq<char> },
    BindInvalidVsockCid { value: Seq<char>, cid: Seq<char>, reason: IntErrorKind },
    BindInvalidVsockPort { value: Seq<char>, port: Seq<char>, reason: IntErrorKind },
    BindUnsupportedScheme { value: Seq<char>, scheme: Seq<char> },
    DefaultNotPositive { field: DefaultField },
    RecordingOutputDirNotAbsolute { output_dir: Seq<char> },
    RecordingShellEmpty,
    ProbeEveryZero { probe_id: Seq<char> },
    ProbeTimeoutZero { probe_id: Seq<char> },
    ProbeDesiredStateInvalid { probe_id: Seq<char>, error: DesiredPodStateParseErrorView },
    ProbeKubeconfigMissing { probe_id: Seq<char> },
}

impl View for ConfigIssue {
    type V = ConfigIssueView;

    open spec fn view(&self) -> ConfigIssueView {
        match self {
            ConfigIssue::BindMissingScheme { value } => ConfigIssueView::BindMissingScheme {
                value: value@,
            },
            ConfigIssue::BindInvalidTcpAddress { value, address } =>
                ConfigIssueView::BindInvalidTcpAddress { value: value@, address: address@ },
            ConfigIssue::BindInvalidUnixPath { value } => ConfigIssueView::BindInvalidUnixPath {
                value: value@,
            },
            ConfigIssue::BindInvalidVsockFormat { value } =>
                ConfigIssueView::BindInvalidVsockFormat { value: value@ },
            ConfigIssue::BindInvalidVsockCid { value, cid, reason } =>
                ConfigIssueView::BindInvalidVsockCid { value: value@, cid: cid@, reason: *reason },
            ConfigIssue::BindInvalidVsockPort { value, port, reason } =>
                ConfigIssueView::BindInvalidVsockPort {
                    value: value@,
                    port: port@,
                    reason: *reason,
                },
            ConfigIssue::BindUnsupportedScheme { value, scheme } =>
                ConfigIssueView::BindUnsupportedScheme { value: value@, scheme: scheme@ },
            ConfigIssue::DefaultNotPositive { field } => ConfigIssueView::DefaultNotPositive {
                field: *field,
            },
            ConfigIssue::RecordingOutputDirNotAbsolute { output_dir } =>
                ConfigIssueView::RecordingOutputDirNotAbsolute { output_dir: output_dir@ },
            ConfigIssue::RecordingShellEmpty => ConfigIssueView::RecordingShellEmpty,
            ConfigIssue::ProbeEveryZero { probe_id } => ConfigIssueView::ProbeEveryZero {
                probe_id: probe_id@,
            },
            ConfigIssue::ProbeTimeoutZero { probe_id } => ConfigIssueView::ProbeTimeoutZero {
                probe_id: probe_id@,
            },
            ConfigIssue::ProbeDesiredStateInvalid { probe_id, error } =>
                ConfigIssueView::ProbeDesiredStateInvalid { probe_id: probe_id@, error: error@ },
            ConfigIssue::ProbeKubeconfigMissing { probe_id } =>
                ConfigIssueView::ProbeKubeconfigMissing { probe_id: probe_id@ },
        }
    }
}

/// Why a configuration could not be loaded.
#[derive(Debug, Clone, PartialEq, Eq)]
pub enum ConfigError {
    ReadFile { path: String, message: String },
    ParseHcl { message: String },
    Validation { issue: ConfigIssue },
}

pub enum ConfigErrorView {
    ReadFile { path: Seq<char>, message: Seq<char> },
    ParseHcl { message: Seq<char> },
    Validation { issue: ConfigIssueView },
}

impl View for ConfigError {
    type V = ConfigErrorView;

    open spec fn view(&self) -> ConfigErrorView {
        match self {
            ConfigError::ReadFile { path, message } => ConfigErrorView::ReadFile {
                path: path@,
                message: message@,
            },
            ConfigError::ParseHcl { message } => ConfigErrorView::ParseHcl { message: message@ },
            ConfigError::Validation { issue } => ConfigErrorView::Validation { issue: issue@ },
        }
    }
}

/// The view of an outcome.
pub open spec fn outcome<T: View>(res: Result<T, ConfigError>) -> Result<T::V, ConfigErrorView> {
    match res {
        Ok(v) => Ok(v@),
        Err(e) => Err(e@),
    }
}

/// A refusal for the given issue.
pub open spec fn refuse<T>(issue: ConfigIssueView) -> Result<T, ConfigErrorView> {
    Err(ConfigErrorView::Validation { issue })
}

fn invalid<T>(issue: ConfigIssue) -> (res: Result<T, ConfigError>)
    ensures
        res matches Err(e) && e == (ConfigError::Validation { issue }),
{
    Err(ConfigError::Validation { issue })
}

// ---------------------------------------------------------------------------
// Error messages
// ---------------------------------------------------------------------------

/// Append the characters of `s`.
fn push_text(v: &mut Vec<char>, s: &str)
    ensures
        final(v)@ == old(v)@ + s@,
{
    let mut w = chars_of(s);
    v.append(&mut w);
}

/// The text of an integer parse error, as `ParseIntError` prints it.
pub open spec fn int_error_text(reason: IntErrorKind) -> Seq<char> {
    match reason {
        IntErrorKind::Empty => "cannot parse integer from empty string"@,
        IntErrorKind::InvalidDigit => "invalid digit found in string"@,
        IntErrorKind::PosOverflow => "number too large to fit in target type"@,
    }
}

fn int_error_str(reason: IntErrorKind) -> (res: &'static str)
    ensures
        res@ == int_error_text(reason),
{
    match reason {
        IntErrorKind::Empty => "cannot parse integer from empty string",
        IntErrorKind::InvalidDigit => "invalid digit found in string",
        IntErrorKind::PosOverflow => "number too large to fit in target type",
    }
}

/// The message of a refused desired state.
pub open spec fn desired_state_error_text(e: DesiredPodStateParseErrorView) -> Seq<char> {
    match e {
        DesiredPodStateParseErrorView::MissingPrefix { value } => "desired_state '"@ + value
            + "' must use '<phase|condition>:<value>'"@,
        DesiredPodStateParseErrorView::UnknownPrefix { prefix, value } => "desired_state '"@
            + value + "' uses unknown prefix '"@ + prefix + "'"@,
        DesiredPodStateParseErrorView::UnknownPhase { value } => "unknown phase value '"@ + value
            + "'"@,
        DesiredPodStateParseErrorView::UnknownCondition { value } => "unknown condition value '"@
            + value + "'"@,
    }
}

/// The message of a configuration that was read but refused.
pub open spec fn issue_text(issue: ConfigIssueView) -> Seq<char> {
    match issue {
        ConfigIssueView::BindMissingScheme { value } => "server.bind '"@ + value
            + "' must use one of: tcp://<ip:port>, unix://<absolute-path>, vsock://<cid>:<port>"@,
        ConfigIssueView::BindInvalidTcpAddress { value, address } => "server.bind '"@ + value
            + "' has invalid tcp address '"@ + address + "': invalid socket address syntax"@,
        ConfigIssueView::BindInvalidUnixPath { value } => "server.bind '"@ + value
            + "' has invalid unix path; use unix://<absolute-path>"@,
        ConfigIssueView::BindInvalidVsockFormat { value } => "server.bind '"@ + value
            + "' has invalid vsock format; use vsock://<cid>:<port>"@,
        ConfigIssueView::BindInvalidVsockCid { value, cid, reason } => "server.bind '"@ + value
            + "' has invalid vsock cid '"@ + cid + "': "@ + int_error_text(reason),
        ConfigIssueView::BindInvalidVsockPort { value, port, reason } => "server.bind '"@ + value
            + "' has invalid vsock port '"@ + port + "': "@ + int_error_text(reason),
        ConfigIssueView::BindUnsupportedScheme { value, scheme } => "server.bind '"@ + value
            + "' uses unsupported scheme '"@ + scheme + "'; supported: tcp, unix, vsock"@,
        ConfigIssueView::DefaultNotPositive { field } => match field {
            DefaultField::EverySeconds => "defaults.every_seconds must be greater than 0"@,
            DefaultField::TimeoutSeconds => "defaults.timeout_seconds must be greater than 0"@,
        },
        ConfigIssueView::RecordingOutputDirNotAbsolute { output_dir } => "recording.output_dir '"@
            + output_dir + "' must be an absolute path"@,
        ConfigIssueView::RecordingShellEmpty => "recording.real_shell must not be empty"@,
        ConfigIssueView::ProbeEveryZero { probe_id } => "probe '"@ + probe_id
            + "' has every_seconds = 0"@,
        ConfigIssueView::ProbeTimeoutZero { probe_id } => "probe '"@ + probe_id
            + "' has timeout_seconds = 0"@,
        ConfigIssueView::ProbeDesiredStateInvalid { probe_id, error } => "probe '"@ + probe_id
            + "' has invalid desired_state: "@ + desired_state_error_text(error),
        ConfigIssueView::ProbeKubeconfigMissing { probe_id } => "probe '"@ + probe_id
            + "' is kind 'k8s_pod_state' but no kubeconfig is set (probe.kubeconfig or defaults.kubeconfig)"@,
    }
}

/// The message of a configuration that could not be loaded.
pub open spec fn config_error_text(e: ConfigErrorView) -> Seq<char> {
    match e {
        ConfigErrorView::ReadFile { path, message } => "failed to read config file '"@ + path
            + "': "@ + message,
        ConfigErrorView::ParseHcl { message } => "failed to parse HCL config: "@ + message,
        ConfigErrorView::Validation { issue } => "invalid config: "@ + issue_text(issue),
    }
}

impl DesiredPodStateParseError {
    /// The message of this error.
    pub fn message(&self) -> (res: String)
        ensures
            res@ == desired_state_error_text(self@),
    {
        let mut v: Vec<char> = Vec::new();
        self.push_message(&mut v);
        assert(v@ =~= desired_state_error_text(self@));
        string_from_chars(v.as_slice())
    }

    fn push_message(&self, v: &mut Vec<char>)
        ensures
            final(v)@ == old(v)@ + desired_state_error_text(self@),
    {
        let ghost start = v@;
        match self {
            DesiredPodStateParseError::MissingPrefix { value } => {
                push_text(v, "desired_state '");
                push_text(v, value.as_str());
                push_text(v, "' must use '<phase|condition>:<value>'");
            },
            DesiredPodStateParseError::UnknownPrefix { prefix, value } => {
                push_text(v, "desired_state '");
                push_text(v, value.as_str());
                push_text(v, "' uses unknown prefix '");
                push_text(v, prefix.as_str());
                push_text(v, "'");
            },
            DesiredPodStateParseError::UnknownPhase { value } => {
                push_text(v, "unknown phase value '");
                push_text(v, value.as_str());
                push_text(v, "'");
            },
            DesiredPodStateParseError::UnknownCondition { value } => {
                push_text(v, "unknown condition value '");
                push_text(v, value.as_str());
                push_text(v, "'");
            },
        }
        assert(v@ =~= start + desired_state_error_text(self@));
    }
}

impl ConfigIssue {
    fn push_message(&self, v: &mut Vec<char>)
        ensures
            final(v)@ == old(v)@ + issue_text(self@),
    {
        let ghost start = v@;
        match self {
            ConfigIssue::BindMissingScheme { value } => {
                push_text(v, "server.bind '");
                push_text(v, value.as_str());
                push_text(
                    v,
                    "' must use one of: tcp://<ip:port>, unix://<absolute-path>, vsock://<cid>:<port>",
                );
            },
            ConfigIssue::BindInvalidTcpAddress { value, address } => {
                push_text(v, "server.bind '");
                push_text(v, value.as_str());
                push_text(v, "' has invalid tcp address '");
                push_text(v, address.as_str());
                push_text(v, "': invalid socket address syntax");
            },
            ConfigIssue::BindInvalidUnixPath { value } => {
                push_text(v, "server.bind '");
                push_text(v, value.as_str());
                push_text(v, "' has invalid unix path; use unix://<absolute-path>");
            },
            ConfigIssue::BindInvalidVsockFormat { value } => {
                push_text(v, "server.bind '");
                push_text(v, value.as_str());
                push_text(v, "' has invalid vsock format; use vsock://<cid>:<port>");
            },
            ConfigIssue::BindInvalidVsockCid { value, cid, reason } => {
                push_text(v, "server.bind '");
                push_text(v, value.as_str());
                push_text(v, "' has invalid vsock cid '");
                push_text(v, cid.as_str());
                push_text(v, "': ");
                push_text(v, int_error_str(*reason));
            },
            ConfigIssue::BindInvalidVsockPort { value, port, reason } => {
                push_text(v, "server.bind '");
                push_text(v, value.as_str());
                push_text(v, "' has invalid vsock port '");
                push_text(v, port.as_str());
                push_text(v, "': ");
                push_text(v, int_error_str(*reason));
            },
            ConfigIssue::BindUnsupportedScheme { value, scheme } => {
                push_text(v, "server.bind '");
                push_text(v, value.as_str());
                push_text(v, "' uses unsupported scheme '");
                push_text(v, scheme.as_str());
                push_text(v, "'; supported: tcp, unix, vsock");
            },
            ConfigIssue::DefaultNotPositive { field } => match field {
                DefaultField::EverySeconds => {
                    push_text(v, "defaults.every_seconds must be greater than 0");
                },
                DefaultField::TimeoutSeconds => {
                    push_text(v, "defaults.timeout_seconds must be greater than 0");
                },
            },
            ConfigIssue::RecordingOutputDirNotAbsolute { output_dir } => {
                push_text(v, "recording.output_dir '");
                push_text(v, output_dir.as_str());
                push_text(v, "' must be an absolute path");
            },
            ConfigIssue::RecordingShellEmpty => {
                push_text(v, "recording.real_shell must not be empty");
            },
            ConfigIssue::ProbeEveryZero { probe_id } => {
                push_text(v, "probe '");
                push_text(v, probe_id.as_str());
                push_text(v, "' has every_seconds = 0");
            },
            ConfigIssue::ProbeTimeoutZero { probe_id } => {
                push_text(v, "probe '");
                push_text(v, probe_id.as_str());
                push_text(v, "' has timeout_seconds = 0");
            },
            ConfigIssue::ProbeDesiredStateInvalid { probe_id, error } => {
                push_text(v, "probe '");
                push_text(v, probe_id.as_str());
                push_text(v, "' has invalid desired_state: ");
                error.push_message(v);
            },
            ConfigIssue::ProbeKubeconfigMissing { probe_id } => {
                push_text(v, "probe '");
                push_text(v, probe_id.as_str());
                push_text(
                    v,
                    "' is kind 'k8s_pod_state' but no kubeconfig is set (probe.kubeconfig or defaults.kubeconfig)",
                );
            },
        }
        assert(v@ =~= start + issue_text(self@));
    }
}

impl ConfigError {
    /// The message of this error, as the service prints it.
    pub fn message(&self) -> (res: String)
        ensures
            res@ == config_error_text(self@),
    {
        let mut v: Vec<char> = Vec::new();
        match self {
            ConfigError::ReadFile { path, message } => {
                push_text(&mut v, "failed to read config file '");
                push_text(&mut v, path.as_str());
                push_text(&mut v, "': ");
                push_text(&mut v, message.as_str());
            },
            ConfigError::ParseHcl { message } => {
                push_text(&mut v, "failed to parse HCL config: ");
                push_text(&mut v, message.as_str());
            },
            ConfigError::Validation { issue } => {
                push_text(&mut v, "invalid config: ");
                issue.push_message(&mut v);
            },
        }
        assert(v@ =~= config_error_text(self@));
        string_from_chars(v.as_slice())
    }
}

// ---------------------------------------------------------------------------
// Server binding
// ---------------------------------------------------------------------------

/// Where the HTTP server listens.
#[derive(Debug, Clone, PartialEq, Eq)]
pub enum ServerBind {
    Tcp(SocketAddress),
    Unix(String),
    Vsock { cid: u32, port: u32 },
}

pub enum ServerBindView {
    Tcp(SocketAddress),
    Unix(Seq<char>),
    Vsock { cid: u32, port: u32 },
}

impl View for ServerBind {
    type V = ServerBindView;

    open spec fn view(&self) -> ServerBindView {
        match self {
            ServerBind::Tcp(a) => ServerBindView::Tcp(*a),
            ServerBind::Unix(p) => ServerBindView::Unix(p@),
            ServerBind::Vsock { cid, port } => ServerBindView::Vsock { cid: *cid, port: *port },
        }
    }
}

/// What `server.bind` denotes: `tcp://<ip:port>`, `unix://<absolute-path>`
/// or `vsock://<cid>:<port>`.
pub open spec fn server_bind_spec(value: Seq<char>) -> Result<ServerBindView, ConfigErrorView> {
    match split_once(value, "://"@) {
        None => refuse(ConfigIssueView::BindMissingScheme { value }),
        Some((scheme, address)) => if scheme == "tcp"@ {
            match socket_addr_from_str(address) {
                Some(a) => Ok(ServerBindView::Tcp(a)),
                None => refuse(ConfigIssueView::BindInvalidTcpAddress { value, address }),
            }
        } else if scheme == "unix"@ {
            if is_absolute_path(address) {
                Ok(ServerBindView::Unix(address))
            } else {
                refuse(ConfigIssueView::BindInvalidUnixPath { value })
            }
        } else if scheme == "vsock"@ {
            match split_once(address, seq![':']) {
                None => refuse(ConfigIssueView::BindInvalidVsockFormat { value }),
                Some((cid, port)) => match parse_u32_spec(cid) {
                    Err(reason) => refuse(
                        ConfigIssueView::BindInvalidVsockCid { value, cid, reason },
                    ),
                    Ok(c) => match parse_u32_spec(port) {
                        Err(reason) => refuse(
                            ConfigIssueView::BindInvalidVsockPort { value, port, reason },
                        ),
                        Ok(p) => Ok(ServerBindView::Vsock { cid: c, port: p }),
                    },
                },
            }
        } else {
            refuse(ConfigIssueView::BindUnsupportedScheme { value, scheme })
        },
    }
}

/// Read a `server.bind` URI.
pub fn parse_server_bind_uri(value: &str) -> (res: Result<ServerBind, ConfigError>)
    ensures
        outcome(res) == server_bind_spec(value@),
{
    let v = chars_of(value);
    let sep = chars_of("://");
    proof {
        reveal_strlit("://");
    }
    match split_once_chars(&v, &sep) {
        None => invalid(ConfigIssue::BindMissingScheme { value: owned(value) }),
        Some((scheme, address)) => {
            if chars_eq_str(scheme.as_slice(), "tcp") {
                let address_text = string_from_chars(address.as_slice());
                match parse_socket_addr(address_text.as_str()) {
                    Some(a) => Ok(ServerBind::Tcp(a)),
                    None => invalid(
                        ConfigIssue::BindInvalidTcpAddress {
                            value: owned(value),
                            address: address_text,
                        },
                    ),
                }
            } else if chars_eq_str(scheme.as_slice(), "unix") {
                if path_is_absolute(address.as_slice()) {
                    Ok(ServerBind::Unix(string_from_chars(address.as_slice())))
                } else {
                    invalid(ConfigIssue::BindInvalidUnixPath { value: owned(value) })
                }
            } else if chars_eq_str(scheme.as_slice(), "vsock") {
                let colon = chars_of(":");
                proof {
                    reveal_strlit(":");
                    assert(colon@ =~= seq![':']);
                }
                match split_once_chars(&address, &colon) {
                    None => invalid(ConfigIssue::BindInvalidVsockFormat { value: owned(value) }),
                    Some((cid, port)) => match parse_u32(cid.as_slice()) {
                        Err(reason) => invalid(
                            ConfigIssue::BindInvalidVsockCid {
                                value: owned(value),
                                cid: string_from_chars(cid.as_slice()),
                                reason,
                            },
                        ),
                        Ok(c) => match parse_u32(port.as_slice()) {
                            Err(reason) => invalid(
                                ConfigIssue::BindInvalidVsockPort {
                                    value: owned(value),
                                    port: string_from_chars(port.as_slice()),
                                    reason,
                                },
                            ),
                            Ok(p) => Ok(ServerBind::Vsock { cid: c, port: p }),
                        },
                    },
                }
            } else {
                invalid(
                    ConfigIssue::BindUnsupportedScheme {
                        value: owned(value),
                        scheme: string_from_chars(scheme.as_slice()),
                    },
                )
            }
        },
    }
}

/// The server binding of the raw `server` block.
pub fn resolve_server_bind(raw_server: &RawServer) -> (res: Result<ServerBind, ConfigError>)
    ensures
        outcome(res) == server_bind_spec(raw_server.bind@),
{
    parse_server_bind_uri(raw_server.bind.as_str())
}

proof fn lemma_scheme_prefix(scheme: Seq<char>, rest: Seq<char>)
    requires
        forall|j: int| 0 <= j < scheme.len() ==> scheme[j] != ':',
    ensures
        split_once(scheme + "://"@ + rest, "://"@) == Some((scheme, rest)),
{
    reveal_strlit("://");
    let s = scheme + "://"@ + rest;
    assert forall|j: int| 0 <= j < scheme.len() implies !occurs_at(s, "://"@, j) by {
        assert(s.subrange(j, j + 3)[0] == scheme[j]);
    }
    lemma_split_once_concat(scheme, "://"@, rest);
}

/// A vsock binding written as `vsock://<cid>:<port>` in decimal reads back
/// as that cid and port.
pub proof fn law_vsock_bind_roundtrip(cid: u32, port: u32)
    ensures
        server_bind_spec("vsock://"@ + decimal(cid as nat) + ":"@ + decimal(port as nat)) == Ok::<
            ServerBindView,
            ConfigErrorView,
        >(ServerBindView::Vsock { cid, port }),
{
    reveal_strlit("vsock://");
    reveal_strlit("vsock");
    reveal_strlit("://");
    reveal_strlit(":");
    reveal_strlit("tcp");
    reveal_strlit("unix");
    let c = decimal(cid as nat);
    let p = decimal(port as nat);
    let address = c + seq![':'] + p;
    assert("vsock://"@ + c + ":"@ + p =~= "vsock"@ + "://"@ + address);
    lemma_scheme_prefix("vsock"@, address);
    assert("vsock"@ != "tcp"@);
    assert("vsock"@[0] != "unix"@[0]);
    lemma_decimal_digits(cid as nat);
    assert forall|j: int| 0 <= j < c.len() implies !occurs_at(address, seq![':'], j) by {
        assert(address.subrange(j, j + 1)[0] == c[j]);
        assert(c.contains(c[j]));
    }
    lemma_split_once_concat(c, seq![':'], p);
    lemma_parse_decimal(cid);
    lemma_parse_decimal(port);
}

/// A unix binding written as `unix://<absolute-path>` reads back as that path.
pub proof fn law_unix_bind_roundtrip(path: Seq<char>)
    requires
        is_absolute_path(path),
    ensures
        server_bind_spec("unix://"@ + path) == Ok::<ServerBindView, ConfigErrorView>(
            ServerBindView::Unix(path),
        ),
{
    reveal_strlit("unix://");
    reveal_strlit("unix");
    reveal_strlit("://");
    reveal_strlit("tcp");
    assert("unix://"@ + path =~= "unix"@ + "://"@ + path);
    lemma_scheme_prefix("unix"@, path);
    assert("unix"@[0] != "tcp"@[0]);
}

// ---------------------------------------------------------------------------
// Raw configuration, as read from HCL
// ---------------------------------------------------------------------------

#[derive(Debug, Clone, PartialEq, Eq)]
pub struct RawServer {
    pub bind: String,
}

#[derive(Debug, Clone, PartialEq, Eq)]
pub struct RawDefaults {
    pub every_seconds: Option<u64>,
    pub timeout_seconds: Option<u64>,
    pub kubeconfig: Option<String>,
    pub kube_context: Option<String>,
}

pub struct RawDefaultsView {
    pub every_seconds: Option<u64>,
    pub timeout_seconds: Option<u64>,
    pub kubeconfig: Option<Seq<char>>,
    pub kube_context: Option<Seq<char>>,
}

impl View for RawDefaults {
    type V = RawDefaultsView;

    open spec fn view(&self) -> RawDefaultsView {
        RawDefaultsView {
            every_seconds: self.every_seconds,
            timeout_seconds: self.timeout_seconds,
            kubeconfig: opt_str(self.kubeconfig),
            kube_context: opt_str(self.kube_context),
        }
    }
}

#[derive(Debug, Clone, PartialEq, Eq)]
pub struct RawRecording {
    pub output_dir: String,
    pub real_shell: Option<String>,
}

pub struct RawRecordingView {
    pub output_dir: Seq<char>,
    pub real_shell: Option<Seq<char>>,
}

impl View for RawRecording {
    type V = RawRecordingView;

    open spec fn view(&self) -> RawRecordingView {
        RawRecordingView { output_dir: self.output_dir@, real_shell: opt_str(self.real_shell) }
    }
}

/// One `probe "<id>" { kind = ... }` block.
#[derive(Debug, Clone, PartialEq, Eq)]
pub enum RawProbe {
    FileExists { path: String, every_seconds: Option<u64>, timeout_seconds: Option<u64> },
    FileRegexCapture {
        path: String,
        pattern: String,
        every_seconds: Option<u64>,
        timeout_seconds: Option<u64>,
    },
    PortOpen {
        host: String,
        port: u16,
        protocol: PortProtocol,
        every_seconds: Option<u64>,
        timeout_seconds: Option<u64>,
    },
    K8sPodState {
        namespace: String,
        selector: String,
        desired_state: String,
        kubeconfig: Option<String>,
        kube_context: Option<String>,
        every_seconds: Option<u64>,
        timeout_seconds: Option<u64>,
    },
}

pub enum RawProbeView {
    FileExists { path: Seq<char>, every_seconds: Option<u64>, timeout_seconds: Option<u64> },
    FileRegexCapture {
        path: Seq<char>,
        pattern: Seq<char>,
        every_seconds: Option<u64>,
        timeout_seconds: Option<u64>,
    },
    PortOpen {
        host: Seq<char>,
        port: u16,
        protocol: PortProtocol,
        every_seconds: Option<u64>,
        timeout_seconds: Option<u64>,
    },
    K8sPodState {
        namespace: Seq<char>,
        selector: Seq<char>,
        desired_state: Seq<char>,
        kubeconfig: Option<Seq<char>>,
        kube_context: Option<Seq<char>>,
        every_seconds: Option<u64>,
        timeout_seconds: Option<u64>,
    },
}

impl View for RawProbe {
    type V = RawProbeView;

    open spec fn view(&self) -> RawProbeView {
        match self {
            RawProbe::FileExists { path, every_seconds, timeout_seconds } =>
                RawProbeView::FileExists {
                    path: path@,
                    every_seconds: *every_seconds,
                    timeout_seconds: *timeout_seconds,
                },
            RawProbe::FileRegexCapture { path, pattern, every_seconds, timeout_seconds } =>
                RawProbeView::FileRegexCapture {
                    path: path@,
                    pattern: pattern@,
                    every_seconds: *every_seconds,
                    timeout_seconds: *timeout_seconds,
                },
            RawProbe::PortOpen { host, port, protocol, every_seconds, timeout_seconds } =>
                RawProbeView::PortOpen {
                    host: host@,
                    port: *port,
                    protocol: *protocol,
                    every_seconds: *every_seconds,
                    timeout_seconds: *timeout_seconds,
                },
            RawProbe::K8sPodState {
                namespace,
                selector,
                desired_state,
                kubeconfig,
                kube_context,
                every_seconds,
                timeout_seconds,
            } => RawProbeView::K8sPodState {
                namespace: namespace@,
                selector: selector@,
                desired_state: desired_state@,
                kubeconfig: opt_str(*kubeconfig),
                kube_context: opt_str(*kube_context),
                every_seconds: *every_seconds,
                timeout_seconds: *timeout_seconds,
            },
        }
    }
}

/// The ids of the entries are strictly increasing.
pub open spec fn ids_ascending(s: Seq<(Seq<char>, RawProbeView)>) -> bool {
    forall|i: int, j: int| 0 <= i < j < s.len() ==> text_less(#[trigger] s[i].0, #[trigger] s[j].0)
}

/// The number of leading entries whose id comes before `id`: where an entry
/// with `id` stands, or would be inserted, in an ascending list.
pub open spec fn id_position(s: Seq<(Seq<char>, RawProbeView)>, id: Seq<char>) -> nat
    decreases s.len(),
{
    if s.len() == 0 || !text_less(s[0].0, id) {
        0
    } else {
        1 + id_position(s.drop_first(), id)
    }
}

/// The entries after a block with `id` is added: it replaces the block with
/// the same id, or takes its place in the order of the ids.
pub open spec fn entries_inserted(
    s: Seq<(Seq<char>, RawProbeView)>,
    id: Seq<char>,
    probe: RawProbeView,
) -> Seq<(Seq<char>, RawProbeView)> {
    let pos = id_position(s, id) as int;
    if pos < s.len() && s[pos].0 == id {
        s.update(pos, (id, probe))
    } else {
        s.insert(pos, (id, probe))
    }
}

/// The `probe` blocks of a configuration, keyed by their ids: one block per
/// id, in the order of the ids.
#[derive(Debug, PartialEq, Eq)]
pub struct RawProbes {
    entries: Vec<(String, RawProbe)>,
}

impl RawProbes {
    /// The blocks, in the order of their ids.
    pub closed spec fn entries(&self) -> Seq<(Seq<char>, RawProbeView)> {
        self.entries@.map_values(|e: (String, RawProbe)| (e.0@, e.1@))
    }

    #[verifier::type_invariant]
    closed spec fn ascending(&self) -> bool {
        ids_ascending(self.entries())
    }

    /// No probe blocks.
    pub fn new() -> (res: RawProbes)
        ensures
            res.entries() == Seq::<(Seq<char>, RawProbeView)>::empty(),
    {
        let res = RawProbes { entries: Vec::new() };
        assert(res.entries() =~= Seq::<(Seq<char>, RawProbeView)>::empty());
        res
    }

    /// The number of blocks.
    pub fn len(&self) -> (res: usize)
        ensures
            res == self.entries().len(),
    {
        self.entries.len()
    }

    /// The block at `index`, with its id.
    pub fn entry(&self, index: usize) -> (res: &(String, RawProbe))
        requires
            index < self.entries().len(),
        ensures
            (res.0@, res.1@) == self.entries()[index as int],
    {
        &self.entries[index]
    }

    /// Add the block `probe` with the id `id`; a block with the same id is
    /// replaced, as a later block of the same id replaces an earlier one.
    pub fn insert(&mut self, id: String, probe: RawProbe)
        ensures
            final(self).entries() == entries_inserted(old(self).entries(), id@, probe@),
            ids_ascending(final(self).entries()),
    {
        proof {
            use_type_invariant(&*self);
        }
        let mut entries: Vec<(String, RawProbe)> = Vec::new();
        std::mem::swap(&mut entries, &mut self.entries);
        let ghost s = entries@.map_values(|e: (String, RawProbe)| (e.0@, e.1@));
        assert(s == old(self).entries());
        let id_chars = chars_of(id.as_str());
        let (i, found) = id_index(&entries, id_chars.as_slice());
        proof {
            lemma_text_less_irreflexive(id@);
            if !found && i < s.len() {
                lemma_text_less_asymmetric(id@, s[i as int].0);
            }
            lemma_id_position(s, id@, i as int);
        }
        let ghost item = (id@, probe@);
        if found {
            entries.set(i, (id, probe));
            assert(entries@.map_values(|e: (String, RawProbe)| (e.0@, e.1@)) =~= s.update(
                i as int,
                item,
            ));
            proof {
                lemma_update_ascending(s, i as int, item);
            }
        } else {
            entries.insert(i, (id, probe));
            assert(entries@.map_values(|e: (String, RawProbe)| (e.0@, e.1@)) =~= s.insert(
                i as int,
                item,
            ));
            proof {
                lemma_insert_ascending(s, i as int, item);
            }
        }
        self.entries = entries;
    }
}

/// Where the entry with `id` stands in an ascending list, or where it
/// would be inserted, and whether it is there.
fn id_index(entries: &Vec<(String, RawProbe)>, id: &[char]) -> (res: (usize, bool))
    ensures
        res.0 <= entries@.len(),
        forall|k: int| 0 <= k < res.0 ==> text_less(#[trigger] entries@[k].0@, id@),
        res.1 <==> (res.0 < entries@.len() && entries@[res.0 as int].0@ == id@),
        !res.1 && res.0 < entries@.len() ==> text_less(id@, entries@[res.0 as int].0@),
{
    let mut i: usize = 0;
    while i < entries.len()
        invariant
            i <= entries@.len(),
            forall|k: int| 0 <= k < i ==> text_less(#[trigger] entries@[k].0@, id@),
        decreases entries.len() - i,
    {
        let entry_id = chars_of(entries[i].0.as_str());
        match compare_text(entry_id.as_slice(), id) {
            Comparison::Less => {},
            Comparison::Equal => {
                return (i, true);
            },
            Comparison::Greater => {
                return (i, false);
            },
        }
        i = i + 1;
    }
    (i, false)
}

/// In an ascending list, `id_position` is the first entry whose id does not
/// come before `id`.
proof fn lemma_id_position(s: Seq<(Seq<char>, RawProbeView)>, id: Seq<char>, i: int)
    requires
        0 <= i <= s.len(),
        forall|k: int| 0 <= k < i ==> text_less(#[trigger] s[k].0, id),
        i < s.len() ==> !text_less(s[i].0, id),
    ensures
        id_position(s, id) == i,
    decreases i,
{
    if i > 0 {
        assert(text_less(s[0].0, id));
        assert forall|k: int| 0 <= k < i - 1 implies text_less(
            #[trigger] s.drop_first()[k].0,
            id,
        ) by {
            assert(s.drop_first()[k] == s[k + 1]);
        }
        if i < s.len() {
            assert(s.drop_first()[i - 1] == s[i]);
        }
        lemma_id_position(s.drop_first(), id, i - 1);
    }
}

proof fn lemma_update_ascending(
    s: Seq<(Seq<char>, RawProbeView)>,
    i: int,
    item: (Seq<char>, RawProbeView),
)
    requires
        ids_ascending(s),
        0 <= i < s.len(),
        s[i].0 == item.0,
    ensures
        ids_ascending(s.update(i, item)),
{
    let t = s.update(i, item);
    assert forall|a: int, b: int| 0 <= a < b < t.len() implies text_less(
        #[trigger] t[a].0,
        #[trigger] t[b].0,
    ) by {
        assert(t[a].0 == s[a].0);
        assert(t[b].0 == s[b].0);
    }
}

proof fn lemma_insert_ascending(
    s: Seq<(Seq<char>, RawProbeView)>,
    pos: int,
    item: (Seq<char>, RawProbeView),
)
    requires
        ids_ascending(s),
        0 <= pos <= s.len(),
        forall|k: int| 0 <= k < pos ==> text_less(#[trigger] s[k].0, item.0),
        pos < s.len() ==> !text_less(s[pos].0, item.0) && s[pos].0 != item.0,
    ensures
        ids_ascending(s.insert(pos, item)),
{
    let t = s.insert(pos, item);
    let x = item.0;
    if pos < s.len() {
        lemma_text_less_total(s[pos].0, x);
    }
    assert forall|a: int, b: int| 0 <= a < b < t.len() implies text_less(
        #[trigger] t[a].0,
        #[trigger] t[b].0,
    ) by {
        if b < pos {
            assert(t[a] == s[a] && t[b] == s[b]);
        } else if b == pos {
            assert(t[a] == s[a]);
        } else if a < pos {
            assert(t[a] == s[a] && t[b] == s[b - 1]);
            if b - 1 == pos {
                lemma_text_less_transitive(s[a].0, x, s[b - 1].0);
            } else {
                lemma_text_less_transitive(s[a].0, x, s[pos].0);
                lemma_text_less_transitive(s[a].0, s[pos].0, s[b - 1].0);
            }
        } else if a == pos {
            assert(t[b] == s[b - 1]);
            if b - 1 > pos {
                lemma_text_less_transitive(x, s[pos].0, s[b - 1].0);
            }
        } else {
            assert(t[a] == s[a - 1] && t[b] == s[b - 1]);
        }
    }
}

/// The whole configuration file.
#[derive(Debug, PartialEq, Eq)]
pub struct RawConfig {
    pub server: RawServer,
    pub defaults: Option<RawDefaults>,
    pub recording: Option<RawRecording>,
    pub probe: RawProbes,
}

pub struct RawConfigView {
    pub bind: Seq<char>,
    pub defaults: Option<RawDefaultsView>,
    pub recording: Option<RawRecordingView>,
    pub probe: Seq<(Seq<char>, RawProbeView)>,
}

impl View for RawConfig {
    type V = RawConfigView;

    open spec fn view(&self) -> RawConfigView {
        RawConfigView {
            bind: self.server.bind@,
            defaults: match self.defaults {
                Some(d) => Some(d@),
                None => None,
            },
            recording: match self.recording {
                Some(r) => Some(r@),
                None => None,
            },
            probe: self.probe.entries(),
        }
    }
}

// ---------------------------------------------------------------------------
// Validated configuration
// ---------------------------------------------------------------------------

/// The `defaults` block after defaulting and validation.
#[derive(Debug, Clone, PartialEq, Eq)]
pub struct EffectiveDefaults {
    pub every_seconds: u64,
    pub timeout_seconds: u64,
    pub kubeconfig: Option<String>,
    pub kube_context: Option<String>,
}

pub struct EffectiveDefaultsView {
    pub every_seconds: u64,
    pub timeout_seconds: u64,
    pub kubeconfig: Option<Seq<char>>,
    pub kube_context: Option<Seq<char>>,
}

impl View for EffectiveDefaults {
    type V = EffectiveDefaultsView;

    open spec fn view(&self) -> EffectiveDefaultsView {
        EffectiveDefaultsView {
            every_seconds: self.every_seconds,
            timeout_seconds: self.timeout_seconds,
            kubeconfig: opt_str(self.kubeconfig),
            kube_context: opt_str(self.kube_context),
        }
    }
}

/// Where session recordings go and which shell records them.
#[derive(Debug, Clone, PartialEq, Eq)]
pub struct RecordingConfig {
    pub output_dir: String,
    pub real_shell: String,
}

pub struct RecordingConfigView {
    pub output_dir: Seq<char>,
    pub real_shell: Seq<char>,
}

impl View for RecordingConfig {
    type V = RecordingConfigView;

    open spec fn view(&self) -> RecordingConfigView {
        RecordingConfigView { output_dir: self.output_dir@, real_shell: self.real_shell@ }
    }
}

/// What a probe checks.
#[derive(Debug, Clone, PartialEq, Eq)]
pub enum ProbeKindConfig {
    FileExists { path: String },
    FileRegexCapture { path: String, pattern: String },
    PortOpen { host: String, port: u16, protocol: PortProtocol },
    K8sPodState {
        namespace: String,
        selector: String,
        desired_state: DesiredPodState,
        kubeconfig: String,
        kube_context: Option<String>,
    },
}

pub enum ProbeKindConfigView {
    FileExists { path: Seq<char> },
    FileRegexCapture { path: Seq<char>, pattern: Seq<char> },
    PortOpen { host: Seq<char>, port: u16, protocol: PortProtocol },
    K8sPodState {
        namespace: Seq<char>,
        selector: Seq<char>,
        desired_state: DesiredPodState,
        kubeconfig: Seq<char>,
        kube_context: Option<Seq<char>>,
    },
}

impl View for ProbeKindConfig {
    type V = ProbeKindConfigView;

    open spec fn view(&self) -> ProbeKindConfigView {
        match self {
            ProbeKindConfig::FileExists { path } => ProbeKindConfigView::FileExists {
                path: path@,
            },
            ProbeKindConfig::FileRegexCapture { path, pattern } =>
                ProbeKindConfigView::FileRegexCapture { path: path@, pattern: pattern@ },
            ProbeKindConfig::PortOpen { host, port, protocol } => ProbeKindConfigView::PortOpen {
                host: host@,
                port: *port,
                protocol: *protocol,
            },
            ProbeKindConfig::K8sPodState {
                namespace,
                selector,
                desired_state,
                kubeconfig,
                kube_context,
            } => ProbeKindConfigView::K8sPodState {
                namespace: namespace@,
                selector: selector@,
                desired_state: *desired_state,
                kubeconfig: kubeconfig@,
                kube_context: opt_str(*kube_context),
            },
        }
    }
}

/// One validated probe: its id, its period and timeout in seconds, and what it checks.
#[derive(Debug, Clone, PartialEq, Eq)]
pub struct ProbeConfig {
    pub id: String,
    pub every_seconds: u64,
    pub timeout_seconds: u64,
    pub kind: ProbeKindConfig,
}

pub struct ProbeConfigView {
    pub id: Seq<char>,
    pub every_seconds: u64,
    pub timeout_seconds: u64,
    pub kind: ProbeKindConfigView,
}

impl View for ProbeConfig {
    type V = ProbeConfigView;

    open spec fn view(&self) -> ProbeConfigView {
        ProbeConfigView {
            id: self.id@,
            every_seconds: self.every_seconds,
            timeout_seconds: self.timeout_seconds,
            kind: self.kind@,
        }
    }
}

/// The validated configuration of the service.
#[derive(Debug, Clone, PartialEq, Eq)]
pub struct AppConfig {
    pub server_bind: ServerBind,
    pub recording: Option<RecordingConfig>,
    pub probes: Vec<ProbeConfig>,
}

pub struct AppConfigView {
    pub server_bind: ServerBindView,
    pub recording: Option<RecordingConfigView>,
    pub probes: Seq<ProbeConfigView>,
}

impl View for AppConfig {
    type V = AppConfigView;

    open spec fn view(&self) -> AppConfigView {
        AppConfigView {
            server_bind: self.server_bind@,
            recording: match self.recording {
                Some(r) => Some(r@),
                None => None,
            },
            probes: self.probes@.map_values(|p: ProbeConfig| p@),
        }
    }
}

// ---------------------------------------------------------------------------
// Defaults
// ---------------------------------------------------------------------------

pub open spec fn non_zero_or_default_spec(value: Option<u64>, default: u64, field: DefaultField) -> Result<
    u64,
    ConfigErrorView,
> {
    let selected = match value {
        Some(v) => v,
        None => default,
    };
    if selected == 0 {
        refuse(ConfigIssueView::DefaultNotPositive { field })
    } else {
        Ok(selected)
    }
}

/// The given value, or `default` when none is given; refused when zero.
pub fn non_zero_or_default(value: Option<u64>, default: u64, field: DefaultField) -> (res: Result<
    u64,
    ConfigError,
>)
    ensures
        outcome(res) == non_zero_or_default_spec(value, default, field),
{
    let selected = match value {
        Some(v) => v,
        None => default,
    };
    if selected == 0 {
        invalid(ConfigIssue::DefaultNotPositive { field })
    } else {
        Ok(selected)
    }
}

pub open spec fn normalize_defaults_spec(raw: Option<RawDefaultsView>) -> Result<
    EffectiveDefaultsView,
    ConfigErrorView,
> {
    let d = match raw {
        Some(d) => d,
        None => RawDefaultsView {
            every_seconds: None,
            timeout_seconds: None,
            kubeconfig: None,
            kube_context: None,
        },
    };
    match non_zero_or_default_spec(d.every_seconds, 5, DefaultField::EverySeconds) {
        Err(e) => Err(e),
        Ok(every) => match non_zero_or_default_spec(
            d.timeout_seconds,
            2,
            DefaultField::TimeoutSeconds,
        ) {
            Err(e) => Err(e),
            Ok(timeout) => Ok(
                EffectiveDefaultsView {
                    every_seconds: every,
                    timeout_seconds: timeout,
                    kubeconfig: d.kubeconfig,
                    kube_context: d.kube_context,
                },
            ),
        },
    }
}

pub open spec fn raw_defaults_view(raw: Option<RawDefaults>) -> Option<RawDefaultsView> {
    match raw {
        Some(d) => Some(d@),
        None => None,
    }
}

/// The defaults block with a period of 5 s and a timeout of 2 s where none is given.
pub fn normalize_defaults(raw_defaults: &Option<RawDefaults>) -> (res: Result<
    EffectiveDefaults,
    ConfigError,
>)
    ensures
        outcome(res) == normalize_defaults_spec(raw_defaults_view(*raw_defaults)),
        res matches Ok(d) ==> d.every_seconds > 0 && d.timeout_seconds > 0,
{
    let (every_value, timeout_value, kubeconfig, kube_context) = match raw_defaults {
        Some(d) => (d.every_seconds, d.timeout_seconds, clone_opt(&d.kubeconfig), clone_opt(&d.kube_context)),
        None => (None, None, None, None),
    };
    let every_seconds = match non_zero_or_default(every_value, 5, DefaultField::EverySeconds) {
        Ok(v) => v,
        Err(e) => return Err(e),
    };
    let timeout_seconds = match non_zero_or_default(
        timeout_value,
        2,
        DefaultField::TimeoutSeconds,
    ) {
        Ok(v) => v,
        Err(e) => return Err(e),
    };
    Ok(EffectiveDefaults { every_seconds, timeout_seconds, kubeconfig, kube_context })
}

// ---------------------------------------------------------------------------
// Recording
// ---------------------------------------------------------------------------

pub open spec fn recording_spec(raw: RawRecordingView) -> Result<RecordingConfigView, ConfigErrorView> {
    if !is_absolute_path(raw.output_dir) {
        refuse(ConfigIssueView::RecordingOutputDirNotAbsolute { output_dir: raw.output_dir })
    } else {
        let shell = match raw.real_shell {
            Some(s) => s,
            None => "/bin/bash"@,
        };
        if shell.len() == 0 {
            refuse(ConfigIssueView::RecordingShellEmpty)
        } else {
            Ok(RecordingConfigView { output_dir: raw.output_dir, real_shell: shell })
        }
    }
}

/// The recording block: an absolute output directory, and a non-empty shell
/// that defaults to `/bin/bash`.
pub fn build_recording_config(raw_recording: &RawRecording) -> (res: Result<
    RecordingConfig,
    ConfigError,
>)
    ensures
        outcome(res) == recording_spec(raw_recording@),
{
    let dir = chars_of(raw_recording.output_dir.as_str());
    if !path_is_absolute(dir.as_slice()) {
        return invalid(
            ConfigIssue::RecordingOutputDirNotAbsolute {
                output_dir: raw_recording.output_dir.clone(),
            },
        );
    }
    let real_shell = match &raw_recording.real_shell {
        Some(s) => s.clone(),
        None => owned("/bin/bash"),
    };
    if real_shell.as_str().is_empty() {
        return invalid(ConfigIssue::RecordingShellEmpty);
    }
    Ok(RecordingConfig { output_dir: raw_recording.output_dir.clone(), real_shell })
}

// ---------------------------------------------------------------------------
// Probes
// ---------------------------------------------------------------------------

pub open spec fn probe_seconds_spec(value: Option<u64>, default: u64, probe_id: Seq<char>, every: bool) -> Result<
    u64,
    ConfigErrorView,
> {
    let selected = match value {
        Some(v) => v,
        None => default,
    };
    if selected == 0 {
        if every {
            refuse(ConfigIssueView::ProbeEveryZero { probe_id })
        } else {
            refuse(ConfigIssueView::ProbeTimeoutZero { probe_id })
        }
    } else {
        Ok(selected)
    }
}

/// A probe's period in seconds: its own, or the default; refused when zero.
pub fn every_or_default(value: Option<u64>, default: u64, probe_id: &str) -> (res: Result<
    u64,
    ConfigError,
>)
    ensures
        outcome(res) == probe_seconds_spec(value, default, probe_id@, true),
{
    let every = match value {
        Some(v) => v,
        None => default,
    };
    if every == 0 {
        invalid(ConfigIssue::ProbeEveryZero { probe_id: owned(probe_id) })
    } else {
        Ok(every)
    }
}

/// A probe's timeout in seconds: its own, or the default; refused when zero.
pub fn timeout_or_default(value: Option<u64>, default: u64, probe_id: &str) -> (res: Result<
    u64,
    ConfigError,
>)
    ensures
        outcome(res) == probe_seconds_spec(value, default, probe_id@, false),
{
    let timeout = match value {
        Some(v) => v,
        None => default,
    };
    if timeout == 0 {
        invalid(ConfigIssue::ProbeTimeoutZero { probe_id: owned(probe_id) })
    } else {
        Ok(timeout)
    }
}

pub open spec fn raw_probe_seconds(raw: RawProbeView) -> (Option<u64>, Option<u64>) {
    match raw {
        RawProbeView::FileExists { every_seconds, timeout_seconds, .. } => (
            every_seconds,
            timeout_seconds,
        ),
        RawProbeView::FileRegexCapture { every_seconds, timeout_seconds, .. } => (
            every_seconds,
            timeout_seconds,
        ),
        RawProbeView::PortOpen { every_seconds, timeout_seconds, .. } => (
            every_seconds,
            timeout_seconds,
        ),
        RawProbeView::K8sPodState { every_seconds, timeout_seconds, .. } => (
            every_seconds,
            timeout_seconds,
        ),
    }
}

/// What a probe block checks, once its period and timeout are accepted.
pub open spec fn probe_kind_spec(
    id: Seq<char>,
    raw: RawProbeView,
    defaults: EffectiveDefaultsView,
) -> Result<ProbeKindConfigView, ConfigErrorView> {
    match raw {
        RawProbeView::FileExists { path, .. } => Ok(ProbeKindConfigView::FileExists { path }),
        RawProbeView::FileRegexCapture { path, pattern, .. } => Ok(
            ProbeKindConfigView::FileRegexCapture { path, pattern },
        ),
        RawProbeView::PortOpen { host, port, protocol, .. } => Ok(
            ProbeKindConfigView::PortOpen { host, port, protocol },
        ),
        RawProbeView::K8sPodState {
            namespace,
            selector,
            desired_state,
            kubeconfig,
            kube_context,
            ..
        } => match desired_state_spec(desired_state) {
            Err(error) => refuse(
                ConfigIssueView::ProbeDesiredStateInvalid { probe_id: id, error },
            ),
            Ok(state) => {
                let resolved = match kubeconfig {
                    Some(k) => Some(k),
                    None => defaults.kubeconfig,
                };
                match resolved {
                    None => refuse(ConfigIssueView::ProbeKubeconfigMissing { probe_id: id }),
                    Some(k) => Ok(
                        ProbeKindConfigView::K8sPodState {
                            namespace,
                            selector,
                            desired_state: state,
                            kubeconfig: k,
                            kube_context: match kube_context {
                                Some(c) => Some(c),
                                None => defaults.kube_context,
                            },
                        },
                    ),
                }
            },
        },
    }
}

/// A probe block after defaulting and validation, checked in the order
/// period, timeout, desired state, kubeconfig.
pub open spec fn probe_config_spec(
    id: Seq<char>,
    raw: RawProbeView,
    defaults: EffectiveDefaultsView,
) -> Result<ProbeConfigView, ConfigErrorView> {
    let (every_value, timeout_value) = raw_probe_seconds(raw);
    match probe_seconds_spec(every_value, defaults.every_seconds, id, true) {
        Err(e) => Err(e),
        Ok(every) => match probe_seconds_spec(timeout_value, defaults.timeout_seconds, id, false) {
            Err(e) => Err(e),
            Ok(timeout) => match probe_kind_spec(id, raw, defaults) {
                Err(e) => Err(e),
                Ok(kind) => Ok(
                    ProbeConfigView { id, every_seconds: every, timeout_seconds: timeout, kind },
                ),
            },
        },
    }
}

fn build_probe_kind(id: &str, raw_probe: &RawProbe, defaults: &EffectiveDefaults) -> (res: Result<
    ProbeKindConfig,
    ConfigError,
>)
    ensures
        outcome(res) == probe_kind_spec(id@, raw_probe@, defaults@),
{
    match raw_probe {
        RawProbe::FileExists { path, .. } => Ok(ProbeKindConfig::FileExists { path: path.clone() }),
        RawProbe::FileRegexCapture { path, pattern, .. } => Ok(
            ProbeKindConfig::FileRegexCapture { path: path.clone(), pattern: pattern.clone() },
        ),
        RawProbe::PortOpen { host, port, protocol, .. } => Ok(
            ProbeKindConfig::PortOpen { host: host.clone(), port: *port, protocol: *protocol },
        ),
        RawProbe::K8sPodState {
            namespace,
            selector,
            desired_state,
            kubeconfig,
            kube_context,
            ..
        } => {
            let parsed = match DesiredPodState::from_str(desired_state.as_str()) {
                Ok(s) => s,
                Err(error) => {
                    return invalid(
                        ConfigIssue::ProbeDesiredStateInvalid { probe_id: owned(id), error },
                    );
                },
            };
            let resolved_kubeconfig = match kubeconfig {
                Some(k) => k.clone(),
                None => match &defaults.kubeconfig {
                    Some(k) => k.clone(),
                    None => {
                        return invalid(
                            ConfigIssue::ProbeKubeconfigMissing { probe_id: owned(id) },
                        );
                    },
                },
            };
            let resolved_kube_context = match kube_context {
                Some(c) => Some(c.clone()),
                None => clone_opt(&defaults.kube_context),
            };
            Ok(
                ProbeKindConfig::K8sPodState {
                    namespace: namespace.clone(),
                    selector: selector.clone(),
                    desired_state: parsed,
                    kubeconfig: resolved_kubeconfig,
                    kube_context: resolved_kube_context,
                },
            )
        },
    }
}

/// One probe block after defaulting and validation.
pub fn build_probe_config(id: &String, raw_probe: &RawProbe, defaults: &EffectiveDefaults) -> (res: Result<
    ProbeConfig,
    ConfigError,
>)
    ensures
        outcome(res) == probe_config_spec(id@, raw_probe@, defaults@),
{
    let (every_value, timeout_value) = match raw_probe {
        RawProbe::FileExists { every_seconds, timeout_seconds, .. } => (
            *every_seconds,
            *timeout_seconds,
        ),
        RawProbe::FileRegexCapture { every_seconds, timeout_seconds, .. } => (
            *every_seconds,
            *timeout_seconds,
        ),
        RawProbe::PortOpen { every_seconds, timeout_seconds, .. } => (
            *every_seconds,
            *timeout_seconds,
        ),
        RawProbe::K8sPodState { every_seconds, timeout_seconds, .. } => (
            *every_seconds,
            *timeout_seconds,
        ),
    };
    let every = match every_or_default(every_value, defaults.every_seconds, id.as_str()) {
        Ok(v) => v,
        Err(e) => return Err(e),
    };
    let timeout = match timeout_or_default(timeout_value, defaults.timeout_seconds, id.as_str()) {
        Ok(v) => v,
        Err(e) => return Err(e),
    };
    let kind = match build_probe_kind(id.as_str(), raw_probe, defaults) {
        Ok(k) => k,
        Err(e) => return Err(e),
    };
    Ok(ProbeConfig { id: id.clone(), every_seconds: every, timeout_seconds: timeout, kind })
}

/// All probe blocks, in order; the first refusal stops the build.
pub open spec fn probes_spec(
    entries: Seq<(Seq<char>, RawProbeView)>,
    defaults: EffectiveDefaultsView,
) -> Result<Seq<ProbeConfigView>, ConfigErrorView>
    decreases entries.len(),
{
    if entries.len() == 0 {
        Ok(Seq::empty())
    } else {
        match probes_spec(entries.drop_last(), defaults) {
            Err(e) => Err(e),
            Ok(done) => match probe_config_spec(entries.last().0, entries.last().1, defaults) {
                Err(e) => Err(e),
                Ok(p) => Ok(done.push(p)),
            },
        }
    }
}

/// The validated configuration, checked in the order defaults, server
/// binding, recording, probes.
pub open spec fn app_config_spec(raw: RawConfigView) -> Result<AppConfigView, ConfigErrorView> {
    match normalize_defaults_spec(raw.defaults) {
        Err(e) => Err(e),
        Ok(defaults) => match server_bind_spec(raw.bind) {
            Err(e) => Err(e),
            Ok(server_bind) => {
                let recording = match raw.recording {
                    None => Ok(None),
                    Some(r) => match recording_spec(r) {
                        Err(e) => Err(e),
                        Ok(rc) => Ok(Some(rc)),
                    },
                };
                match recording {
                    Err(e) => Err(e),
                    Ok(recording) => match probes_spec(raw.probe, defaults) {
                        Err(e) => Err(e),
                        Ok(probes) => Ok(AppConfigView { server_bind, recording, probes }),
                    },
                }
            },
        },
    }
}

fn build_probe_configs(entries: &Vec<(String, RawProbe)>, defaults: &EffectiveDefaults) -> (res: Result<
    Vec<ProbeConfig>,
    ConfigError,
>)
    ensures
        match res {
            Ok(ps) => probes_spec(
                entries@.map_values(|e: (String, RawProbe)| (e.0@, e.1@)),
                defaults@,
            ) == Ok::<Seq<ProbeConfigView>, ConfigErrorView>(ps@.map_values(|p: ProbeConfig| p@)),
            Err(e) => probes_spec(
                entries@.map_values(|e: (String, RawProbe)| (e.0@, e.1@)),
                defaults@,
            ) == Err::<Seq<ProbeConfigView>, ConfigErrorView>(e@),
        },
{
    let ghost all = entries@.map_values(|e: (String, RawProbe)| (e.0@, e.1@));
    let mut probes: Vec<ProbeConfig> = Vec::new();
    let mut i: usize = 0;
    assert(all.take(0) =~= Seq::<(Seq<char>, RawProbeView)>::empty());
    assert(probes@.map_values(|p: ProbeConfig| p@) =~= Seq::<ProbeConfigView>::empty());
    while i < entries.len()
        invariant
            i <= entries.len(),
            all == entries@.map_values(|e: (String, RawProbe)| (e.0@, e.1@)),
            probes_spec(all.take(i as int), defaults@) == Ok::<
                Seq<ProbeConfigView>,
                ConfigErrorView,
            >(probes@.map_values(|p: ProbeConfig| p@)),
        decreases entries.len() - i,
    {
        let (id, raw_probe) = &entries[i];
        let built = build_probe_config(id, raw_probe, defaults);
        assert(all.take(i + 1).drop_last() =~= all.take(i as int));
        assert(all.take(i + 1).last() == all[i as int]);
        match built {
            Ok(p) => {
                let ghost before = probes@;
                probes.push(p);
                assert(probes@.map_values(|p: ProbeConfig| p@) =~= before.map_values(
                    |p: ProbeConfig| p@,
                ).push(p@));
            },
            Err(e) => {
                proof {
                    lemma_probes_spec_err_prefix(all, defaults@, i + 1, e@);
                }
                assert(all.take(entries@.len() as int) =~= all);
                return Err(e);
            },
        }
        i = i + 1;
    }
    assert(all.take(entries@.len() as int) =~= all);
    Ok(probes)
}

/// Once a prefix of the probe blocks is refused, so is every longer prefix.
proof fn lemma_probes_spec_err_prefix(
    all: Seq<(Seq<char>, RawProbeView)>,
    defaults: EffectiveDefaultsView,
    k: int,
    e: ConfigErrorView,
)
    requires
        0 <= k <= all.len(),
        probes_spec(all.take(k), defaults) == Err::<Seq<ProbeConfigView>, ConfigErrorView>(e),
    ensures
        probes_spec(all, defaults) == Err::<Seq<ProbeConfigView>, ConfigErrorView>(e),
    decreases all.len() - k,
{
    if k < all.len() {
        assert(all.take(k + 1).drop_last() =~= all.take(k));
        lemma_probes_spec_err_prefix(all, defaults, k + 1, e);
    } else {
        assert(all.take(k) =~= all);
    }
}

/// Validate a raw configuration.
pub fn config_from_raw(raw: &RawConfig) -> (res: Result<AppConfig, ConfigError>)
    ensures
        outcome(res) == app_config_spec(raw@),
        res matches Ok(c) ==> probe_ids_ascending(c@.probes),
{
    proof {
        use_type_invariant(&raw.probe);
        if app_config_spec(raw@) is Ok {
            law_loaded_probe_ids_ascending(raw@);
        }
    }
    let defaults = match normalize_defaults(&raw.defaults) {
        Ok(d) => d,
        Err(e) => return Err(e),
    };
    let server_bind = match resolve_server_bind(&raw.server) {
        Ok(b) => b,
        Err(e) => return Err(e),
    };
    let recording = match &raw.recording {
        None => None,
        Some(r) => match build_recording_config(r) {
            Ok(rc) => Some(rc),
            Err(e) => return Err(e),
        },
    };
    let probes = match build_probe_configs(&raw.probe.entries, &defaults) {
        Ok(ps) => ps,
        Err(e) => return Err(e),
    };
    Ok(AppConfig { server_bind, recording, probes })
}

// ---------------------------------------------------------------------------
// Laws of the configuration
// ---------------------------------------------------------------------------

/// Without a `defaults` block, probes run every 5 seconds with a 2 second
/// timeout, and no kubeconfig or context is preset.
pub proof fn law_defaults_when_absent()
    ensures
        normalize_defaults_spec(None) == Ok::<EffectiveDefaultsView, ConfigErrorView>(
            EffectiveDefaultsView {
                every_seconds: 5,
                timeout_seconds: 2,
                kubeconfig: None,
                kube_context: None,
            },
        ),
{
}

/// A defaults block keeps its own positive period and timeout, and falls
/// back to 5 s and 2 s only where one is not given; a zero is refused,
/// the period first.
pub proof fn law_defaults_keep_given_values(d: RawDefaultsView)
    ensures
        d.every_seconds != Some(0u64) && d.timeout_seconds != Some(0u64) ==> {
            &&& normalize_defaults_spec(Some(d)) is Ok
            &&& normalize_defaults_spec(Some(d))->Ok_0.every_seconds == match d.every_seconds {
                Some(v) => v,
                None => 5,
            }
            &&& normalize_defaults_spec(Some(d))->Ok_0.timeout_seconds == match d.timeout_seconds {
                Some(v) => v,
                None => 2,
            }
            &&& normalize_defaults_spec(Some(d))->Ok_0.kubeconfig == d.kubeconfig
            &&& normalize_defaults_spec(Some(d))->Ok_0.kube_context == d.kube_context
        },
        d.every_seconds == Some(0u64) ==> normalize_defaults_spec(Some(d)) == refuse::<
            EffectiveDefaultsView,
        >(ConfigIssueView::DefaultNotPositive { field: DefaultField::EverySeconds }),
        d.every_seconds != Some(0u64) && d.timeout_seconds == Some(0u64) ==> normalize_defaults_spec(
            Some(d),
        ) == refuse::<EffectiveDefaultsView>(
            ConfigIssueView::DefaultNotPositive { field: DefaultField::TimeoutSeconds },
        ),
{
}

/// A probe keeps its own positive period and timeout; only where one is not
/// given does it take the defaults' value; a zero of its own is refused.
pub proof fn law_probe_keeps_own_times(id: Seq<char>, raw: RawProbeView, defaults: EffectiveDefaultsView)
    ensures
        probe_config_spec(id, raw, defaults) is Ok ==> {
            let p = probe_config_spec(id, raw, defaults)->Ok_0;
            &&& p.every_seconds == match raw_probe_seconds(raw).0 {
                Some(v) => v,
                None => defaults.every_seconds,
            }
            &&& p.timeout_seconds == match raw_probe_seconds(raw).1 {
                Some(v) => v,
                None => defaults.timeout_seconds,
            }
        },
        raw_probe_seconds(raw).0 == Some(0u64) ==> probe_config_spec(id, raw, defaults) == refuse::<
            ProbeConfigView,
        >(ConfigIssueView::ProbeEveryZero { probe_id: id }),
{
}

/// Each accepted probe is the accepted form of its own block.
proof fn lemma_probes_spec_elements(
    entries: Seq<(Seq<char>, RawProbeView)>,
    defaults: EffectiveDefaultsView,
    i: int,
)
    requires
        probes_spec(entries, defaults) is Ok,
        0 <= i < entries.len(),
    ensures
        probe_config_spec(entries[i].0, entries[i].1, defaults) is Ok,
        probes_spec(entries, defaults)->Ok_0.len() == entries.len(),
        probes_spec(entries, defaults)->Ok_0[i] == probe_config_spec(
            entries[i].0,
            entries[i].1,
            defaults,
        )->Ok_0,
    decreases entries.len(),
{
    if i < entries.len() - 1 {
        lemma_probes_spec_elements(entries.drop_last(), defaults, i);
        assert(entries.drop_last()[i] == entries[i]);
    } else if entries.len() > 1 {
        lemma_probes_spec_elements(entries.drop_last(), defaults, 0);
    }
}

/// In a loaded configuration, every probe's period is its block's own, or
/// else the defaults block's, or else 5 s; its timeout likewise, with 2 s.
pub proof fn law_loaded_probe_times(raw: RawConfigView, i: int)
    requires
        app_config_spec(raw) is Ok,
        0 <= i < raw.probe.len(),
    ensures
        app_config_spec(raw)->Ok_0.probes[i].every_seconds == match raw_probe_seconds(
            raw.probe[i].1,
        ).0 {
            Some(v) => v,
            None => match raw.defaults {
                Some(d) => match d.every_seconds {
                    Some(v) => v,
                    None => 5,
                },
                None => 5,
            },
        },
        app_config_spec(raw)->Ok_0.probes[i].timeout_seconds == match raw_probe_seconds(
            raw.probe[i].1,
        ).1 {
            Some(v) => v,
            None => match raw.defaults {
                Some(d) => match d.timeout_seconds {
                    Some(v) => v,
                    None => 2,
                },
                None => 2,
            },
        },
{
    let defaults = normalize_defaults_spec(raw.defaults)->Ok_0;
    lemma_probes_spec_elements(raw.probe, defaults, i);
    match raw.defaults {
        Some(d) => law_defaults_keep_given_values(d),
        None => {},
    }
    law_probe_keeps_own_times(raw.probe[i].0, raw.probe[i].1, defaults);
}

/// A probe without its own period or timeout takes those of the defaults.
pub proof fn law_probe_inherits_defaults(
    id: Seq<char>,
    raw: RawProbeView,
    defaults: EffectiveDefaultsView,
)
    requires
        probe_config_spec(id, raw, defaults) is Ok,
    ensures
        raw_probe_seconds(raw).0 is None ==> probe_config_spec(id, raw, defaults)->Ok_0.every_seconds
            == defaults.every_seconds,
        raw_probe_seconds(raw).1 is None ==> probe_config_spec(
            id,
            raw,
            defaults,
        )->Ok_0.timeout_seconds == defaults.timeout_seconds,
        probe_config_spec(id, raw, defaults)->Ok_0.id == id,
{
}

/// Every accepted probe has a positive period and timeout, and keeps the
/// id of its block, in the order of the blocks.
pub proof fn law_accepted_probes_are_timed(
    entries: Seq<(Seq<char>, RawProbeView)>,
    defaults: EffectiveDefaultsView,
)
    requires
        probes_spec(entries, defaults) is Ok,
    ensures
        probes_spec(entries, defaults)->Ok_0.len() == entries.len(),
        forall|i: int|
            0 <= i < entries.len() ==> {
                let p = #[trigger] probes_spec(entries, defaults)->Ok_0[i];
                &&& p.every_seconds > 0
                &&& p.timeout_seconds > 0
                &&& p.id == entries[i].0
            },
    decreases entries.len(),
{
    if entries.len() > 0 {
        law_accepted_probes_are_timed(entries.drop_last(), defaults);
        let done = probes_spec(entries.drop_last(), defaults)->Ok_0;
        assert forall|i: int| 0 <= i < entries.len() implies {
            let p = #[trigger] probes_spec(entries, defaults)->Ok_0[i];
            &&& p.every_seconds > 0
            &&& p.timeout_seconds > 0
            &&& p.id == entries[i].0
        } by {
            if i < entries.len() - 1 {
                assert(probes_spec(entries, defaults)->Ok_0[i] == done[i]);
                assert(entries.drop_last()[i] == entries[i]);
            }
        }
    }
}

/// The ids of the probes are strictly increasing.
pub open spec fn probe_ids_ascending(ps: Seq<ProbeConfigView>) -> bool {
    forall|i: int, j: int| 0 <= i < j < ps.len() ==> text_less(#[trigger] ps[i].id, #[trigger] ps[j].id)
}

/// A loaded configuration has one probe per probe block, with the block's
/// id, in strictly increasing order of the ids.
pub proof fn law_loaded_probe_ids_ascending(raw: RawConfigView)
    requires
        ids_ascending(raw.probe),
        app_config_spec(raw) is Ok,
    ensures
        app_config_spec(raw)->Ok_0.probes.len() == raw.probe.len(),
        forall|i: int|
            0 <= i < raw.probe.len() ==> #[trigger] app_config_spec(raw)->Ok_0.probes[i].id
                == raw.probe[i].0,
        probe_ids_ascending(app_config_spec(raw)->Ok_0.probes),
{
    let defaults = normalize_defaults_spec(raw.defaults)->Ok_0;
    law_accepted_probes_are_timed(raw.probe, defaults);
    let ps = app_config_spec(raw)->Ok_0.probes;
    assert(ps == probes_spec(raw.probe, defaults)->Ok_0);
    assert forall|i: int, j: int| 0 <= i < j < ps.len() implies text_less(
        #[trigger] ps[i].id,
        #[trigger] ps[j].id,
    ) by {
        assert(ps[i].id == raw.probe[i].0);
        assert(ps[j].id == raw.probe[j].0);
    }
}

/// An accepted recording block has an absolute output directory and a
/// shell that is not empty.
pub proof fn law_accepted_recording_is_usable(raw: RawRecordingView)
    requires
        recording_spec(raw) is Ok,
    ensures
        is_absolute_path(recording_spec(raw)->Ok_0.output_dir),
        recording_spec(raw)->Ok_0.real_shell.len() > 0,
        raw.real_shell is None ==> recording_spec(raw)->Ok_0.real_shell == "/bin/bash"@,
{
}

} // verus!
