//! Probe definitions, and what each probe reports from what it observed.
use vstd::prelude::*;
use crate::config::{
    DesiredPodState, PodCondition, PodPhase, PortProtocol, ProbeConfig, ProbeKindConfig,
    condition_name, desired_state_text, phase_name,
};
use crate::pattern::{
    CompiledRegex, compile_regex, group_view, groups_view, regex_accepts, regex_captures,
    regex_captures_of,
};
use crate::recording::{lossy_text, utf8_lossy};
use crate::text::{chars_of, contains_char, decimal, decimal_string, owned, string_from_chars};

verus! {

// ---------------------------------------------------------------------------
// Probe kinds, statuses and values
// ---------------------------------------------------------------------------

#[derive(Debug, Clone, Copy, PartialEq, Eq, Structural)]
pub enum ProbeKind {
    FileExists,
    FileRegexCapture,
    PortOpen,
    K8sPodState,
    CommandJsonPath,
}

#[derive(Debug, Clone, Copy, PartialEq, Eq, Structural)]
pub enum ProbeStatus {
    Unknown,
    Pass,
    Fail,
}

pub open spec fn strings_view(v: Seq<String>) -> Seq<Seq<char>> {
    v.map_values(|s: String| s@)
}

#[derive(Debug, Clone, PartialEq, Eq)]
pub struct FileExistsValue {
    pub path: String,
    pub exists: bool,
}

#[derive(Debug, Clone, PartialEq, Eq)]
pub struct FileRegexCaptureValue {
    pub path: String,
    pub pattern: String,
    pub matched: bool,
    pub full_match: String,
    pub captures: Vec<String>,
    pub file_content: String,
}

#[derive(Debug, Clone, PartialEq, Eq)]
pub struct PortOpenValue {
    pub host: String,
    pub port: u16,
    pub protocol: PortProtocol,
    pub open: bool,
    pub detail: String,
}

#[derive(Debug, Clone, PartialEq, Eq)]
pub struct K8sPodStateValue {
    pub namespace: String,
    pub selector: String,
    pub desired_state: String,
    pub matched_pods: u32,
    pub matching_pod_names: Vec<String>,
    pub state_satisfied: bool,
}

#[derive(Debug, Clone, PartialEq, Eq)]
pub struct CommandJsonPathValue {
    pub argv: Vec<String>,
    pub json_path: String,
    pub expected_json: String,
    pub matched: bool,
    pub matched_values: Vec<String>,
    pub stdout: String,
    pub stderr: String,
    pub exit_code: i32,
}

/// What a probe observed the last time it ran.
#[derive(Debug, Clone, PartialEq, Eq)]
pub enum ProbeValue {
    FileExists(FileExistsValue),
    FileRegexCapture(FileRegexCaptureValue),
    PortOpen(PortOpenValue),
    K8sPodState(K8sPodStateValue),
    CommandJsonPath(CommandJsonPathValue),
}

pub enum ProbeValueView {
    FileExists { path: Seq<char>, exists: bool },
    FileRegexCapture {
        path: Seq<char>,
        pattern: Seq<char>,
        matched: bool,
        full_match: Seq<char>,
        captures: Seq<Seq<char>>,
        file_content: Seq<char>,
    },
    PortOpen { host: Seq<char>, port: u16, protocol: PortProtocol, open: bool, detail: Seq<char> },
    K8sPodState {
        namespace: Seq<char>,
        selector: Seq<char>,
        desired_state: Seq<char>,
        matched_pods: u32,
        matching_pod_names: Seq<Seq<char>>,
        state_satisfied: bool,
    },
    CommandJsonPath {
        argv: Seq<Seq<char>>,
        json_path: Seq<char>,
        expected_json: Seq<char>,
        matched: bool,
        matched_values: Seq<Seq<char>>,
        stdout: Seq<char>,
        stderr: Seq<char>,
        exit_code: i32,
    },
}

impl View for ProbeValue {
    type V = ProbeValueView;

    open spec fn view(&self) -> ProbeValueView {
        match self {
            ProbeValue::FileExists(v) => ProbeValueView::FileExists {
                path: v.path@,
                exists: v.exists,
            },
            ProbeValue::FileRegexCapture(v) => ProbeValueView::FileRegexCapture {
                path: v.path@,
                pattern: v.pattern@,
                matched: v.matched,
                full_match: v.full_match@,
                captures: strings_view(v.captures@),
                file_content: v.file_content@,
            },
            ProbeValue::PortOpen(v) => ProbeValueView::PortOpen {
                host: v.host@,
                port: v.port,
                protocol: v.protocol,
                open: v.open,
                detail: v.detail@,
            },
            ProbeValue::K8sPodState(v) => ProbeValueView::K8sPodState {
                namespace: v.namespace@,
                selector: v.selector@,
                desired_state: v.desired_state@,
                matched_pods: v.matched_pods,
                matching_pod_names: strings_view(v.matching_pod_names@),
                state_satisfied: v.state_satisfied,
            },
            ProbeValue::CommandJsonPath(v) => ProbeValueView::CommandJsonPath {
                argv: strings_view(v.argv@),
                json_path: v.json_path@,
                expected_json: v.expected_json@,
                matched: v.matched,
                matched_values: strings_view(v.matched_values@),
                stdout: v.stdout@,
                stderr: v.stderr@,
                exit_code: v.exit_code,
            },
        }
    }
}

/// The outcome of one run of a probe.
#[derive(Debug, Clone, PartialEq, Eq)]
pub struct ProbeRunResult {
    pub status: ProbeStatus,
    pub value: ProbeValue,
    pub error: Option<String>,
}

pub struct ProbeRunResultView {
    pub status: ProbeStatus,
    pub value: ProbeValueView,
    pub error: Option<Seq<char>>,
}

impl View for ProbeRunResult {
    type V = ProbeRunResultView;

    open spec fn view(&self) -> ProbeRunResultView {
        ProbeRunResultView {
            status: self.status,
            value: self.value@,
            error: match self.error {
                Some(e) => Some(e@),
                None => None,
            },
        }
    }
}

/// The text of a path, as the probe reports it.
pub fn path_string(path: &str) -> (res: String)
    ensures
        res@ == path@,
{
    owned(path)
}

/// `value` as a `u32`, or `u32::MAX` where it does not fit.
pub fn saturating_u32(value: usize) -> (res: u32)
    ensures
        res == (if value <= u32::MAX { value as u32 } else { u32::MAX }),
{
    if value <= 4294967295usize {
        value as u32
    } else {
        4294967295u32
    }
}

// ---------------------------------------------------------------------------
// Probes
// ---------------------------------------------------------------------------

pub struct FileExistsProbe {
    pub path: String,
}

pub struct FileRegexCaptureProbe {
    pub path: String,
    pub pattern: String,
    pub regex: CompiledRegex,
}

pub struct PortOpenProbe {
    pub host: String,
    pub port: u16,
    pub protocol: PortProtocol,
}

pub struct K8sPodStateProbe {
    pub namespace: String,
    pub selector: String,
    pub desired_state: DesiredPodState,
}

pub enum ProbeRunner {
    FileExists(FileExistsProbe),
    FileRegexCapture(FileRegexCaptureProbe),
    PortOpen(PortOpenProbe),
    K8sPodState(K8sPodStateProbe),
}

/// A probe ready to run: what it checks, how often and for how long.
pub struct ProbeDefinition {
    pub id: String,
    pub kind: ProbeKind,
    pub every_seconds: u64,
    pub timeout_seconds: u64,
    pub runner: ProbeRunner,
}

/// The value a probe reports before it has run.
pub open spec fn initial_value_spec(runner: ProbeRunner) -> ProbeValueView {
    match runner {
        ProbeRunner::FileExists(p) => ProbeValueView::FileExists { path: p.path@, exists: false },
        ProbeRunner::FileRegexCapture(p) => ProbeValueView::FileRegexCapture {
            path: p.path@,
            pattern: p.pattern@,
            matched: false,
            full_match: Seq::empty(),
            captures: Seq::empty(),
            file_content: Seq::empty(),
        },
        ProbeRunner::PortOpen(p) => ProbeValueView::PortOpen {
            host: p.host@,
            port: p.port,
            protocol: p.protocol,
            open: false,
            detail: Seq::empty(),
        },
        ProbeRunner::K8sPodState(p) => ProbeValueView::K8sPodState {
            namespace: p.namespace@,
            selector: p.selector@,
            desired_state: desired_state_text(p.desired_state),
            matched_pods: 0,
            matching_pod_names: Seq::empty(),
            state_satisfied: false,
        },
    }
}

fn empty_strings() -> (res: Vec<String>)
    ensures
        strings_view(res@) == Seq::<Seq<char>>::empty(),
{
    let v: Vec<String> = Vec::new();
    assert(strings_view(v@) =~= Seq::<Seq<char>>::empty());
    v
}

impl ProbeRunner {
    /// The value reported before the first run: nothing found yet.
    pub fn initial_value(&self) -> (res: ProbeValue)
        ensures
            res@ == initial_value_spec(*self),
    {
        match self {
            ProbeRunner::FileExists(probe) => ProbeValue::FileExists(
                FileExistsValue { path: path_string(probe.path.as_str()), exists: false },
            ),
            ProbeRunner::FileRegexCapture(probe) => ProbeValue::FileRegexCapture(
                FileRegexCaptureValue {
                    path: path_string(probe.path.as_str()),
                    pattern: probe.pattern.clone(),
                    matched: false,
                    full_match: String::new(),
                    captures: empty_strings(),
                    file_content: String::new(),
                },
            ),
            ProbeRunner::PortOpen(probe) => ProbeValue::PortOpen(
                PortOpenValue {
                    host: probe.host.clone(),
                    port: probe.port,
                    protocol: probe.protocol,
                    open: false,
                    detail: String::new(),
                },
            ),
            ProbeRunner::K8sPodState(probe) => ProbeValue::K8sPodState(
                K8sPodStateValue {
                    namespace: probe.namespace.clone(),
                    selector: probe.selector.clone(),
                    desired_state: owned(probe.desired_state.as_str()),
                    matched_pods: 0,
                    matching_pod_names: empty_strings(),
                    state_satisfied: false,
                },
            ),
        }
    }
}

impl ProbeDefinition {
    pub fn id(&self) -> (res: &str)
        ensures
            res@ == self.id@,
    {
        self.id.as_str()
    }

    pub fn kind(&self) -> (res: ProbeKind)
        ensures
            res == self.kind,
    {
        self.kind
    }

    pub fn every_seconds(&self) -> (res: u64)
        ensures
            res == self.every_seconds,
    {
        self.every_seconds
    }

    pub fn timeout_seconds(&self) -> (res: u64)
        ensures
            res == self.timeout_seconds,
    {
        self.timeout_seconds
    }

    pub fn initial_value(&self) -> (res: ProbeValue)
        ensures
            res@ == initial_value_spec(self.runner),
    {
        self.runner.initial_value()
    }
}

// ---------------------------------------------------------------------------
// Building probes from their configuration
// ---------------------------------------------------------------------------

/// Why a probe could not be built.
pub enum ProbeBuildError {
    InvalidRegex { probe_id: String, pattern: String, source: regex::Error },
}

/// The kind of probe a configuration describes.
pub open spec fn config_kind(kind: ProbeKindConfig) -> ProbeKind {
    match kind {
        ProbeKindConfig::FileExists { .. } => ProbeKind::FileExists,
        ProbeKindConfig::FileRegexCapture { .. } => ProbeKind::FileRegexCapture,
        ProbeKindConfig::PortOpen { .. } => ProbeKind::PortOpen,
        ProbeKindConfig::K8sPodState { .. } => ProbeKind::K8sPodState,
    }
}

/// The probe runs what its configuration describes.
pub open spec fn runner_matches(runner: ProbeRunner, kind: ProbeKindConfig) -> bool {
    match (runner, kind) {
        (ProbeRunner::FileExists(p), ProbeKindConfig::FileExists { path }) => p.path@ == path@,
        (
            ProbeRunner::FileRegexCapture(p),
            ProbeKindConfig::FileRegexCapture { path, pattern },
        ) => p.path@ == path@ && p.pattern@ == pattern@ && p.regex@ == pattern@,
        (ProbeRunner::PortOpen(p), ProbeKindConfig::PortOpen { host, port, protocol }) => {
            p.host@ == host@ && p.port == port && p.protocol == protocol
        },
        (
            ProbeRunner::K8sPodState(p),
            ProbeKindConfig::K8sPodState { namespace, selector, desired_state, .. },
        ) => p.namespace@ == namespace@ && p.selector@ == selector@ && p.desired_state
            == desired_state,
        _ => false,
    }
}

/// Build a probe from its configuration. Only a regular expression that
/// `regex` refuses stops the build; a Kubernetes probe gets its client
/// from the caller.
pub fn build_probe(config: &ProbeConfig) -> (res: Result<ProbeDefinition, ProbeBuildError>)
    ensures
        match res {
            Ok(def) => {
                &&& def.id@ == config.id@
                &&& def.kind == config_kind(config.kind)
                &&& def.every_seconds == config.every_seconds
                &&& def.timeout_seconds == config.timeout_seconds
                &&& runner_matches(def.runner, config.kind)
                &&& (config.kind matches ProbeKindConfig::FileRegexCapture { pattern, .. }
                    ==> regex_accepts(pattern@))
            },
            Err(ProbeBuildError::InvalidRegex { probe_id, pattern: p, .. }) => {
                &&& config.kind matches ProbeKindConfig::FileRegexCapture { pattern, .. }
                &&& !regex_accepts(pattern@)
                &&& p@ == pattern@
                &&& probe_id@ == config.id@
            },
        },
{
    let runner = match &config.kind {
        ProbeKindConfig::FileExists { path } => ProbeRunner::FileExists(
            FileExistsProbe { path: path.clone() },
        ),
        ProbeKindConfig::FileRegexCapture { path, pattern } => {
            match FileRegexCaptureProbe::new(path.clone(), pattern.clone()) {
                Ok(probe) => ProbeRunner::FileRegexCapture(probe),
                Err(source) => {
                    return Err(
                        ProbeBuildError::InvalidRegex {
                            probe_id: config.id.clone(),
                            pattern: pattern.clone(),
                            source,
                        },
                    );
                },
            }
        },
        ProbeKindConfig::PortOpen { host, port, protocol } => ProbeRunner::PortOpen(
            PortOpenProbe { host: host.clone(), port: *port, protocol: *protocol },
        ),
        ProbeKindConfig::K8sPodState { namespace, selector, desired_state, .. } =>
            ProbeRunner::K8sPodState(
            K8sPodStateProbe {
                namespace: namespace.clone(),
                selector: selector.clone(),
                desired_state: *desired_state,
            },
        ),
    };
    let kind = match &config.kind {
        ProbeKindConfig::FileExists { .. } => ProbeKind::FileExists,
        ProbeKindConfig::FileRegexCapture { .. } => ProbeKind::FileRegexCapture,
        ProbeKindConfig::PortOpen { .. } => ProbeKind::PortOpen,
        ProbeKindConfig::K8sPodState { .. } => ProbeKind::K8sPodState,
    };
    Ok(
        ProbeDefinition {
            id: config.id.clone(),
            kind,
            every_seconds: config.every_seconds,
            timeout_seconds: config.timeout_seconds,
            runner,
        },
    )
}

// ---------------------------------------------------------------------------
// What each probe reports from what it observed
// ---------------------------------------------------------------------------

/// A failure result that carries the given error text.
pub open spec fn failed(value: ProbeValueView, error: Seq<char>) -> ProbeRunResultView {
    ProbeRunResultView { status: ProbeStatus::Fail, value, error: Some(error) }
}

/// What looking up a path found.
pub enum FileLookup {
    Found,
    NotFound,
    Failed(String),
}

/// Are the two texts equal?
pub fn str_eq(a: &str, b: &str) -> (res: bool)
    ensures
        res == (a@ == b@),
{
    let av = chars_of(a);
    crate::text::chars_eq_str(av.as_slice(), b)
}

impl FileExistsProbe {
    /// The result of a lookup: a pass when the path exists, a failure when it
    /// does not, and a failure with the error text when the lookup failed.
    pub fn observe(&self, lookup: FileLookup) -> (res: ProbeRunResult)
        ensures
            res@ == match lookup {
                FileLookup::Found => ProbeRunResultView {
                    status: ProbeStatus::Pass,
                    value: ProbeValueView::FileExists { path: self.path@, exists: true },
                    error: None,
                },
                FileLookup::NotFound => ProbeRunResultView {
                    status: ProbeStatus::Fail,
                    value: ProbeValueView::FileExists { path: self.path@, exists: false },
                    error: None,
                },
                FileLookup::Failed(e) => failed(
                    ProbeValueView::FileExists { path: self.path@, exists: false },
                    e@,
                ),
            },
    {
        match lookup {
            FileLookup::Found => ProbeRunResult {
                status: ProbeStatus::Pass,
                value: ProbeValue::FileExists(
                    FileExistsValue { path: path_string(self.path.as_str()), exists: true },
                ),
                error: None,
            },
            FileLookup::NotFound => ProbeRunResult {
                status: ProbeStatus::Fail,
                value: ProbeValue::FileExists(
                    FileExistsValue { path: path_string(self.path.as_str()), exists: false },
                ),
                error: None,
            },
            FileLookup::Failed(e) => ProbeRunResult {
                status: ProbeStatus::Fail,
                value: ProbeValue::FileExists(
                    FileExistsValue { path: path_string(self.path.as_str()), exists: false },
                ),
                error: Some(e),
            },
        }
    }
}

/// The text of a capture group, empty where the group took no part.
pub open spec fn group_text(g: Option<Seq<char>>) -> Seq<char> {
    match g {
        Some(s) => s,
        None => Seq::empty(),
    }
}

/// What a regular-expression probe reports for the capture groups found in
/// the file's text: on a match, the whole match and the text of every other
/// group; otherwise no match.
pub open spec fn capture_outcome_spec(
    path: Seq<char>,
    pattern: Seq<char>,
    file_content: Seq<char>,
    groups: Option<Seq<Option<Seq<char>>>>,
) -> ProbeRunResultView {
    match groups {
        Some(g) => ProbeRunResultView {
            status: ProbeStatus::Pass,
            value: ProbeValueView::FileRegexCapture {
                path,
                pattern,
                matched: true,
                full_match: group_text(g[0]),
                captures: g.skip(1).map_values(|x: Option<Seq<char>>| group_text(x)),
                file_content,
            },
            error: None,
        },
        None => ProbeRunResultView {
            status: ProbeStatus::Fail,
            value: ProbeValueView::FileRegexCapture {
                path,
                pattern,
                matched: false,
                full_match: Seq::empty(),
                captures: Seq::empty(),
                file_content,
            },
            error: None,
        },
    }
}

fn group_string(g: &Option<String>) -> (res: String)
    ensures
        res@ == group_text(group_view(*g)),
{
    match g {
        Some(s) => s.clone(),
        None => String::new(),
    }
}

/// The result for a file whose text is `file_content` and whose capture
/// groups are `groups` (`None`: no match).
pub fn capture_outcome(
    path: &str,
    pattern: &str,
    file_content: String,
    groups: Option<Vec<Option<String>>>,
) -> (res: ProbeRunResult)
    requires
        groups matches Some(g) ==> g@.len() >= 1,
    ensures
        res@ == capture_outcome_spec(path@, pattern@, file_content@, groups_view(groups)),
{
    match groups {
        Some(g) => {
            let full_match = group_string(&g[0]);
            let mut captures: Vec<String> = Vec::new();
            let ghost gv = g@.map_values(|x: Option<String>| group_view(x));
            let mut i: usize = 1;
            while i < g.len()
                invariant
                    1 <= i <= g@.len(),
                    gv == g@.map_values(|x: Option<String>| group_view(x)),
                    strings_view(captures@) == gv.subrange(1, i as int).map_values(
                        |x: Option<Seq<char>>| group_text(x),
                    ),
                decreases g.len() - i,
            {
                let t = group_string(&g[i]);
                let ghost before = captures@;
                captures.push(t);
                assert(strings_view(captures@) =~= strings_view(before).push(t@));
                assert(gv.subrange(1, i + 1).map_values(|x: Option<Seq<char>>| group_text(x))
                    =~= gv.subrange(1, i as int).map_values(|x: Option<Seq<char>>| group_text(x)).push(
                    group_text(gv[i as int]),
                ));
                i = i + 1;
            }
            assert(gv.subrange(1, gv.len() as int) =~= gv.skip(1));
            ProbeRunResult {
                status: ProbeStatus::Pass,
                value: ProbeValue::FileRegexCapture(
                    FileRegexCaptureValue {
                        path: path_string(path),
                        pattern: owned(pattern),
                        matched: true,
                        full_match,
                        captures,
                        file_content,
                    },
                ),
                error: None,
            }
        },
        None => ProbeRunResult {
            status: ProbeStatus::Fail,
            value: ProbeValue::FileRegexCapture(
                FileRegexCaptureValue {
                    path: path_string(path),
                    pattern: owned(pattern),
                    matched: false,
                    full_match: String::new(),
                    captures: empty_strings(),
                    file_content,
                },
            ),
            error: None,
        },
    }
}

impl FileRegexCaptureProbe {
    /// A probe of the file at `path` with the expression `pattern`; refused
    /// where `regex` refuses the pattern.
    pub fn new(path: String, pattern: String) -> (res: Result<FileRegexCaptureProbe, regex::Error>)
        ensures
            res is Ok <==> regex_accepts(pattern@),
            res matches Ok(p) ==> p.path@ == path@ && p.pattern@ == pattern@ && p.regex@
                == pattern@,
    {
        match compile_regex(pattern.as_str()) {
            Ok(regex) => Ok(FileRegexCaptureProbe { path, pattern, regex }),
            Err(error) => Err(error),
        }
    }

    /// The result of reading the file: a failure with the error text when
    /// it could not be read; otherwise the bytes are decoded lossily and the
    /// expression is run over the text, and the probe passes when it matches.
    pub fn observe(&self, read: Result<Vec<u8>, String>) -> (res: ProbeRunResult)
        ensures
            match read {
                Err(e) => res@ == failed(
                    ProbeValueView::FileRegexCapture {
                        path: self.path@,
                        pattern: self.pattern@,
                        matched: false,
                        full_match: Seq::empty(),
                        captures: Seq::empty(),
                        file_content: Seq::empty(),
                    },
                    e@,
                ),
                Ok(bytes) => res@ == capture_outcome_spec(
                    self.path@,
                    self.pattern@,
                    utf8_lossy(bytes@),
                    regex_captures_of(self.regex@, utf8_lossy(bytes@)),
                ),
            },
    {
        match read {
            Err(e) => ProbeRunResult {
                status: ProbeStatus::Fail,
                value: ProbeValue::FileRegexCapture(
                    FileRegexCaptureValue {
                        path: path_string(self.path.as_str()),
                        pattern: self.pattern.clone(),
                        matched: false,
                        full_match: String::new(),
                        captures: empty_strings(),
                        file_content: String::new(),
                    },
                ),
                error: Some(e),
            },
            Ok(bytes) => {
                let file_content = lossy_text(bytes.as_slice());
                let groups = regex_captures(&self.regex, file_content.as_str());
                capture_outcome(self.path.as_str(), self.pattern.as_str(), file_content, groups)
            },
        }
    }
}

/// The text reported after a successful TCP connection.
pub open spec fn tcp_success_detail() -> Seq<char> {
    "TCP connect succeeded"@
}

/// The text reported after a successful UDP send of `n` bytes.
pub open spec fn udp_success_detail(n: nat) -> Seq<char> {
    "UDP datagram send succeeded ("@ + decimal(n) + " bytes)"@
}

fn concat3(a: &str, b: &str, c: &str) -> (res: String)
    ensures
        res@ == a@ + b@ + c@,
{
    let mut v = chars_of(a);
    let mut w = chars_of(b);
    let mut x = chars_of(c);
    v.append(&mut w);
    v.append(&mut x);
    string_from_chars(v.as_slice())
}

impl PortOpenProbe {
    pub open spec fn port_value(&self, open: bool, detail: Seq<char>) -> ProbeValueView {
        ProbeValueView::PortOpen {
            host: self.host@,
            port: self.port,
            protocol: self.protocol,
            open,
            detail,
        }
    }

    fn value(&self, open: bool, detail: String) -> (res: ProbeValue)
        ensures
            res@ == self.port_value(open, detail@),
    {
        ProbeValue::PortOpen(
            PortOpenValue {
                host: self.host.clone(),
                port: self.port,
                protocol: self.protocol,
                open,
                detail,
            },
        )
    }

    /// The result of a TCP connection attempt.
    pub fn tcp_outcome(&self, connect: Result<(), String>) -> (res: ProbeRunResult)
        ensures
            res@ == match connect {
                Ok(_) => ProbeRunResultView {
                    status: ProbeStatus::Pass,
                    value: self.port_value(true, tcp_success_detail()),
                    error: None,
                },
                Err(e) => failed(self.port_value(false, Seq::empty()), e@),
            },
    {
        match connect {
            Ok(()) => ProbeRunResult {
                status: ProbeStatus::Pass,
                value: self.value(true, owned("TCP connect succeeded")),
                error: None,
            },
            Err(e) => ProbeRunResult {
                status: ProbeStatus::Fail,
                value: self.value(false, String::new()),
                error: Some(e),
            },
        }
    }

    /// The local address a UDP probe binds: the IPv6 wildcard when the host
    /// contains a colon, the IPv4 wildcard otherwise.
    pub fn udp_bind_address(&self) -> (res: &'static str)
        ensures
            res@ == (if self.host@.contains(':') { "[::]:0"@ } else { "0.0.0.0:0"@ }),
    {
        if contains_char(self.host.as_str(), ':') {
            "[::]:0"
        } else {
            "0.0.0.0:0"
        }
    }

    /// The host and port that a TCP probe connects to and a UDP probe sends to.
    pub fn target(&self) -> (res: (&str, u16))
        ensures
            res.0@ == self.host@,
            res.1 == self.port,
    {
        (self.host.as_str(), self.port)
    }

    /// The datagram that a UDP probe sends: the four bytes of `kino`.
    pub fn udp_payload(&self) -> (res: Vec<u8>)
        ensures
            res@ == seq![0x6bu8, 0x69u8, 0x6eu8, 0x6fu8],
    {
        vec![0x6bu8, 0x69u8, 0x6eu8, 0x6fu8]
    }

    /// The result of a UDP probe: the number of bytes sent, or the error of
    /// the first step (bind, connect, send) that failed.
    pub fn udp_outcome(&self, sent: Result<usize, String>) -> (res: ProbeRunResult)
        ensures
            res@ == match sent {
                Ok(n) => ProbeRunResultView {
                    status: ProbeStatus::Pass,
                    value: self.port_value(true, udp_success_detail(n as nat)),
                    error: None,
                },
                Err(e) => failed(self.port_value(false, Seq::empty()), e@),
            },
    {
        match sent {
            Ok(n) => {
                let count = decimal_string(n as u64);
                let detail = concat3(
                    "UDP datagram send succeeded (",
                    count.as_str(),
                    " bytes)",
                );
                ProbeRunResult {
                    status: ProbeStatus::Pass,
                    value: self.value(true, detail),
                    error: None,
                }
            },
            Err(e) => ProbeRunResult {
                status: ProbeStatus::Fail,
                value: self.value(false, String::new()),
                error: Some(e),
            },
        }
    }
}

// ---------------------------------------------------------------------------
// Kubernetes pods
// ---------------------------------------------------------------------------

/// One condition of a pod's status.
#[derive(Debug, Clone, PartialEq, Eq)]
pub struct PodConditionInfo {
    pub type_: String,
    pub status: String,
}

/// What the probe reads of a listed pod.
#[derive(Debug, Clone, PartialEq, Eq)]
pub struct PodInfo {
    pub name: Option<String>,
    pub phase: Option<String>,
    pub conditions: Option<Vec<PodConditionInfo>>,
}

pub open spec fn pod_matches_phase_spec(expected: PodPhase, pod: PodInfo) -> bool {
    match pod.phase {
        Some(p) => p@ == phase_name(expected),
        None => false,
    }
}

pub open spec fn condition_holds(c: PodConditionInfo, expected: PodCondition) -> bool {
    c.type_@ == condition_name(expected) && c.status@ == "True"@
}

pub open spec fn pod_matches_condition_spec(expected: PodCondition, pod: PodInfo) -> bool {
    match pod.conditions {
        Some(cs) => exists|i: int| 0 <= i < cs@.len() && #[trigger] condition_holds(cs@[i], expected),
        None => false,
    }
}

pub open spec fn pod_matches_spec(desired: DesiredPodState, pod: PodInfo) -> bool {
    match desired {
        DesiredPodState::Phase(p) => pod_matches_phase_spec(p, pod),
        DesiredPodState::Condition(c) => pod_matches_condition_spec(c, pod),
    }
}

pub open spec fn pod_name_spec(pod: PodInfo) -> Seq<char> {
    match pod.name {
        Some(n) => n@,
        None => "<unknown-pod-name>"@,
    }
}

/// The names of the pods in the desired state, in list order.
pub open spec fn matching_pod_names_spec(pods: Seq<PodInfo>, desired: DesiredPodState) -> Seq<Seq<char>>
    decreases pods.len(),
{
    if pods.len() == 0 {
        Seq::empty()
    } else {
        let rest = matching_pod_names_spec(pods.drop_last(), desired);
        if pod_matches_spec(desired, pods.last()) {
            rest.push(pod_name_spec(pods.last()))
        } else {
            rest
        }
    }
}

/// Is the pod in the given phase?
pub fn pod_matches_phase(expected_phase: PodPhase, pod: &PodInfo) -> (res: bool)
    ensures
        res == pod_matches_phase_spec(expected_phase, *pod),
{
    let expected = match expected_phase {
        PodPhase::Pending => "Pending",
        PodPhase::Running => "Running",
        PodPhase::Succeeded => "Succeeded",
        PodPhase::Failed => "Failed",
        PodPhase::Unknown => "Unknown",
    };
    match &pod.phase {
        Some(phase) => str_eq(phase.as_str(), expected),
        None => false,
    }
}

/// Does the pod have the given condition with status `True`?
pub fn pod_matches_condition(expected_condition: PodCondition, pod: &PodInfo) -> (res: bool)
    ensures
        res == pod_matches_condition_spec(expected_condition, *pod),
{
    let expected = match expected_condition {
        PodCondition::Ready => "Ready",
        PodCondition::ContainersReady => "ContainersReady",
        PodCondition::Initialized => "Initialized",
        PodCondition::PodScheduled => "PodScheduled",
    };
    match &pod.conditions {
        None => false,
        Some(conditions) => {
            let mut i: usize = 0;
            while i < conditions.len()
                invariant
                    i <= conditions@.len(),
                    pod.conditions matches Some(cs) && cs@ == conditions@,
                    expected@ == condition_name(expected_condition),
                    forall|k: int| 0 <= k < i ==> !condition_holds(conditions@[k], expected_condition),
                decreases conditions.len() - i,
            {
                let c = &conditions[i];
                if str_eq(c.type_.as_str(), expected) && str_eq(c.status.as_str(), "True") {
                    assert(condition_holds(conditions@[i as int], expected_condition));
                    return true;
                }
                i = i + 1;
            }
            false
        },
    }
}

/// Is the pod in the desired state?
pub fn pod_matches_desired_state(desired_state: &DesiredPodState, pod: &PodInfo) -> (res: bool)
    ensures
        res == pod_matches_spec(*desired_state, *pod),
{
    match desired_state {
        DesiredPodState::Phase(p) => pod_matches_phase(*p, pod),
        DesiredPodState::Condition(c) => pod_matches_condition(*c, pod),
    }
}

/// The pod's name, or a placeholder where it has none.
pub fn pod_name(pod: &PodInfo) -> (res: String)
    ensures
        res@ == pod_name_spec(*pod),
{
    match &pod.name {
        Some(n) => n.clone(),
        None => owned("<unknown-pod-name>"),
    }
}

impl K8sPodStateProbe {
    pub open spec fn pod_value(
        &self,
        matched_pods: u32,
        names: Seq<Seq<char>>,
        satisfied: bool,
    ) -> ProbeValueView {
        ProbeValueView::K8sPodState {
            namespace: self.namespace@,
            selector: self.selector@,
            desired_state: desired_state_text(self.desired_state),
            matched_pods,
            matching_pod_names: names,
            state_satisfied: satisfied,
        }
    }

    /// The result of listing the pods that the selector selects: a failure
    /// with the error text when the list failed; otherwise the number of
    /// listed pods (saturated to `u32`), the names of those in the desired
    /// state, and a pass exactly when there is at least one.
    pub fn observe(&self, listed: Result<Vec<PodInfo>, String>) -> (res: ProbeRunResult)
        ensures
            res@ == match listed {
                Err(e) => failed(self.pod_value(0, Seq::empty(), false), e@),
                Ok(pods) => {
                    let names = matching_pod_names_spec(pods@, self.desired_state);
                    ProbeRunResultView {
                        status: if names.len() > 0 {
                            ProbeStatus::Pass
                        } else {
                            ProbeStatus::Fail
                        },
                        value: self.pod_value(
                            if pods@.len() <= u32::MAX {
                                pods@.len() as u32
                            } else {
                                u32::MAX
                            },
                            names,
                            names.len() > 0,
                        ),
                        error: None,
                    }
                },
            },
    {
        match listed {
            Err(e) => ProbeRunResult {
                status: ProbeStatus::Fail,
                value: ProbeValue::K8sPodState(
                    K8sPodStateValue {
                        namespace: self.namespace.clone(),
                        selector: self.selector.clone(),
                        desired_state: owned(self.desired_state.as_str()),
                        matched_pods: 0,
                        matching_pod_names: empty_strings(),
                        state_satisfied: false,
                    },
                ),
                error: Some(e),
            },
            Ok(pods) => {
                let total_pods = saturating_u32(pods.len());
                let mut names: Vec<String> = Vec::new();
                let mut i: usize = 0;
                assert(pods@.take(0) =~= Seq::<PodInfo>::empty());
                assert(strings_view(names@) =~= Seq::<Seq<char>>::empty());
                while i < pods.len()
                    invariant
                        i <= pods@.len(),
                        strings_view(names@) == matching_pod_names_spec(
                            pods@.take(i as int),
                            self.desired_state,
                        ),
                    decreases pods.len() - i,
                {
                    assert(pods@.take(i + 1).drop_last() =~= pods@.take(i as int));
                    assert(pods@.take(i + 1).last() == pods@[i as int]);
                    if pod_matches_desired_state(&self.desired_state, &pods[i]) {
                        let name = pod_name(&pods[i]);
                        let ghost before = names@;
                        names.push(name);
                        assert(strings_view(names@) =~= strings_view(before).push(name@));
                    }
                    i = i + 1;
                }
                assert(pods@.take(pods@.len() as int) =~= pods@);
                let state_satisfied = names.len() > 0;
                ProbeRunResult {
                    status: if state_satisfied {
                        ProbeStatus::Pass
                    } else {
                        ProbeStatus::Fail
                    },
                    value: ProbeValue::K8sPodState(
                        K8sPodStateValue {
                            namespace: self.namespace.clone(),
                            selector: self.selector.clone(),
                            desired_state: owned(self.desired_state.as_str()),
                            matched_pods: total_pods,
                            matching_pod_names: names,
                            state_satisfied,
                        },
                    ),
                    error: None,
                }
            },
        }
    }
}

/// A pod is in a condition exactly when its condition list has, at any
/// position, an entry of that condition's type with status `True`; a pod
/// is in a phase exactly when its phase is that phase's name.
pub proof fn law_pod_state_match(desired: DesiredPodState, pod: PodInfo)
    ensures
        desired matches DesiredPodState::Condition(c) ==> (pod_matches_spec(desired, pod) <==> (
        pod.conditions matches Some(cs) && exists|i: int|
            0 <= i < cs@.len() && (#[trigger] cs@[i]).type_@ == condition_name(c) && cs@[i].status@
                == "True"@)),
        desired matches DesiredPodState::Phase(p) ==> (pod_matches_spec(desired, pod) <==> (
        pod.phase matches Some(x) && x@ == phase_name(p))),
{
    match desired {
        DesiredPodState::Condition(c) => {
            if let Some(cs) = pod.conditions {
                if exists|i: int|
                    0 <= i < cs@.len() && (#[trigger] cs@[i]).type_@ == condition_name(c)
                        && cs@[i].status@ == "True"@ {
                    let i = choose|i: int|
                        0 <= i < cs@.len() && (#[trigger] cs@[i]).type_@ == condition_name(c)
                            && cs@[i].status@ == "True"@;
                    assert(condition_holds(cs@[i], c));
                }
            }
        },
        DesiredPodState::Phase(_) => {},
    }
}

/// A condition entry that matches keeps matching whatever entries come
/// before or after it: adding entries to a pod's condition list never makes
/// a pod in the condition stop being in it.
pub proof fn law_condition_match_survives_more_entries(
    c: PodCondition,
    name: Option<String>,
    phase: Option<String>,
    cs: Vec<PodConditionInfo>,
    more: Vec<PodConditionInfo>,
)
    requires
        more@.len() >= cs@.len(),
        exists|d: int| 0 <= d <= more@.len() - cs@.len() && #[trigger] more@.subrange(d, d + cs@.len()) == cs@,
        pod_matches_condition_spec(c, (PodInfo { name, phase, conditions: Some(cs) })),
    ensures
        pod_matches_condition_spec(c, (PodInfo { name, phase, conditions: Some(more) })),
{
    let d = choose|d: int| 0 <= d <= more@.len() - cs@.len() && #[trigger] more@.subrange(d, d + cs@.len()) == cs@;
    let i = choose|i: int| 0 <= i < cs@.len() && #[trigger] condition_holds(cs@[i], c);
    assert(more@[d + i] == more@.subrange(d, d + cs@.len())[i]);
    assert(condition_holds(more@[d + i], c));
    let pod = PodInfo { name, phase, conditions: Some(more) };
    assert(pod.conditions matches Some(m) && m@ == more@ && 0 <= d + i < m@.len() && condition_holds(
        m@[d + i],
        c,
    ));
}

/// A built probe checks what its configuration says: the same path, the
/// same pattern, the same host, port and protocol, the same namespace,
/// selector and desired state.
pub proof fn law_built_runner_keeps_configuration(runner: ProbeRunner, kind: ProbeKindConfig)
    requires
        runner_matches(runner, kind),
    ensures
        kind matches ProbeKindConfig::FileExists { path } ==> runner matches ProbeRunner::FileExists(
            p,
        ) && p.path@ == path@,
        kind matches ProbeKindConfig::FileRegexCapture { path, pattern }
            ==> runner matches ProbeRunner::FileRegexCapture(p) && p.path@ == path@ && p.pattern@
            == pattern@ && p.regex@ == pattern@,
        kind matches ProbeKindConfig::PortOpen { host, port, protocol }
            ==> runner matches ProbeRunner::PortOpen(p) && p.host@ == host@ && p.port == port
            && p.protocol == protocol,
        kind matches ProbeKindConfig::K8sPodState { namespace, selector, desired_state, .. }
            ==> runner matches ProbeRunner::K8sPodState(p) && p.namespace@ == namespace@
            && p.selector@ == selector@ && p.desired_state == desired_state,
{
}

/// A pod probe passes exactly when some listed pod is in the desired state.
pub proof fn law_pod_probe_passes_iff_some_pod_matches(pods: Seq<PodInfo>, desired: DesiredPodState)
    ensures
        matching_pod_names_spec(pods, desired).len() > 0 <==> exists|i: int|
            0 <= i < pods.len() && #[trigger] pod_matches_spec(desired, pods[i]),
    decreases pods.len(),
{
    if pods.len() > 0 {
        law_pod_probe_passes_iff_some_pod_matches(pods.drop_last(), desired);
        if exists|i: int| 0 <= i < pods.len() && #[trigger] pod_matches_spec(desired, pods[i]) {
            let i = choose|i: int| 0 <= i < pods.len() && #[trigger] pod_matches_spec(desired, pods[i]);
            if i < pods.len() - 1 {
                assert(pod_matches_spec(desired, pods.drop_last()[i]));
            }
        }
        if exists|i: int|
            0 <= i < pods.drop_last().len() && #[trigger] pod_matches_spec(
                desired,
                pods.drop_last()[i],
            ) {
            let i = choose|i: int|
                0 <= i < pods.drop_last().len() && #[trigger] pod_matches_spec(
                    desired,
                    pods.drop_last()[i],
                );
            assert(pod_matches_spec(desired, pods[i]));
        }
    }
}

} // verus!
