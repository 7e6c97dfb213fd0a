//! The latest state of every probe, updates to it, and snapshots of it.
use vstd::prelude::*;
use crate::config::PortProtocol;
use crate::kino_v1;
use crate::order::{
    Comparison, compare_text, lemma_text_less_irreflexive, lemma_text_less_transitive, text_less,
};
use crate::probe::{
    CommandJsonPathValue, FileExistsValue, FileRegexCaptureValue, K8sPodStateValue, PortOpenValue,
    ProbeDefinition, ProbeKind, ProbeStatus, ProbeValue, ProbeValueView, initial_value_spec,
    strings_view,
};
use crate::text::{chars_of, owned};

verus! {

// ---------------------------------------------------------------------------
// Time
// ---------------------------------------------------------------------------

/// Whole milliseconds in `secs` seconds and `subsec_nanos` nanoseconds.
pub open spec fn total_millis(secs: u64, subsec_nanos: u32) -> int {
    secs * 1000 + subsec_nanos / 1_000_000
}

/// The whole milliseconds of a duration of `secs` seconds and
/// `subsec_nanos` nanoseconds, or `u64::MAX` where they do not fit.
pub fn duration_millis_u64(secs: u64, subsec_nanos: u32) -> (res: u64)
    requires
        subsec_nanos < 1_000_000_000,
    ensures
        res == (if total_millis(secs, subsec_nanos) <= u64::MAX {
            total_millis(secs, subsec_nanos)
        } else {
            u64::MAX as int
        }),
{
    let extra: u64 = (subsec_nanos / 1_000_000) as u64;
    if secs > (u64::MAX - extra) / 1000 {
        assert(secs * 1000 + extra > u64::MAX) by (nonlinear_arith)
            requires
                secs > (u64::MAX - extra) / 1000,
                extra < 1000,
        ;
        u64::MAX
    } else {
        assert(secs * 1000 + extra <= u64::MAX) by (nonlinear_arith)
            requires
                secs <= (u64::MAX - extra) / 1000,
                extra < 1000,
        ;
        secs * 1000 + extra
    }
}

/// Milliseconds since the Unix epoch of a moment given by its distance
/// after the epoch (seconds, nanoseconds); a moment before the epoch is 0.
pub fn unix_time_ms(since_epoch: Option<(u64, u32)>) -> (res: u64)
    requires
        since_epoch matches Some((_, nanos)) ==> nanos < 1_000_000_000,
    ensures
        res == match since_epoch {
            Some((secs, nanos)) => if total_millis(secs, nanos) <= u64::MAX {
                total_millis(secs, nanos)
            } else {
                u64::MAX as int
            },
            None => 0,
        },
{
    match since_epoch {
        Some((secs, nanos)) => duration_millis_u64(secs, nanos),
        None => duration_millis_u64(0, 0),
    }
}

// ---------------------------------------------------------------------------
// Probe state
// ---------------------------------------------------------------------------

/// The latest state of one probe.
pub struct ProbeState {
    pub id: String,
    pub kind: ProbeKind,
    pub every_seconds: u64,
    pub status: ProbeStatus,
    pub last_attempt_unix_ms: Option<u64>,
    pub last_success_unix_ms: Option<u64>,
    pub last_duration_ms: u64,
    pub error: Option<String>,
    pub value: ProbeValue,
}

pub struct ProbeStateView {
    pub id: Seq<char>,
    pub kind: ProbeKind,
    pub every_seconds: u64,
    pub status: ProbeStatus,
    pub last_attempt_unix_ms: Option<u64>,
    pub last_success_unix_ms: Option<u64>,
    pub last_duration_ms: u64,
    pub error: Option<Seq<char>>,
    pub value: ProbeValueView,
}

pub open spec fn opt_text(o: Option<String>) -> Option<Seq<char>> {
    match o {
        Some(s) => Some(s@),
        None => None,
    }
}

impl View for ProbeState {
    type V = ProbeStateView;

    open spec fn view(&self) -> ProbeStateView {
        ProbeStateView {
            id: self.id@,
            kind: self.kind,
            every_seconds: self.every_seconds,
            status: self.status,
            last_attempt_unix_ms: self.last_attempt_unix_ms,
            last_success_unix_ms: self.last_success_unix_ms,
            last_duration_ms: self.last_duration_ms,
            error: opt_text(self.error),
            value: self.value@,
        }
    }
}

/// The outcome of one attempt to run a probe.
pub struct ProbeUpdate {
    pub status: ProbeStatus,
    pub value: Option<ProbeValue>,
    pub error: Option<String>,
    pub attempted_at_unix_ms: u64,
    pub duration_ms: u64,
}

pub struct ProbeUpdateView {
    pub status: ProbeStatus,
    pub value: Option<ProbeValueView>,
    pub error: Option<Seq<char>>,
    pub attempted_at_unix_ms: u64,
    pub duration_ms: u64,
}

impl View for ProbeUpdate {
    type V = ProbeUpdateView;

    open spec fn view(&self) -> ProbeUpdateView {
        ProbeUpdateView {
            status: self.status,
            value: match self.value {
                Some(v) => Some(v@),
                None => None,
            },
            error: opt_text(self.error),
            attempted_at_unix_ms: self.attempted_at_unix_ms,
            duration_ms: self.duration_ms,
        }
    }
}

/// The state of a probe that has not run yet.
#[verifier::opaque]
pub open spec fn initial_state(probe: ProbeDefinition) -> ProbeStateView {
    ProbeStateView {
        id: probe.id@,
        kind: probe.kind,
        every_seconds: probe.every_seconds,
        status: ProbeStatus::Unknown,
        last_attempt_unix_ms: None,
        last_success_unix_ms: None,
        last_duration_ms: 0,
        error: None,
        value: initial_value_spec(probe.runner),
    }
}

/// A probe's state after an attempt: the attempt's status, time, duration
/// and error; the time of the last success moves only on a pass; the value
/// is replaced only when the attempt produced one.
pub open spec fn updated_state(s: ProbeStateView, u: ProbeUpdateView) -> ProbeStateView {
    ProbeStateView {
        status: u.status,
        last_attempt_unix_ms: Some(u.attempted_at_unix_ms),
        last_duration_ms: u.duration_ms,
        error: u.error,
        last_success_unix_ms: if u.status == ProbeStatus::Pass {
            Some(u.attempted_at_unix_ms)
        } else {
            s.last_success_unix_ms
        },
        value: match u.value {
            Some(v) => v,
            None => s.value,
        },
        ..s
    }
}

/// A snapshot taken after an attempt reports that attempt: its status, its
/// time, its duration and its error (empty when none); the last success is
/// the attempt's time when it passed and is otherwise unchanged.
pub proof fn law_snapshot_reports_last_attempt(
    s: ProbeStateView,
    u: ProbeUpdateView,
    m: kino_v1::ProbeSnapshot,
)
    requires
        snapshot_describes(m, updated_state(s, u)),
    ensures
        m.id@ == s.id,
        m.status == status_code(u.status),
        m.last_attempt_unix_ms == u.attempted_at_unix_ms,
        m.last_duration_ms == u.duration_ms,
        m.error@ == match u.error {
            Some(e) => e,
            None => Seq::<char>::empty(),
        },
        u.status == ProbeStatus::Pass ==> m.last_success_unix_ms == u.attempted_at_unix_ms,
        u.status != ProbeStatus::Pass ==> m.last_success_unix_ms == match s.last_success_unix_ms {
            Some(t) => t,
            None => 0,
        },
{
}

/// Once a probe has passed, it keeps a time of last success; an attempt
/// without a value keeps the value of the previous attempt.
pub proof fn law_update_keeps_success_and_value(s: ProbeStateView, u: ProbeUpdateView)
    ensures
        s.last_success_unix_ms is Some ==> updated_state(s, u).last_success_unix_ms is Some,
        u.value is None ==> updated_state(s, u).value == s.value,
        updated_state(s, u).id == s.id,
        updated_state(s, u).kind == s.kind,
        updated_state(s, u).every_seconds == s.every_seconds,
{
}

/// An attempt is recorded as it happened: its status, error, time and
/// duration replace the old ones; a value that it produced replaces the old
/// value whether the attempt passed or failed; and only a pass moves the
/// time of the last success.
pub proof fn law_update_records_attempt(s: ProbeStateView, u: ProbeUpdateView)
    ensures
        u.value matches Some(v) ==> updated_state(s, u).value == v,
        u.value is None ==> updated_state(s, u).value == s.value,
        updated_state(s, u).status == u.status,
        updated_state(s, u).error == u.error,
        updated_state(s, u).last_attempt_unix_ms == Some(u.attempted_at_unix_ms),
        updated_state(s, u).last_duration_ms == u.duration_ms,
        u.status == ProbeStatus::Pass ==> updated_state(s, u).last_success_unix_ms == Some(
            u.attempted_at_unix_ms,
        ),
        u.status != ProbeStatus::Pass ==> updated_state(s, u).last_success_unix_ms
            == s.last_success_unix_ms,
{
}

/// Applying an update to a probe in the store changes that probe's state
/// as the attempt says, and no other state; in particular a failed attempt
/// that produced a value leaves that value in the store.
pub proof fn law_store_update_replaces_value(
    before: Seq<ProbeStateView>,
    after: Seq<ProbeStateView>,
    id: Seq<char>,
    u: ProbeUpdateView,
    i: int,
)
    requires
        0 <= i < before.len(),
        before[i].id == id,
        forall|a: int, b: int| 0 <= a < b < before.len() ==> text_less(#[trigger] before[a].id, #[trigger] before[b].id),
        after == (match find_id(before, id) {
            Some(k) => before.update(k, updated_state(before[k], u)),
            None => before,
        }),
    ensures
        after.len() == before.len(),
        after[i].id == id,
        after[i].status == u.status,
        after[i].error == u.error,
        u.value matches Some(v) ==> after[i].value == v,
        forall|j: int| 0 <= j < before.len() && j != i ==> after[j] == before[j],
{
    lemma_text_less_irreflexive(id);
    let k = find_id(before, id)->Some_0;
    assert(exists|j: int| 0 <= j < before.len() && before[j].id == id);
    if k != i {
        if k < i {
            assert(text_less(before[k].id, before[i].id));
        } else {
            assert(text_less(before[i].id, before[k].id));
        }
    }
}

/// A new store reports every probe as not yet run: status unknown, no
/// attempt, no success, no error.
pub proof fn law_new_store_is_unknown(states: Seq<ProbeStateView>, probes: Seq<ProbeDefinition>, i: int)
    requires
        initial_states(states, probes),
        0 <= i < states.len(),
    ensures
        states[i].status == ProbeStatus::Unknown,
        states[i].last_attempt_unix_ms is None,
        states[i].last_success_unix_ms is None,
        states[i].error is None,
{
    reveal(entries_from_last);
    reveal(initial_state);
    let j = choose|j: int|
        0 <= j < probes.len() && last_with_id(probes, j) && #[trigger] states[i] == initial_state(
            #[trigger] probes[j],
        );
}

/// No two probes share an id.
pub open spec fn distinct_ids(probes: Seq<ProbeDefinition>) -> bool {
    forall|a: int, b: int|
        0 <= a < b < probes.len() ==> (#[trigger] probes[a]).id@ != (#[trigger] probes[b]).id@
}

/// The ids of the probes, in order.
pub open spec fn probe_ids(probes: Seq<ProbeDefinition>) -> Seq<Seq<char>> {
    probes.map_values(|p: ProbeDefinition| p.id@)
}

/// The ids of the states, in order.
pub open spec fn state_ids(states: Seq<ProbeStateView>) -> Seq<Seq<char>> {
    states.map_values(|s: ProbeStateView| s.id)
}

proof fn lemma_distinct_probe_ids(probes: Seq<ProbeDefinition>)
    requires
        distinct_ids(probes),
    ensures
        probe_ids(probes).no_duplicates(),
{
    let pids = probe_ids(probes);
    assert forall|a: int, b: int|
        0 <= a < pids.len() && 0 <= b < pids.len() && a != b implies pids[a] != pids[b] by {
        if a < b {
            assert(probes[a].id@ != probes[b].id@);
        } else {
            assert(probes[b].id@ != probes[a].id@);
        }
    }
}

proof fn lemma_sorted_state_ids(states: Seq<ProbeStateView>)
    requires
        sorted_ids(states),
    ensures
        state_ids(states).no_duplicates(),
{
    reveal(sorted_ids);
    let sids = state_ids(states);
    assert forall|a: int, b: int|
        0 <= a < sids.len() && 0 <= b < sids.len() && a != b implies sids[a] != sids[b] by {
        lemma_text_less_irreflexive(states[a].id);
        if a < b {
            assert(text_less(states[a].id, states[b].id));
        } else {
            assert(text_less(states[b].id, states[a].id));
        }
    }
}

proof fn lemma_same_id_sets(states: Seq<ProbeStateView>, probes: Seq<ProbeDefinition>)
    requires
        entries_from_last(states, probes),
        ids_covered(states, probes),
    ensures
        probe_ids(probes).to_set() == state_ids(states).to_set(),
{
    reveal(entries_from_last);
    reveal(ids_covered);
    let pids = probe_ids(probes);
    let sids = state_ids(states);
    assert forall|k: Seq<char>| pids.to_set().contains(k) implies sids.to_set().contains(k) by {
        let j = choose|j: int| 0 <= j < pids.len() && pids[j] == k;
        let i = choose|i: int|
            0 <= i < states.len() && #[trigger] states[i].id == (#[trigger] probes[j]).id@;
        assert(sids[i] == k);
    }
    assert forall|k: Seq<char>| sids.to_set().contains(k) implies pids.to_set().contains(k) by {
        let i = choose|i: int| 0 <= i < sids.len() && sids[i] == k;
        let j = choose|j: int|
            0 <= j < probes.len() && last_with_id(probes, j) && #[trigger] states[i]
                == initial_state(#[trigger] probes[j]);
        lemma_initial_state_id(probes[j]);
        assert(pids[j] == k);
    }
    assert(pids.to_set() =~= sids.to_set());
}

proof fn lemma_probe_has_own_state(states: Seq<ProbeStateView>, probes: Seq<ProbeDefinition>, j: int)
    requires
        entries_from_last(states, probes),
        ids_covered(states, probes),
        distinct_ids(probes),
        0 <= j < probes.len(),
    ensures
        exists|i: int| 0 <= i < states.len() && #[trigger] states[i] == initial_state(probes[j]),
{
    reveal(entries_from_last);
    reveal(ids_covered);
    let i = choose|i: int|
        0 <= i < states.len() && #[trigger] states[i].id == (#[trigger] probes[j]).id@;
    let j2 = choose|j2: int|
        0 <= j2 < probes.len() && last_with_id(probes, j2) && #[trigger] states[i] == initial_state(
            #[trigger] probes[j2],
        );
    lemma_initial_state_id(probes[j2]);
    if j2 != j {
        if j < j2 {
            assert(probes[j].id@ != probes[j2].id@);
        } else {
            assert(probes[j2].id@ != probes[j].id@);
        }
    }
    assert(states[i] == initial_state(probes[j]));
}

/// Where no two probes share an id, a new store holds exactly one state
/// per probe, the probe's initial state, in the order of the ids.
pub proof fn law_new_store_one_state_per_probe(
    states: Seq<ProbeStateView>,
    probes: Seq<ProbeDefinition>,
)
    requires
        initial_states(states, probes),
        distinct_ids(probes),
    ensures
        states.len() == probes.len(),
        forall|j: int|
            0 <= j < probes.len() ==> exists|i: int|
                0 <= i < states.len() && #[trigger] states[i] == initial_state(
                    #[trigger] probes[j],
                ),
        forall|i: int, j: int|
            0 <= i < j < states.len() ==> text_less(#[trigger] states[i].id, #[trigger] states[j].id),
{
    lemma_distinct_probe_ids(probes);
    lemma_sorted_state_ids(states);
    lemma_same_id_sets(states, probes);
    probe_ids(probes).unique_seq_to_set();
    state_ids(states).unique_seq_to_set();
    assert forall|j: int| 0 <= j < probes.len() implies exists|i: int|
        0 <= i < states.len() && #[trigger] states[i] == initial_state(#[trigger] probes[j]) by {
        lemma_probe_has_own_state(states, probes, j);
    }
    reveal(sorted_ids);
}

/// The snapshot entry reports the probe as not yet run: its id, status
/// unknown (0), no attempt, no success and no duration (0), no error, and
/// the probe's kind, period and initial value.
pub open spec fn snapshot_is_initial(m: kino_v1::ProbeSnapshot, p: ProbeDefinition) -> bool {
    &&& m.id@ == p.id@
    &&& m.status == 0
    &&& m.last_attempt_unix_ms == 0
    &&& m.last_success_unix_ms == 0
    &&& m.last_duration_ms == 0
    &&& m.error@ == Seq::<char>::empty()
    &&& m.every_seconds == p.every_seconds
    &&& m.kind == kind_code(p.kind)
    &&& m.value matches Some(v) && value_describes(v, initial_value_spec(p.runner))
}

proof fn lemma_initial_snapshot(s: ProbeStateView, p: ProbeDefinition, m: kino_v1::ProbeSnapshot)
    requires
        s == initial_state(p),
        snapshot_describes(m, s),
    ensures
        snapshot_is_initial(m, p),
{
    reveal(initial_state);
}

/// Some entry of the snapshot reports the probe as not yet run.
pub open spec fn has_initial_entry(msgs: Seq<kino_v1::ProbeSnapshot>, p: ProbeDefinition) -> bool {
    exists|i: int| 0 <= i < msgs.len() && #[trigger] snapshot_is_initial(msgs[i], p)
}

/// Where no two probes share an id, the snapshot of a new store lists one
/// entry per probe, each reporting the probe as not yet run, in the order
/// of the ids.
pub proof fn law_new_store_snapshot(
    states: Seq<ProbeStateView>,
    probes: Seq<ProbeDefinition>,
    msgs: Seq<kino_v1::ProbeSnapshot>,
)
    requires
        initial_states(states, probes),
        distinct_ids(probes),
        msgs.len() == states.len(),
        forall|i: int| 0 <= i < msgs.len() ==> snapshot_describes(#[trigger] msgs[i], states[i]),
    ensures
        msgs.len() == probes.len(),
        forall|j: int| 0 <= j < probes.len() ==> #[trigger] has_initial_entry(msgs, probes[j]),
        forall|i: int, j: int|
            0 <= i < j < msgs.len() ==> text_less(#[trigger] msgs[i].id@, #[trigger] msgs[j].id@),
{
    law_new_store_one_state_per_probe(states, probes);
    assert forall|j: int| 0 <= j < probes.len() implies #[trigger] has_initial_entry(
        msgs,
        probes[j],
    ) by {
        let i = choose|i: int|
            0 <= i < states.len() && #[trigger] states[i] == initial_state(#[trigger] probes[j]);
        lemma_initial_snapshot(states[i], probes[j], msgs[i]);
        assert(snapshot_is_initial(msgs[i], probes[j]));
    }
    assert forall|i: int, j: int| 0 <= i < j < msgs.len() implies text_less(
        #[trigger] msgs[i].id@,
        #[trigger] msgs[j].id@,
    ) by {
        assert(snapshot_describes(msgs[i], states[i]));
        assert(snapshot_describes(msgs[j], states[j]));
    }
}

/// The states of the probes, one per id, in the order of their ids.
pub struct ProbeStore {
    entries: Vec<ProbeState>,
}

/// The ids of `s` are strictly increasing.
#[verifier::opaque]
pub open spec fn sorted_ids(s: Seq<ProbeStateView>) -> bool {
    forall|i: int, j: int| 0 <= i < j < s.len() ==> text_less(#[trigger] s[i].id, #[trigger] s[j].id)
}

/// `probes[j]` is the last probe with its id.
#[verifier::opaque]
pub open spec fn last_with_id(probes: Seq<ProbeDefinition>, j: int) -> bool {
    forall|k: int| j < k < probes.len() ==> (#[trigger] probes[k]).id@ != probes[j].id@
}

/// `s` holds one initial state per id among `probes`, that of the last probe
/// with the id, in the order of the ids.
pub open spec fn initial_states(s: Seq<ProbeStateView>, probes: Seq<ProbeDefinition>) -> bool {
    &&& sorted_ids(s)
    &&& entries_from_last(s, probes)
    &&& ids_covered(s, probes)
}

/// The views of a list of probe states.
pub open spec fn states_of(entries: Seq<ProbeState>) -> Seq<ProbeStateView> {
    entries.map_values(|e: ProbeState| e@)
}

/// Index of the first entry whose id is not before `id`, and whether that
/// entry has the id.
fn entry_position(entries: &Vec<ProbeState>, id: &[char]) -> (res: (usize, bool))
    requires
        sorted_ids(states_of(entries@)),
    ensures
        res.0 <= entries@.len(),
        forall|i: int| 0 <= i < res.0 ==> text_less(#[trigger] states_of(entries@)[i].id, id@),
        res.1 <==> (res.0 < entries@.len() && states_of(entries@)[res.0 as int].id == id@),
        !res.1 && res.0 < entries@.len() ==> text_less(id@, states_of(entries@)[res.0 as int].id),
{
    let ghost s = states_of(entries@);
    let mut i: usize = 0;
    while i < entries.len()
        invariant
            i <= entries@.len(),
            s == states_of(entries@),
            forall|k: int| 0 <= k < i ==> text_less(#[trigger] s[k].id, id@),
        decreases entries.len() - i,
    {
        let entry_id = chars_of(entries[i].id.as_str());
        assert(s[i as int].id == entries@[i as int].id@);
        match compare_text(entry_id.as_slice(), id) {
            Comparison::Less => {},
            Comparison::Equal => {
                return (i, true);
            },
            Comparison::Greater => {
                return (i, false);
            },
        }
        i = i + 1;
    }
    (i, false)
}

impl ProbeStore {
    /// The probe states, in the order of their ids.
    pub closed spec fn states(&self) -> Seq<ProbeStateView> {
        states_of(self.entries@)
    }

    /// The ids are strictly increasing.
    #[verifier::type_invariant]
    closed spec fn ids_sorted(&self) -> bool {
        sorted_ids(self.states())
    }

    /// A store with the initial state of each probe, one per id; where two
    /// probes share an id, the later one's.
    pub fn new(probes: &Vec<ProbeDefinition>) -> (res: ProbeStore)
        ensures
            initial_states(res.states(), probes@),
    {
        let mut entries: Vec<ProbeState> = Vec::new();
        let mut n: usize = 0;
        assert(states_of(entries@) =~= Seq::<ProbeStateView>::empty());
        proof {
            reveal(sorted_ids);
            reveal(entries_from_last);
            reveal(ids_covered);
        }
        while n < probes.len()
            invariant
                n <= probes@.len(),
                initial_states(states_of(entries@), probes@.take(n as int)),
            decreases probes.len() - n,
        {
            let probe = &probes[n];
            let state = ProbeState {
                id: probe.id.clone(),
                kind: probe.kind,
                every_seconds: probe.every_seconds,
                status: ProbeStatus::Unknown,
                last_attempt_unix_ms: None,
                last_success_unix_ms: None,
                last_duration_ms: 0,
                error: None,
                value: probe.initial_value(),
            };
            assert(state@ == initial_state(*probe)) by {
                reveal(initial_state);
            }
            let id_chars = chars_of(probe.id.as_str());
            let (pos, found) = entry_position(&entries, id_chars.as_slice());
            let ghost old_states = states_of(entries@);
            let ghost prefix = probes@.take(n as int);
            let ghost next = probes@.take(n + 1);
            assert(next =~= prefix.push(*probe));
            if found {
                entries.set(pos, state);
                assert(states_of(entries@) =~= old_states.update(pos as int, state@));
                proof {
                    lemma_replace_keeps_initial_states(old_states, prefix, pos as int, *probe);
                }
            } else {
                entries.insert(pos, state);
                assert(states_of(entries@) =~= old_states.insert(pos as int, state@));
                proof {
                    lemma_insert_keeps_initial_states(old_states, prefix, pos as int, *probe);
                }
            }
            n = n + 1;
        }
        assert(probes@.take(probes@.len() as int) =~= probes@);
        ProbeStore { entries }
    }

    /// Record the outcome of an attempt of the probe `probe_id`; a store
    /// without that probe is left as it is.
    pub fn apply_update(&mut self, probe_id: &str, update: ProbeUpdate)
        ensures
            match find_id(old(self).states(), probe_id@) {
                Some(i) => final(self).states() == old(self).states().update(
                    i,
                    updated_state(old(self).states()[i], update@),
                ),
                None => final(self).states() == old(self).states(),
            },
    {
        proof {
            use_type_invariant(&*self);
        }
        let mut entries: Vec<ProbeState> = Vec::new();
        assert(sorted_ids(states_of(entries@))) by {
            reveal(sorted_ids);
        }
        std::mem::swap(&mut entries, &mut self.entries);
        let ghost old_states = states_of(entries@);
        assert(old_states == old(self).states());
        let id_chars = chars_of(probe_id);
        let (pos, found) = entry_position(&entries, id_chars.as_slice());
        proof {
            lemma_find_id(old_states, probe_id@, pos as int, found);
        }
        if found {
            let ghost u = update@;
            let mut entry = entries.remove(pos);
            entry.status = update.status;
            entry.last_attempt_unix_ms = Some(update.attempted_at_unix_ms);
            entry.last_duration_ms = update.duration_ms;
            entry.error = update.error;
            if update.status == ProbeStatus::Pass {
                entry.last_success_unix_ms = Some(update.attempted_at_unix_ms);
            }
            match update.value {
                Some(value) => {
                    entry.value = value;
                },
                None => {},
            }
            assert(entry@ == updated_state(old_states[pos as int], u));
            entries.insert(pos, entry);
            assert(states_of(entries@) =~= old_states.update(
                pos as int,
                updated_state(old_states[pos as int], u),
            ));
            assert(sorted_ids(states_of(entries@))) by {
                reveal(sorted_ids);
                let t = states_of(entries@);
                assert forall|i: int, j: int| 0 <= i < j < t.len() implies text_less(
                    #[trigger] t[i].id,
                    #[trigger] t[j].id,
                ) by {
                    assert(t[i].id == old_states[i].id);
                    assert(t[j].id == old_states[j].id);
                }
            }
        }
        self.entries = entries;
    }

    /// The snapshot of all probes, in the order of their ids, taken at
    /// `generated_at_unix_ms`.
    pub fn snapshot_proto(&self, generated_at_unix_ms: u64) -> (res: kino_v1::ProbesSnapshotV1)
        ensures
            res.generated_at_unix_ms == generated_at_unix_ms,
            res.probes@.len() == self.states().len(),
            forall|i: int|
                0 <= i < res.probes@.len() ==> snapshot_describes(
                    #[trigger] res.probes@[i],
                    self.states()[i],
                ),
            forall|i: int, j: int|
                0 <= i < j < res.probes@.len() ==> text_less(
                    #[trigger] res.probes@[i].id@,
                    #[trigger] res.probes@[j].id@,
                ),
    {
        proof {
            use_type_invariant(self);
        }
        let mut probes: Vec<kino_v1::ProbeSnapshot> = Vec::new();
        let mut i: usize = 0;
        while i < self.entries.len()
            invariant
                i <= self.entries@.len(),
                self.states().len() == self.entries@.len(),
                probes@.len() == i,
                forall|k: int|
                    0 <= k < i ==> snapshot_describes(#[trigger] probes@[k], self.states()[k]),
            decreases self.entries.len() - i,
        {
            let entry = &self.entries[i];
            assert(self.states()[i as int] == entry@);
            let snap = probe_snapshot(entry);
            probes.push(snap);
            i = i + 1;
        }
        proof {
            reveal(sorted_ids);
            assert forall|a: int, b: int| 0 <= a < b < probes@.len() implies text_less(
                #[trigger] probes@[a].id@,
                #[trigger] probes@[b].id@,
            ) by {
                assert(snapshot_describes(probes@[a], self.states()[a]));
                assert(snapshot_describes(probes@[b], self.states()[b]));
            }
        }
        kino_v1::ProbesSnapshotV1 { generated_at_unix_ms, probes }
    }
}

/// The index of the state with the given id.
pub open spec fn find_id(s: Seq<ProbeStateView>, id: Seq<char>) -> Option<int> {
    if exists|i: int| 0 <= i < s.len() && s[i].id == id {
        Some(choose|i: int| 0 <= i < s.len() && s[i].id == id)
    } else {
        None
    }
}

proof fn lemma_find_id(s: Seq<ProbeStateView>, id: Seq<char>, pos: int, found: bool)
    requires
        sorted_ids(s),
        0 <= pos <= s.len(),
        forall|i: int| 0 <= i < pos ==> text_less(#[trigger] s[i].id, id),
        found <==> (pos < s.len() && s[pos].id == id),
        !found && pos < s.len() ==> text_less(id, s[pos].id),
    ensures
        found ==> find_id(s, id) == Some(pos),
        !found ==> find_id(s, id) is None,
{
    reveal(sorted_ids);
    if exists|i: int| 0 <= i < s.len() && s[i].id == id {
        let k = choose|i: int| 0 <= i < s.len() && s[i].id == id;
        lemma_text_less_irreflexive(id);
        if k < pos {
            assert(text_less(s[k].id, id));
        } else if k > pos {
            assert(text_less(s[pos].id, s[k].id));
            if !found {
                lemma_text_less_transitive(id, s[pos].id, s[k].id);
            } else {
                assert(s[pos].id == id);
            }
        }
    }
}

/// The id of the initial state of a probe is the probe's id.
pub proof fn lemma_initial_state_id(probe: ProbeDefinition)
    ensures
        initial_state(probe).id == probe.id@,
{
    reveal(initial_state);
}

proof fn lemma_last_with_id_extend(prefix: Seq<ProbeDefinition>, probe: ProbeDefinition, j: int)
    requires
        0 <= j < prefix.len(),
        last_with_id(prefix, j),
        prefix[j].id@ != probe.id@,
    ensures
        last_with_id(prefix.push(probe), j),
{
    reveal(last_with_id);
    let next = prefix.push(probe);
    assert forall|k: int| j < k < next.len() implies (#[trigger] next[k]).id@ != next[j].id@ by {
        if k < prefix.len() {
            assert(next[k] == prefix[k]);
        }
    }
}

proof fn lemma_new_probe_is_last(prefix: Seq<ProbeDefinition>, probe: ProbeDefinition)
    ensures
        last_with_id(prefix.push(probe), prefix.len() as int),
        prefix.push(probe)[prefix.len() as int] == probe,
{
    reveal(last_with_id);
}

/// Every entry of `t` is the initial state of the last probe with its id.
#[verifier::opaque]
pub open spec fn entries_from_last(t: Seq<ProbeStateView>, probes: Seq<ProbeDefinition>) -> bool {
    forall|i: int|
        0 <= i < t.len() ==> exists|j: int|
            0 <= j < probes.len() && last_with_id(probes, j) && #[trigger] t[i] == initial_state(
                #[trigger] probes[j],
            )
}

/// Every probe id has an entry in `t`.
#[verifier::opaque]
pub open spec fn ids_covered(t: Seq<ProbeStateView>, probes: Seq<ProbeDefinition>) -> bool {
    forall|j: int|
        0 <= j < probes.len() ==> exists|i: int|
            0 <= i < t.len() && #[trigger] t[i].id == (#[trigger] probes[j]).id@
}

proof fn lemma_entry_keeps_last(
    s: Seq<ProbeStateView>,
    prefix: Seq<ProbeDefinition>,
    si: int,
    probe: ProbeDefinition,
) -> (j: int)
    requires
        entries_from_last(s, prefix),
        0 <= si < s.len(),
        s[si].id != probe.id@,
    ensures
        0 <= j < prefix.len(),
        last_with_id(prefix.push(probe), j),
        s[si] == initial_state(prefix.push(probe)[j]),
{
    reveal(entries_from_last);
    let j = choose|j: int|
        0 <= j < prefix.len() && last_with_id(prefix, j) && #[trigger] s[si] == initial_state(
            #[trigger] prefix[j],
        );
    lemma_initial_state_id(prefix[j]);
    lemma_last_with_id_extend(prefix, probe, j);
    assert(prefix.push(probe)[j] == prefix[j]);
    j
}

proof fn lemma_replace_keeps_initial_states(
    s: Seq<ProbeStateView>,
    prefix: Seq<ProbeDefinition>,
    pos: int,
    probe: ProbeDefinition,
)
    requires
        initial_states(s, prefix),
        0 <= pos < s.len(),
        s[pos].id == probe.id@,
    ensures
        initial_states(s.update(pos, initial_state(probe)), prefix.push(probe)),
{
    let t = s.update(pos, initial_state(probe));
    let next = prefix.push(probe);
    lemma_initial_state_id(probe);
    assert(sorted_ids(t)) by {
        reveal(sorted_ids);
        assert forall|i: int, j: int| 0 <= i < j < t.len() implies text_less(
            #[trigger] t[i].id,
            #[trigger] t[j].id,
        ) by {
            assert(t[i].id == s[i].id);
            assert(t[j].id == s[j].id);
        }
    }
    assert(entries_from_last(t, next)) by {
        reveal(entries_from_last);
        assert forall|i: int| 0 <= i < t.len() implies exists|j: int|
            0 <= j < next.len() && last_with_id(next, j) && #[trigger] t[i] == initial_state(
                #[trigger] next[j],
            ) by {
            if i == pos {
                lemma_new_probe_is_last(prefix, probe);
                assert(t[i] == initial_state(next[prefix.len() as int]));
            } else {
                reveal(sorted_ids);
                lemma_text_less_irreflexive(s[i].id);
                if i < pos {
                    assert(text_less(s[i].id, s[pos].id));
                } else {
                    assert(text_less(s[pos].id, s[i].id));
                }
                let j = lemma_entry_keeps_last(s, prefix, i, probe);
                assert(t[i] == initial_state(next[j]));
            }
        }
    }
    assert(ids_covered(t, next)) by {
        reveal(ids_covered);
        assert forall|j: int| 0 <= j < next.len() implies exists|i: int|
            0 <= i < t.len() && #[trigger] t[i].id == (#[trigger] next[j]).id@ by {
            if j == prefix.len() {
                assert(t[pos].id == next[j].id@);
            } else {
                assert(next[j] == prefix[j]);
                let i = choose|i: int|
                    0 <= i < s.len() && #[trigger] s[i].id == (#[trigger] prefix[j]).id@;
                assert(t[i].id == s[i].id);
            }
        }
    }
}

proof fn lemma_inserted_sorted(s: Seq<ProbeStateView>, pos: int, st: ProbeStateView)
    requires
        sorted_ids(s),
        0 <= pos <= s.len(),
        forall|i: int| 0 <= i < pos ==> text_less(#[trigger] s[i].id, st.id),
        pos < s.len() ==> text_less(st.id, s[pos].id),
    ensures
        sorted_ids(s.insert(pos, st)),
        forall|i: int| 0 <= i < s.len() ==> #[trigger] s[i].id != st.id,
{
    reveal(sorted_ids);
    let t = s.insert(pos, st);
    let x = st.id;
    assert forall|i: int| 0 <= i < s.len() implies #[trigger] s[i].id != x by {
        lemma_text_less_irreflexive(x);
        if i < pos {
            assert(text_less(s[i].id, x));
        } else if i > pos {
            assert(text_less(s[pos].id, s[i].id));
            lemma_text_less_transitive(x, s[pos].id, s[i].id);
        }
    }
    assert forall|i: int, j: int| 0 <= i < j < t.len() implies text_less(
        #[trigger] t[i].id,
        #[trigger] t[j].id,
    ) by {
        if j < pos {
            assert(t[i] == s[i] && t[j] == s[j]);
        } else if j == pos {
            assert(t[i] == s[i]);
        } else if i < pos {
            assert(t[i] == s[i] && t[j] == s[j - 1]);
            if j - 1 == pos {
                lemma_text_less_transitive(s[i].id, x, s[j - 1].id);
            } else {
                lemma_text_less_transitive(s[i].id, x, s[pos].id);
                lemma_text_less_transitive(s[i].id, s[pos].id, s[j - 1].id);
            }
        } else if i == pos {
            assert(t[j] == s[j - 1]);
            if j - 1 > pos {
                lemma_text_less_transitive(x, s[pos].id, s[j - 1].id);
            }
        } else {
            assert(t[i] == s[i - 1] && t[j] == s[j - 1]);
        }
    }
}

proof fn lemma_insert_keeps_initial_states(
    s: Seq<ProbeStateView>,
    prefix: Seq<ProbeDefinition>,
    pos: int,
    probe: ProbeDefinition,
)
    requires
        initial_states(s, prefix),
        0 <= pos <= s.len(),
        forall|i: int| 0 <= i < pos ==> text_less(#[trigger] s[i].id, probe.id@),
        pos < s.len() ==> text_less(probe.id@, s[pos].id),
    ensures
        initial_states(s.insert(pos, initial_state(probe)), prefix.push(probe)),
{
    let st = initial_state(probe);
    let t = s.insert(pos, st);
    let next = prefix.push(probe);
    lemma_initial_state_id(probe);
    lemma_inserted_sorted(s, pos, st);
    assert(entries_from_last(t, next)) by {
        reveal(entries_from_last);
        assert forall|i: int| 0 <= i < t.len() implies exists|j: int|
            0 <= j < next.len() && last_with_id(next, j) && #[trigger] t[i] == initial_state(
                #[trigger] next[j],
            ) by {
            if i == pos {
                lemma_new_probe_is_last(prefix, probe);
                assert(t[i] == initial_state(next[prefix.len() as int]));
            } else {
                let si = if i < pos {
                    i
                } else {
                    i - 1
                };
                assert(t[i] == s[si]);
                let j = lemma_entry_keeps_last(s, prefix, si, probe);
                assert(t[i] == initial_state(next[j]));
            }
        }
    }
    assert(ids_covered(t, next)) by {
        reveal(ids_covered);
        assert forall|j: int| 0 <= j < next.len() implies exists|i: int|
            0 <= i < t.len() && #[trigger] t[i].id == (#[trigger] next[j]).id@ by {
            if j == prefix.len() {
                assert(t[pos].id == next[j].id@);
            } else {
                assert(next[j] == prefix[j]);
                let i = choose|i: int|
                    0 <= i < s.len() && #[trigger] s[i].id == (#[trigger] prefix[j]).id@;
                if i < pos {
                    assert(t[i].id == s[i].id);
                } else {
                    assert(t[i + 1].id == s[i].id);
                }
            }
        }
    }
}

// ---------------------------------------------------------------------------
// Snapshots
// ---------------------------------------------------------------------------

pub open spec fn kind_code(kind: ProbeKind) -> i32 {
    match kind {
        ProbeKind::FileExists => 1,
        ProbeKind::FileRegexCapture => 2,
        ProbeKind::PortOpen => 3,
        ProbeKind::K8sPodState => 4,
        ProbeKind::CommandJsonPath => 5,
    }
}

pub open spec fn status_code(status: ProbeStatus) -> i32 {
    match status {
        ProbeStatus::Unknown => 0,
        ProbeStatus::Pass => 1,
        ProbeStatus::Fail => 2,
    }
}

/// The wire code of a probe kind.
pub fn probe_kind_to_proto(kind: ProbeKind) -> (res: i32)
    ensures
        res == kind_code(kind),
{
    match kind {
        ProbeKind::FileExists => 1,
        ProbeKind::FileRegexCapture => 2,
        ProbeKind::PortOpen => 3,
        ProbeKind::K8sPodState => 4,
        ProbeKind::CommandJsonPath => 5,
    }
}

/// The wire code of a probe status.
pub fn probe_status_to_proto(status: ProbeStatus) -> (res: i32)
    ensures
        res == status_code(status),
{
    match status {
        ProbeStatus::Unknown => 0,
        ProbeStatus::Pass => 1,
        ProbeStatus::Fail => 2,
    }
}

pub open spec fn protocol_text(p: PortProtocol) -> Seq<char> {
    match p {
        PortProtocol::Tcp => "tcp"@,
        PortProtocol::Udp => "udp"@,
    }
}

/// The wire message carries the probe value.
pub open spec fn value_describes(m: kino_v1::SnapshotValue, v: ProbeValueView) -> bool {
    match (m, v) {
        (kino_v1::SnapshotValue::FileExists(m), ProbeValueView::FileExists { path, exists }) => {
            m.path@ == path && m.exists == exists
        },
        (
            kino_v1::SnapshotValue::FileRegexCapture(m),
            ProbeValueView::FileRegexCapture {
                path,
                pattern,
                matched,
                full_match,
                captures,
                file_content,
            },
        ) => {
            &&& m.path@ == path
            &&& m.pattern@ == pattern
            &&& m.matched == matched
            &&& m.full_match@ == full_match
            &&& strings_view(m.captures@) == captures
            &&& m.file_content@ == file_content
        },
        (
            kino_v1::SnapshotValue::PortOpen(m),
            ProbeValueView::PortOpen { host, port, protocol, open, detail },
        ) => {
            &&& m.host@ == host
            &&& m.port == port as u32
            &&& m.protocol@ == protocol_text(protocol)
            &&& m.open == open
            &&& m.detail@ == detail
        },
        (
            kino_v1::SnapshotValue::K8sPodState(m),
            ProbeValueView::K8sPodState {
                namespace,
                selector,
                desired_state,
                matched_pods,
                matching_pod_names,
                state_satisfied,
            },
        ) => {
            &&& m.namespace@ == namespace
            &&& m.selector@ == selector
            &&& m.desired_state@ == desired_state
            &&& m.matched_pods == matched_pods
            &&& strings_view(m.matching_pod_names@) == matching_pod_names
            &&& m.state_satisfied == state_satisfied
        },
        (
            kino_v1::SnapshotValue::CommandJsonPath(m),
            ProbeValueView::CommandJsonPath {
                argv,
                json_path,
                expected_json,
                matched,
                matched_values,
                stdout,
                stderr,
                exit_code,
            },
        ) => {
            &&& strings_view(m.argv@) == argv
            &&& m.json_path@ == json_path
            &&& m.expected_json@ == expected_json
            &&& m.matched == matched
            &&& strings_view(m.matched_values@) == matched_values
            &&& m.stdout@ == stdout
            &&& m.stderr@ == stderr
            &&& m.exit_code == exit_code
        },
        _ => false,
    }
}

/// The wire message describes the probe state: absent times are 0 and an
/// absent error is empty.
pub open spec fn snapshot_describes(m: kino_v1::ProbeSnapshot, s: ProbeStateView) -> bool {
    &&& m.id@ == s.id
    &&& m.kind == kind_code(s.kind)
    &&& m.status == status_code(s.status)
    &&& m.every_seconds == s.every_seconds
    &&& m.last_attempt_unix_ms == match s.last_attempt_unix_ms {
        Some(t) => t,
        None => 0,
    }
    &&& m.last_success_unix_ms == match s.last_success_unix_ms {
        Some(t) => t,
        None => 0,
    }
    &&& m.last_duration_ms == s.last_duration_ms
    &&& m.error@ == match s.error {
        Some(e) => e,
        None => Seq::<char>::empty(),
    }
    &&& m.value matches Some(v) && value_describes(v, s.value)
}

fn clone_strings(v: &Vec<String>) -> (res: Vec<String>)
    ensures
        strings_view(res@) == strings_view(v@),
{
    let mut out: Vec<String> = Vec::new();
    let mut i: usize = 0;
    while i < v.len()
        invariant
            i <= v@.len(),
            strings_view(out@) == strings_view(v@.take(i as int)),
        decreases v.len() - i,
    {
        let ghost before = out@;
        out.push(v[i].clone());
        assert(strings_view(out@) =~= strings_view(before).push(v@[i as int]@));
        assert(v@.take(i + 1) =~= v@.take(i as int).push(v@[i as int]));
        assert(strings_view(v@.take(i + 1)) =~= strings_view(v@.take(i as int)).push(
            v@[i as int]@,
        ));
        i = i + 1;
    }
    assert(v@.take(v@.len() as int) =~= v@);
    out
}

pub fn file_exists_proto(value: &FileExistsValue) -> (res: kino_v1::FileExistsValue)
    ensures
        value_describes(
            kino_v1::SnapshotValue::FileExists(res),
            ProbeValue::FileExists(*value)@,
        ),
{
    kino_v1::FileExistsValue { path: value.path.clone(), exists: value.exists }
}

pub fn file_regex_capture_proto(value: &FileRegexCaptureValue) -> (res:
    kino_v1::FileRegexCaptureValue)
    ensures
        value_describes(
            kino_v1::SnapshotValue::FileRegexCapture(res),
            ProbeValue::FileRegexCapture(*value)@,
        ),
{
    kino_v1::FileRegexCaptureValue {
        path: value.path.clone(),
        pattern: value.pattern.clone(),
        matched: value.matched,
        full_match: value.full_match.clone(),
        captures: clone_strings(&value.captures),
        file_content: value.file_content.clone(),
    }
}

pub fn port_open_proto(value: &PortOpenValue) -> (res: kino_v1::PortOpenValue)
    ensures
        value_describes(kino_v1::SnapshotValue::PortOpen(res), ProbeValue::PortOpen(*value)@),
{
    kino_v1::PortOpenValue {
        host: value.host.clone(),
        port: value.port as u32,
        protocol: match value.protocol {
            PortProtocol::Tcp => owned("tcp"),
            PortProtocol::Udp => owned("udp"),
        },
        open: value.open,
        detail: value.detail.clone(),
    }
}

pub fn k8s_pod_state_proto(value: &K8sPodStateValue) -> (res: kino_v1::K8sPodStateValue)
    ensures
        value_describes(
            kino_v1::SnapshotValue::K8sPodState(res),
            ProbeValue::K8sPodState(*value)@,
        ),
{
    kino_v1::K8sPodStateValue {
        namespace: value.namespace.clone(),
        selector: value.selector.clone(),
        desired_state: value.desired_state.clone(),
        matched_pods: value.matched_pods,
        matching_pod_names: clone_strings(&value.matching_pod_names),
        state_satisfied: value.state_satisfied,
    }
}

pub fn command_json_path_proto(value: &CommandJsonPathValue) -> (res:
    kino_v1::CommandJsonPathValue)
    ensures
        value_describes(
            kino_v1::SnapshotValue::CommandJsonPath(res),
            ProbeValue::CommandJsonPath(*value)@,
        ),
{
    kino_v1::CommandJsonPathValue {
        argv: clone_strings(&value.argv),
        json_path: value.json_path.clone(),
        expected_json: value.expected_json.clone(),
        matched: value.matched,
        matched_values: clone_strings(&value.matched_values),
        stdout: value.stdout.clone(),
        stderr: value.stderr.clone(),
        exit_code: value.exit_code,
    }
}

fn value_proto(value: &ProbeValue) -> (res: kino_v1::SnapshotValue)
    ensures
        value_describes(res, value@),
{
    match value {
        ProbeValue::FileExists(v) => kino_v1::SnapshotValue::FileExists(file_exists_proto(v)),
        ProbeValue::FileRegexCapture(v) => kino_v1::SnapshotValue::FileRegexCapture(
            file_regex_capture_proto(v),
        ),
        ProbeValue::PortOpen(v) => kino_v1::SnapshotValue::PortOpen(port_open_proto(v)),
        ProbeValue::K8sPodState(v) => kino_v1::SnapshotValue::K8sPodState(k8s_pod_state_proto(v)),
        ProbeValue::CommandJsonPath(v) => kino_v1::SnapshotValue::CommandJsonPath(
            command_json_path_proto(v),
        ),
    }
}

fn probe_snapshot(entry: &ProbeState) -> (res: kino_v1::ProbeSnapshot)
    ensures
        snapshot_describes(res, entry@),
{
    kino_v1::ProbeSnapshot {
        id: entry.id.clone(),
        kind: probe_kind_to_proto(entry.kind),
        status: probe_status_to_proto(entry.status),
        every_seconds: entry.every_seconds,
        last_attempt_unix_ms: match entry.last_attempt_unix_ms {
            Some(t) => t,
            None => 0,
        },
        last_success_unix_ms: match entry.last_success_unix_ms {
            Some(t) => t,
            None => 0,
        },
        last_duration_ms: entry.last_duration_ms,
        error: match &entry.error {
            Some(e) => e.clone(),
            None => String::new(),
        },
        value: Some(value_proto(&entry.value)),
    }
}

} // verus!
