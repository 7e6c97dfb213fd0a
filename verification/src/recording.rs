//! Terminal-session recording in the asciicast v2 format: the header, the
//! stream of events, and the decisions around a recorded session.
use vstd::prelude::*;
use vstd::utf8::{
    decode_first_scalar, decode_utf8, length_of_first_scalar, pop_first_scalar, valid_first_scalar,
    valid_utf8,
};
use crate::text::{chars_of, decimal, decimal_string, lemma_decimal_digits, owned, string_from_chars};

verus! {

pub const DEFAULT_TTY_WIDTH: u16 = 80;

pub const DEFAULT_TTY_HEIGHT: u16 = 24;

/// Data is flushed to disk at most this often while events are written.
pub const CAST_SYNC_INTERVAL_MS: u64 = 250;

/// How many file names a session tries before giving up.
pub const SESSION_FILE_ATTEMPTS: u32 = 1000;

// ---------------------------------------------------------------------------
// UTF-8 validation
// ---------------------------------------------------------------------------

/// Where `std::str::from_utf8` stopped on `bytes`: the length of the valid
/// prefix, and the length of the invalid sequence after it (`None` where
/// the input ends inside a character).
pub uninterp spec fn utf8_error(bytes: Seq<u8>) -> (nat, Option<nat>);

/// Why bytes are not valid UTF-8, as `std::str::Utf8Error` tells it.
pub struct Utf8Failure {
    pub valid_up_to: usize,
    pub error_len: Option<usize>,
}

/// Checks bytes with `std::str::from_utf8`. Its contract claims what the
/// documentation of `from_utf8` and `Utf8Error` states: valid bytes decode
/// to their characters; otherwise `valid_up_to` is the longest valid
/// prefix, an error length is positive and stays inside the input, and a
/// missing error length means the input ends 1 to 3 bytes inside a
/// character. Which length an invalid sequence has is not stated.
#[verifier::external_body]
fn check_utf8(bytes: &[u8]) -> (res: Result<String, Utf8Failure>)
    ensures
        match res {
            Ok(text) => valid_utf8(bytes@) && text@ == decode_utf8(bytes@),
            Err(f) => {
                &&& !valid_utf8(bytes@)
                &&& utf8_error(bytes@) == (f.valid_up_to as nat, match f.error_len {
                    Some(n) => Some(n as nat),
                    None => None,
                })
                &&& f.valid_up_to <= bytes@.len()
                &&& valid_utf8(bytes@.take(f.valid_up_to as int))
                &&& forall|k: int|
                    f.valid_up_to < k <= bytes@.len() ==> !valid_utf8(#[trigger] bytes@.take(k))
                &&& match f.error_len {
                    Some(n) => 1 <= n && f.valid_up_to + n <= bytes@.len(),
                    None => 1 <= bytes@.len() - f.valid_up_to <= 3,
                }
            },
        },
{
    match std::str::from_utf8(bytes) {
        Ok(text) => Ok(text.to_owned()),
        Err(error) => Err(Utf8Failure { valid_up_to: error.valid_up_to(), error_len: error.error_len() }),
    }
}

pub open spec fn replacement_text() -> Seq<char> {
    seq!['\u{FFFD}']
}

/// How pending bytes are cut into event texts: valid text as it is, each
/// invalid sequence as one replacement character, and an unfinished
/// character at the end kept back for the next write.
pub open spec fn utf8_chunks(p: Seq<u8>) -> (Seq<Seq<char>>, Seq<u8>)
    decreases p.len(),
{
    if valid_utf8(p) {
        (
            if decode_utf8(p).len() == 0 {
                Seq::empty()
            } else {
                seq![decode_utf8(p)]
            },
            Seq::empty(),
        )
    } else {
        let (k, error_len) = utf8_error(p);
        let head = if k > 0 && k <= p.len() {
            seq![decode_utf8(p.take(k as int))]
        } else {
            Seq::empty()
        };
        match error_len {
            Some(n) => if n > 0 && k + n <= p.len() {
                let rest = utf8_chunks(p.skip((k + n) as int));
                (head.push(replacement_text()) + rest.0, rest.1)
            } else {
                (head, p)
            },
            None => (head, if k <= p.len() {
                p.skip(k as int)
            } else {
                p
            }),
        }
    }
}

/// The texts of `texts`, one after another.
pub open spec fn joined(texts: Seq<Seq<char>>) -> Seq<char>
    decreases texts.len(),
{
    if texts.len() == 0 {
        Seq::empty()
    } else {
        joined(texts.drop_last()) + texts.last()
    }
}

/// The text that lossy decoding makes of `bytes`: the pieces of
/// `utf8_chunks`, each invalid sequence as one replacement character, and
/// one replacement character for an unfinished character at the end.
pub open spec fn utf8_lossy(bytes: Seq<u8>) -> Seq<char> {
    let (texts, rest) = utf8_chunks(bytes);
    joined(texts) + if rest.len() > 0 {
        replacement_text()
    } else {
        Seq::empty()
    }
}

/// Valid UTF-8 decodes to its characters.
pub proof fn lemma_lossy_of_valid(bytes: Seq<u8>)
    requires
        valid_utf8(bytes),
    ensures
        utf8_lossy(bytes) == decode_utf8(bytes),
{
    let d = decode_utf8(bytes);
    if d.len() == 0 {
        assert(joined(Seq::<Seq<char>>::empty()) == Seq::<char>::empty());
        assert(utf8_lossy(bytes) =~= d);
    } else {
        let t = seq![d];
        assert(t.drop_last() =~= Seq::<Seq<char>>::empty());
        assert(joined(t) =~= d) by {
            reveal_with_fuel(joined, 2);
        }
        assert(utf8_lossy(bytes) =~= d);
    }
}

/// Decodes bytes with `String::from_utf8_lossy`. Its contract claims what
/// the documentation of `from_utf8_lossy`, `Utf8Chunks` and
/// `Utf8Error::error_len` states: valid text is kept, each invalid
/// sequence that `from_utf8` reports becomes one U+FFFD, and so does an
/// unfinished character at the end.
#[verifier::external_body]
pub fn lossy_text(bytes: &[u8]) -> (res: String)
    ensures
        res@ == utf8_lossy(bytes@),
{
    String::from_utf8_lossy(bytes).into_owned()
}

// ---------------------------------------------------------------------------
// Events and actions
// ---------------------------------------------------------------------------

/// The kind of an asciicast event.
#[derive(Debug, Clone, Copy, PartialEq, Eq, Structural)]
pub enum EventKind {
    Input,
    Output,
    Resize,
}

impl EventKind {
    /// The event code written in the cast file.
    pub fn code(self) -> (res: &'static str)
        ensures
            res@ == event_code(self),
    {
        match self {
            EventKind::Input => "i",
            EventKind::Output => "o",
            EventKind::Resize => "r",
        }
    }
}

pub open spec fn event_code(kind: EventKind) -> Seq<char> {
    match kind {
        EventKind::Input => "i"@,
        EventKind::Output => "o"@,
        EventKind::Resize => "r"@,
    }
}

/// One event line: milliseconds since the session started, the kind, the text.
#[derive(Debug, Clone, PartialEq, Eq)]
pub struct CastEvent {
    pub elapsed_ms: u64,
    pub kind: EventKind,
    pub data: String,
}

/// What the writer asks of the cast file, in order.
#[derive(Debug, Clone, PartialEq, Eq)]
pub enum CastAction {
    /// Append one event line.
    Write(CastEvent),
    /// Flush the written data to disk.
    SyncData,
    /// Flush data and metadata to disk; the session is over.
    SyncAll,
}

pub enum CastActionView {
    Write { elapsed_ms: u64, kind: EventKind, data: Seq<char> },
    SyncData,
    SyncAll,
}

impl View for CastAction {
    type V = CastActionView;

    open spec fn view(&self) -> CastActionView {
        match self {
            CastAction::Write(e) => CastActionView::Write {
                elapsed_ms: e.elapsed_ms,
                kind: e.kind,
                data: e.data@,
            },
            CastAction::SyncData => CastActionView::SyncData,
            CastAction::SyncAll => CastActionView::SyncAll,
        }
    }
}

pub open spec fn actions_view(v: Seq<CastAction>) -> Seq<CastActionView> {
    v.map_values(|a: CastAction| a@)
}

pub open spec fn saturating_sub(a: u64, b: u64) -> u64 {
    if a >= b {
        (a - b) as u64
    } else {
        0
    }
}

/// Is a flush due at `ts`, given the time of the last flush?
pub open spec fn sync_due(ts: u64, last_sync: u64) -> bool {
    saturating_sub(ts, last_sync) >= CAST_SYNC_INTERVAL_MS
}

/// The actions for writing the texts `datas` at `ts`: each text as one
/// event, each followed by a flush when one is due.
pub open spec fn write_actions(
    datas: Seq<Seq<char>>,
    start: u64,
    last_sync: u64,
    ts: u64,
    kind: EventKind,
) -> Seq<CastActionView>
    decreases datas.len(),
{
    if datas.len() == 0 {
        Seq::empty()
    } else {
        let write = CastActionView::Write {
            elapsed_ms: saturating_sub(ts, start),
            kind,
            data: datas[0],
        };
        if sync_due(ts, last_sync) {
            seq![write, CastActionView::SyncData] + write_actions(
                datas.drop_first(),
                start,
                ts,
                ts,
                kind,
            )
        } else {
            seq![write] + write_actions(datas.drop_first(), start, last_sync, ts, kind)
        }
    }
}

/// The time of the last flush after writing `datas` at `ts`.
pub open spec fn sync_after(datas: Seq<Seq<char>>, last_sync: u64, ts: u64) -> u64 {
    if datas.len() > 0 && sync_due(ts, last_sync) {
        ts
    } else {
        last_sync
    }
}

/// The number of flushes among the actions.
pub open spec fn sync_count(actions: Seq<CastActionView>) -> nat
    decreases actions.len(),
{
    if actions.len() == 0 {
        0
    } else {
        (if actions[0] is SyncData {
            1nat
        } else {
            0nat
        }) + sync_count(actions.drop_first())
    }
}

proof fn lemma_sync_count_concat(a: Seq<CastActionView>, b: Seq<CastActionView>)
    ensures
        sync_count(a + b) == sync_count(a) + sync_count(b),
    decreases a.len(),
{
    if a.len() == 0 {
        assert(a + b =~= b);
    } else {
        assert((a + b).drop_first() =~= a.drop_first() + b);
        lemma_sync_count_concat(a.drop_first(), b);
    }
}

/// Writing events at one moment flushes at most once, and only when the
/// last flush is at least the sync interval old.
pub proof fn law_at_most_one_flush_per_write(
    datas: Seq<Seq<char>>,
    start: u64,
    last_sync: u64,
    ts: u64,
    kind: EventKind,
)
    ensures
        sync_count(write_actions(datas, start, last_sync, ts, kind)) <= 1,
        sync_count(write_actions(datas, start, last_sync, ts, kind)) == 1 ==> sync_due(
            ts,
            last_sync,
        ),
    decreases datas.len(),
{
    if datas.len() > 0 {
        let write = CastActionView::Write {
            elapsed_ms: saturating_sub(ts, start),
            kind,
            data: datas[0],
        };
        if sync_due(ts, last_sync) {
            lemma_no_flush_right_after(datas.drop_first(), start, ts, kind);
            lemma_sync_count_concat(
                seq![write, CastActionView::SyncData],
                write_actions(datas.drop_first(), start, ts, ts, kind),
            );
            assert(sync_count(seq![write, CastActionView::SyncData]) == 1) by {
                reveal_with_fuel(sync_count, 3);
                assert(seq![write, CastActionView::SyncData].drop_first() =~= seq![
                    CastActionView::SyncData,
                ]);
                assert(seq![CastActionView::SyncData].drop_first() =~= Seq::<
                    CastActionView,
                >::empty());
            }
        } else {
            law_at_most_one_flush_per_write(datas.drop_first(), start, last_sync, ts, kind);
            lemma_sync_count_concat(
                seq![write],
                write_actions(datas.drop_first(), start, last_sync, ts, kind),
            );
            assert(sync_count(seq![write]) == 0) by {
            reveal_with_fuel(sync_count, 2);
                assert(seq![write].drop_first() =~= Seq::<CastActionView>::empty());
            }
        }
    }
}

/// Right after a flush at `ts`, writing more at `ts` does not flush again.
proof fn lemma_no_flush_right_after(datas: Seq<Seq<char>>, start: u64, ts: u64, kind: EventKind)
    ensures
        sync_count(write_actions(datas, start, ts, ts, kind)) == 0,
    decreases datas.len(),
{
    if datas.len() > 0 {
        let write = CastActionView::Write {
            elapsed_ms: saturating_sub(ts, start),
            kind,
            data: datas[0],
        };
        lemma_no_flush_right_after(datas.drop_first(), start, ts, kind);
        lemma_sync_count_concat(seq![write], write_actions(datas.drop_first(), start, ts, ts, kind));
        assert(sync_count(seq![write]) == 0) by {
            reveal_with_fuel(sync_count, 2);
            assert(seq![write].drop_first() =~= Seq::<CastActionView>::empty());
        }
    }
}

/// Appending bytes after a whole first character leaves that character,
/// its length and its value unchanged.
proof fn lemma_first_scalar_extends(x: Seq<u8>, y: Seq<u8>)
    requires
        valid_first_scalar(x),
    ensures
        valid_first_scalar(x + y),
        length_of_first_scalar(x + y) == length_of_first_scalar(x),
        decode_first_scalar(x + y) == decode_first_scalar(x),
        pop_first_scalar(x + y) == pop_first_scalar(x) + y,
{
    let z = x + y;
    assert forall|j: int| 0 <= j < x.len() implies z[j] == x[j] by {}
    if x.len() >= 1 {
        assert(z[0] == x[0]);
    }
    if x.len() >= 2 {
        assert(z[1] == x[1]);
    }
    if x.len() >= 3 {
        assert(z[2] == x[2]);
    }
    if x.len() >= 4 {
        assert(z[3] == x[3]);
    }
    let l = length_of_first_scalar(x);
    assert(1 <= l <= x.len());
    assert(pop_first_scalar(z) =~= pop_first_scalar(x) + y);
}

/// Valid text followed by more bytes is valid exactly when those bytes
/// are, and then decodes as the two texts one after the other.
proof fn lemma_valid_prefix_split(x: Seq<u8>, y: Seq<u8>)
    requires
        valid_utf8(x),
        valid_utf8(x + y),
    ensures
        valid_utf8(y),
        decode_utf8(x + y) == decode_utf8(x) + decode_utf8(y),
    decreases x.len(),
{
    if x.len() == 0 {
        assert(x + y =~= y);
        assert(decode_utf8(x) =~= Seq::<char>::empty());
        assert(decode_utf8(x + y) =~= decode_utf8(x) + decode_utf8(y));
    } else {
        lemma_first_scalar_extends(x, y);
        let px = pop_first_scalar(x);
        assert(px.len() < x.len());
        lemma_valid_prefix_split(px, y);
        assert(decode_utf8(x + y) =~= seq![decode_first_scalar(x) as char] + decode_utf8(px + y));
        assert(decode_utf8(x) =~= seq![decode_first_scalar(x) as char] + decode_utf8(px));
        assert(decode_utf8(x + y) =~= decode_utf8(x) + decode_utf8(y));
    }
}

/// The texts of no pieces, and of one piece.
proof fn lemma_joined_small(t: Seq<char>)
    ensures
        joined(Seq::<Seq<char>>::empty()) == Seq::<char>::empty(),
        joined(seq![t]) == t,
{
    reveal_with_fuel(joined, 2);
    assert(seq![t].drop_last() =~= Seq::<Seq<char>>::empty());
    assert(joined(seq![t]) =~= t);
}

/// Bytes that end inside a character, after valid text, as `from_utf8`
/// reports them (a valid prefix of `k` bytes and no error length), are
/// written as the prefix's text alone, in one event and without any
/// replacement character, and the bytes of the unfinished character are
/// kept back, exactly.
pub proof fn law_unfinished_character_waits(
    pending: Seq<u8>,
    bytes: Seq<u8>,
    start: u64,
    last_sync: u64,
    ts: u64,
    kind: EventKind,
)
    requires
        !valid_utf8(pending + bytes),
        utf8_error(pending + bytes).1 is None,
        utf8_error(pending + bytes).0 <= (pending + bytes).len(),
        valid_utf8((pending + bytes).take(utf8_error(pending + bytes).0 as int)),
    ensures
        ({
            let p = pending + bytes;
            let k = utf8_error(p).0 as int;
            let texts = if k > 0 {
                seq![decode_utf8(p.take(k))]
            } else {
                Seq::<Seq<char>>::empty()
            };
            &&& utf8_chunks(p) == (texts, p.skip(k))
            &&& joined(texts) == decode_utf8(p.take(k))
            &&& stream_write_spec(pending, bytes, start, last_sync, ts, kind).0 == write_actions(
                texts,
                start,
                last_sync,
                ts,
                kind,
            )
            &&& stream_write_spec(pending, bytes, start, last_sync, ts, kind).1 == p.skip(k)
        }),
{
    let p = pending + bytes;
    let k = utf8_error(p).0 as int;
    lemma_joined_small(decode_utf8(p.take(k)));
    if k == 0 {
        assert(p.take(0) =~= Seq::<u8>::empty());
        assert(decode_utf8(p.take(0)) =~= Seq::<char>::empty());
    }
}

/// A character split across two writes is joined: where `a` ends inside a
/// character after valid text (as `from_utf8` reports it) and `a + b` is
/// valid, the texts written for `a` and then for what stays pending plus
/// `b` join to the text of `a + b`, and nothing stays pending.
pub proof fn law_split_character_joined(a: Seq<u8>, b: Seq<u8>)
    requires
        valid_utf8(a + b),
        !valid_utf8(a),
        utf8_error(a).1 is None,
        utf8_error(a).0 <= a.len(),
        valid_utf8(a.take(utf8_error(a).0 as int)),
    ensures
        joined(utf8_chunks(a).0) + joined(utf8_chunks(utf8_chunks(a).1 + b).0) == decode_utf8(
            a + b,
        ),
        utf8_chunks(utf8_chunks(a).1 + b).1 == Seq::<u8>::empty(),
{
    let k = utf8_error(a).0 as int;
    let x = a.take(k);
    let q = a.skip(k) + b;
    assert(a + b =~= x + q);
    lemma_valid_prefix_split(x, q);
    law_unfinished_character_waits(a, Seq::<u8>::empty(), 0, 0, 0, EventKind::Output);
    assert(a + Seq::<u8>::empty() =~= a);
    assert(utf8_chunks(a).1 == a.skip(k));
    lemma_joined_small(decode_utf8(q));
    if decode_utf8(q).len() == 0 {
        assert(decode_utf8(q) =~= Seq::<char>::empty());
    }
    assert(joined(utf8_chunks(a).0) == decode_utf8(x));
    assert(joined(utf8_chunks(q).0) == decode_utf8(q));
}

/// Bytes that complete valid text are written as one event holding exactly
/// their text, and nothing stays pending.
pub proof fn law_valid_text_written_whole(pending: Seq<u8>, bytes: Seq<u8>)
    requires
        valid_utf8(pending + bytes),
        (pending + bytes).len() > 0,
    ensures
        utf8_chunks(pending + bytes) == (
            seq![decode_utf8(pending + bytes)],
            Seq::<u8>::empty(),
        ),
{
    let p = pending + bytes;
    assert(decode_utf8(p).len() > 0);
}

// ---------------------------------------------------------------------------
// The event stream
// ---------------------------------------------------------------------------

/// The state of a cast file being written: when the session started, when
/// data was last flushed, and the bytes of each stream that do not yet
/// form a whole character.
pub struct CastStream {
    pub start_ts_unix_ms: u64,
    pub last_sync_ts_unix_ms: u64,
    pub pending_input_bytes: Vec<u8>,
    pub pending_output_bytes: Vec<u8>,
}

fn bytes_from(v: &Vec<u8>, from: usize) -> (res: Vec<u8>)
    requires
        from <= v@.len(),
    ensures
        res@ == v@.skip(from as int),
{
    let mut out: Vec<u8> = Vec::new();
    let mut i = from;
    while i < v.len()
        invariant
            from <= i <= v@.len(),
            out@ == v@.subrange(from as int, i as int),
        decreases v.len() - i,
    {
        out.push(v[i]);
        i = i + 1;
    }
    out
}

fn bytes_to(v: &Vec<u8>, to: usize) -> (res: Vec<u8>)
    requires
        to <= v@.len(),
    ensures
        res@ == v@.take(to as int),
{
    let mut out: Vec<u8> = Vec::new();
    let mut i: usize = 0;
    while i < to
        invariant
            i <= to <= v@.len(),
            out@ == v@.take(i as int),
        decreases to - i,
    {
        out.push(v[i]);
        assert(v@.take(i + 1) =~= v@.take(i as int).push(v@[i as int]));
        i = i + 1;
    }
    out
}

fn elapsed(ts: u64, start: u64) -> (res: u64)
    ensures
        res == saturating_sub(ts, start),
{
    if ts >= start {
        ts - start
    } else {
        0
    }
}

/// Append one event line, and a flush when one is due.
fn write_event_line(
    actions: &mut Vec<CastAction>,
    start_ts_unix_ms: u64,
    last_sync_ts_unix_ms: &mut u64,
    ts_unix_ms: u64,
    kind: EventKind,
    data: String,
)
    ensures
        actions_view(final(actions)@) == actions_view(old(actions)@) + write_actions(
            seq![data@],
            start_ts_unix_ms,
            *old(last_sync_ts_unix_ms),
            ts_unix_ms,
            kind,
        ),
        *final(last_sync_ts_unix_ms) == sync_after(seq![data@], *old(last_sync_ts_unix_ms), ts_unix_ms),
{
    let ghost before = actions@;
    let ghost last = *last_sync_ts_unix_ms;
    let ghost d = data@;
    actions.push(
        CastAction::Write(
            CastEvent { elapsed_ms: elapsed(ts_unix_ms, start_ts_unix_ms), kind, data },
        ),
    );
    let due = elapsed(ts_unix_ms, *last_sync_ts_unix_ms) >= CAST_SYNC_INTERVAL_MS;
    if due {
        actions.push(CastAction::SyncData);
        *last_sync_ts_unix_ms = ts_unix_ms;
    }
    proof {
        assert(seq![d].drop_first() =~= Seq::<Seq<char>>::empty());
        assert(write_actions(Seq::<Seq<char>>::empty(), start_ts_unix_ms, ts_unix_ms, ts_unix_ms, kind)
            =~= Seq::<CastActionView>::empty());
        assert(write_actions(Seq::<Seq<char>>::empty(), start_ts_unix_ms, last, ts_unix_ms, kind)
            =~= Seq::<CastActionView>::empty());
        assert(actions_view(actions@) =~= actions_view(before) + write_actions(
            seq![d],
            start_ts_unix_ms,
            last,
            ts_unix_ms,
            kind,
        ));
    }
}

proof fn lemma_write_actions_append(
    a: Seq<Seq<char>>,
    b: Seq<Seq<char>>,
    start: u64,
    last: u64,
    ts: u64,
    kind: EventKind,
)
    ensures
        write_actions(a + b, start, last, ts, kind) == write_actions(a, start, last, ts, kind)
            + write_actions(b, start, sync_after(a, last, ts), ts, kind),
        sync_after(a + b, last, ts) == sync_after(b, sync_after(a, last, ts), ts),
    decreases a.len(),
{
    if a.len() == 0 {
        assert(a + b =~= b);
        assert(write_actions(a, start, last, ts, kind) =~= Seq::<CastActionView>::empty());
    } else {
        assert((a + b).drop_first() =~= a.drop_first() + b);
        assert((a + b)[0] == a[0]);
        if sync_due(ts, last) {
            lemma_write_actions_append(a.drop_first(), b, start, ts, ts, kind);
            assert(sync_after(a.drop_first(), ts, ts) == ts);
        } else {
            lemma_write_actions_append(a.drop_first(), b, start, last, ts, kind);
            assert(sync_after(a.drop_first(), last, ts) == last) by {
                if a.drop_first().len() > 0 {
                    assert(!sync_due(ts, last));
                }
            }
        }
    }
}

/// The events of one write of `bytes` into a stream whose pending bytes are
/// `pending`, at `ts`: the actions, the new pending bytes, the new flush time.
pub open spec fn stream_write_spec(
    pending: Seq<u8>,
    bytes: Seq<u8>,
    start: u64,
    last_sync: u64,
    ts: u64,
    kind: EventKind,
) -> (Seq<CastActionView>, Seq<u8>, u64) {
    let chunks = utf8_chunks(pending + bytes);
    (
        write_actions(chunks.0, start, last_sync, ts, kind),
        chunks.1,
        sync_after(chunks.0, last_sync, ts),
    )
}

/// Append `bytes` to a stream's pending bytes and write every whole
/// character out; an unfinished character at the end stays pending.
fn write_stream_event(
    actions: &mut Vec<CastAction>,
    start_ts_unix_ms: u64,
    last_sync_ts_unix_ms: &mut u64,
    pending: &mut Vec<u8>,
    ts_unix_ms: u64,
    kind: EventKind,
    bytes: &[u8],
)
    ensures
        ({
            let r = stream_write_spec(
                old(pending)@,
                bytes@,
                start_ts_unix_ms,
                *old(last_sync_ts_unix_ms),
                ts_unix_ms,
                kind,
            );
            &&& actions_view(final(actions)@) == actions_view(old(actions)@) + r.0
            &&& final(pending)@ == r.1
            &&& *final(last_sync_ts_unix_ms) == r.2
        }),
        final(pending)@.len() <= 3,
{
    let ghost all = pending@ + bytes@;
    let ghost start_actions = actions_view(actions@);
    let ghost last0 = *last_sync_ts_unix_ms;
    pending.extend_from_slice(bytes);
    assert(pending@ =~= all);
    // emitted: the texts already written; pending@ is the rest of `all`.
    let ghost mut emitted: Seq<Seq<char>> = Seq::empty();
    proof {
        assert(utf8_chunks(all) == (emitted + utf8_chunks(pending@).0, utf8_chunks(pending@).1))
            by {
            assert(emitted + utf8_chunks(pending@).0 =~= utf8_chunks(pending@).0);
        }
        assert(write_actions(emitted, start_ts_unix_ms, last0, ts_unix_ms, kind)
            =~= Seq::<CastActionView>::empty());
    }
    loop
        invariant_except_break
            utf8_chunks(all) == (emitted + utf8_chunks(pending@).0, utf8_chunks(pending@).1),
        invariant
            actions_view(actions@) == start_actions + write_actions(
                emitted,
                start_ts_unix_ms,
                last0,
                ts_unix_ms,
                kind,
            ),
            *last_sync_ts_unix_ms == sync_after(emitted, last0, ts_unix_ms),
        ensures
            actions_view(actions@) == start_actions + write_actions(
                utf8_chunks(all).0,
                start_ts_unix_ms,
                last0,
                ts_unix_ms,
                kind,
            ),
            pending@ == utf8_chunks(all).1,
            *last_sync_ts_unix_ms == sync_after(utf8_chunks(all).0, last0, ts_unix_ms),
            pending@.len() <= 3,
        decreases pending@.len(),
    {
        let ghost p = pending@;
        let ghost e0 = emitted;
        let plen = pending.len();
        match check_utf8(pending.as_slice()) {
            Ok(valid) => {
                if !valid.as_str().is_empty() {
                    proof {
                        lemma_write_actions_append(
                            emitted,
                            seq![valid@],
                            start_ts_unix_ms,
                            last0,
                            ts_unix_ms,
                            kind,
                        );
                    }
                    write_event_line(
                        actions,
                        start_ts_unix_ms,
                        last_sync_ts_unix_ms,
                        ts_unix_ms,
                        kind,
                        valid,
                    );
                    proof {
                        emitted = emitted + seq![decode_utf8(p)];
                    }
                }
                pending.clear();
                proof {
                    assert(utf8_chunks(pending@) == (Seq::<Seq<char>>::empty(), Seq::<u8>::empty()))
                        by {
                        assert(pending@ =~= Seq::<u8>::empty());
                    }
                    assert(emitted + Seq::<Seq<char>>::empty() =~= emitted);
                }
                break;
            },
            Err(failure) => {
                let valid_up_to = failure.valid_up_to;
                let error_len = failure.error_len;
                assert(valid_up_to <= p.len());
                assert(error_len matches Some(n) ==> 1 <= n && valid_up_to + n <= p.len());
                let ghost head: Seq<Seq<char>> = if valid_up_to > 0 {
                    seq![decode_utf8(p.take(valid_up_to as int))]
                } else {
                    Seq::empty()
                };
                if valid_up_to > 0 {
                    let prefix = bytes_to(pending, valid_up_to);
                    let text = lossy_text(prefix.as_slice());
                    proof {
                        lemma_lossy_of_valid(prefix@);
                        lemma_write_actions_append(
                            emitted,
                            seq![text@],
                            start_ts_unix_ms,
                            last0,
                            ts_unix_ms,
                            kind,
                        );
                    }
                    write_event_line(
                        actions,
                        start_ts_unix_ms,
                        last_sync_ts_unix_ms,
                        ts_unix_ms,
                        kind,
                        text,
                    );
                    proof {
                        emitted = emitted + seq![decode_utf8(p.take(valid_up_to as int))];
                    }
                }
                match error_len {
                    Some(invalid_len) => {
                        assert(valid_up_to + invalid_len <= plen);
                        let replacement = chars_of("\u{FFFD}");
                        proof {
                            reveal_strlit("\u{FFFD}");
                            assert(replacement@ =~= replacement_text());
                        }
                        proof {
                            lemma_write_actions_append(
                                emitted,
                                seq![replacement_text()],
                                start_ts_unix_ms,
                                last0,
                                ts_unix_ms,
                                kind,
                            );
                        }
                        write_event_line(
                            actions,
                            start_ts_unix_ms,
                            last_sync_ts_unix_ms,
                            ts_unix_ms,
                            kind,
                            string_from_chars(replacement.as_slice()),
                        );
                        proof {
                            emitted = emitted + seq![replacement_text()];
                        }
                        let rest = bytes_from(pending, valid_up_to + invalid_len);
                        *pending = rest;
                        proof {
                            let r = utf8_chunks(pending@);
                            assert(utf8_chunks(p) == (head.push(replacement_text()) + r.0, r.1));
                            assert(emitted =~= e0 + head.push(replacement_text()));
                            assert(e0 + (head.push(replacement_text()) + r.0) =~= emitted + r.0);
                        }
                    },
                    None => {
                        if valid_up_to > 0 {
                            let rest = bytes_from(pending, valid_up_to);
                            *pending = rest;
                        }
                        proof {
                            assert(utf8_chunks(p) == (head, p.skip(valid_up_to as int)));
                            assert(p.skip(0) =~= p);
                            assert(emitted =~= emitted + Seq::<Seq<char>>::empty());
                        }
                        break;
                    },
                }
            },
        }
    }
}

impl CastStream {
    /// A stream that starts at `start_ts_unix_ms`, with nothing pending.
    pub fn new(start_ts_unix_ms: u64) -> (res: CastStream)
        ensures
            res.start_ts_unix_ms == start_ts_unix_ms,
            res.last_sync_ts_unix_ms == start_ts_unix_ms,
            res.pending_input_bytes@ == Seq::<u8>::empty(),
            res.pending_output_bytes@ == Seq::<u8>::empty(),
    {
        CastStream {
            start_ts_unix_ms,
            last_sync_ts_unix_ms: start_ts_unix_ms,
            pending_input_bytes: Vec::new(),
            pending_output_bytes: Vec::new(),
        }
    }

    /// Record input bytes typed at `ts_unix_ms`.
    pub fn write_input_bytes(&mut self, ts_unix_ms: u64, bytes: &[u8]) -> (res: Vec<CastAction>)
        ensures
            ({
                let r = stream_write_spec(
                    old(self).pending_input_bytes@,
                    bytes@,
                    old(self).start_ts_unix_ms,
                    old(self).last_sync_ts_unix_ms,
                    ts_unix_ms,
                    EventKind::Input,
                );
                &&& actions_view(res@) == r.0
                &&& final(self).pending_input_bytes@ == r.1
                &&& final(self).last_sync_ts_unix_ms == r.2
            }),
            final(self).pending_input_bytes@.len() <= 3,
            final(self).pending_output_bytes == old(self).pending_output_bytes,
            final(self).start_ts_unix_ms == old(self).start_ts_unix_ms,
    {
        let mut actions: Vec<CastAction> = Vec::new();
        assert(actions_view(actions@) =~= Seq::<CastActionView>::empty());
        write_stream_event(
            &mut actions,
            self.start_ts_unix_ms,
            &mut self.last_sync_ts_unix_ms,
            &mut self.pending_input_bytes,
            ts_unix_ms,
            EventKind::Input,
            bytes,
        );
        assert(actions_view(actions@) =~= Seq::<CastActionView>::empty() + stream_write_spec(
            old(self).pending_input_bytes@,
            bytes@,
            old(self).start_ts_unix_ms,
            old(self).last_sync_ts_unix_ms,
            ts_unix_ms,
            EventKind::Input,
        ).0);
        actions
    }

    /// Record output bytes produced at `ts_unix_ms`.
    pub fn write_output_bytes(&mut self, ts_unix_ms: u64, bytes: &[u8]) -> (res: Vec<CastAction>)
        ensures
            ({
                let r = stream_write_spec(
                    old(self).pending_output_bytes@,
                    bytes@,
                    old(self).start_ts_unix_ms,
                    old(self).last_sync_ts_unix_ms,
                    ts_unix_ms,
                    EventKind::Output,
                );
                &&& actions_view(res@) == r.0
                &&& final(self).pending_output_bytes@ == r.1
                &&& final(self).last_sync_ts_unix_ms == r.2
            }),
            final(self).pending_output_bytes@.len() <= 3,
            final(self).pending_input_bytes == old(self).pending_input_bytes,
            final(self).start_ts_unix_ms == old(self).start_ts_unix_ms,
    {
        let mut actions: Vec<CastAction> = Vec::new();
        assert(actions_view(actions@) =~= Seq::<CastActionView>::empty());
        write_stream_event(
            &mut actions,
            self.start_ts_unix_ms,
            &mut self.last_sync_ts_unix_ms,
            &mut self.pending_output_bytes,
            ts_unix_ms,
            EventKind::Output,
            bytes,
        );
        assert(actions_view(actions@) =~= Seq::<CastActionView>::empty() + stream_write_spec(
            old(self).pending_output_bytes@,
            bytes@,
            old(self).start_ts_unix_ms,
            old(self).last_sync_ts_unix_ms,
            ts_unix_ms,
            EventKind::Output,
        ).0);
        actions
    }

    /// Record a terminal resize to `width` x `height` at `ts_unix_ms`.
    pub fn write_resize(&mut self, ts_unix_ms: u64, width: u16, height: u16) -> (res: Vec<
        CastAction,
    >)
        ensures
            actions_view(res@) == write_actions(
                seq![resize_text(width, height)],
                old(self).start_ts_unix_ms,
                old(self).last_sync_ts_unix_ms,
                ts_unix_ms,
                EventKind::Resize,
            ),
            final(self).last_sync_ts_unix_ms == sync_after(
                seq![resize_text(width, height)],
                old(self).last_sync_ts_unix_ms,
                ts_unix_ms,
            ),
            final(self).pending_input_bytes == old(self).pending_input_bytes,
            final(self).pending_output_bytes == old(self).pending_output_bytes,
            final(self).start_ts_unix_ms == old(self).start_ts_unix_ms,
    {
        let data = resize_event_data(width, height);
        let mut actions: Vec<CastAction> = Vec::new();
        assert(actions_view(actions@) =~= Seq::<CastActionView>::empty());
        write_event_line(
            &mut actions,
            self.start_ts_unix_ms,
            &mut self.last_sync_ts_unix_ms,
            ts_unix_ms,
            EventKind::Resize,
            data,
        );
        assert(actions_view(actions@) =~= Seq::<CastActionView>::empty() + write_actions(
            seq![resize_text(width, height)],
            old(self).start_ts_unix_ms,
            old(self).last_sync_ts_unix_ms,
            ts_unix_ms,
            EventKind::Resize,
        ));
        actions
    }

    /// End the session at `ts_unix_ms`: write what is pending of the input,
    /// then of the output, each decoded lossily, then flush everything.
    pub fn finish(&mut self, ts_unix_ms: u64) -> (res: Vec<CastAction>)
        ensures
            ({
                let inp = flush_texts(old(self).pending_input_bytes@);
                let out = flush_texts(old(self).pending_output_bytes@);
                let mid = sync_after(inp, old(self).last_sync_ts_unix_ms, ts_unix_ms);
                &&& actions_view(res@) == write_actions(
                    inp,
                    old(self).start_ts_unix_ms,
                    old(self).last_sync_ts_unix_ms,
                    ts_unix_ms,
                    EventKind::Input,
                ) + write_actions(
                    out,
                    old(self).start_ts_unix_ms,
                    mid,
                    ts_unix_ms,
                    EventKind::Output,
                ) + seq![CastActionView::SyncAll]
                &&& final(self).last_sync_ts_unix_ms == sync_after(out, mid, ts_unix_ms)
            }),
            final(self).pending_input_bytes@ == Seq::<u8>::empty(),
            final(self).pending_output_bytes@ == Seq::<u8>::empty(),
            final(self).start_ts_unix_ms == old(self).start_ts_unix_ms,
    {
        let mut actions: Vec<CastAction> = Vec::new();
        assert(actions_view(actions@) =~= Seq::<CastActionView>::empty());
        flush_pending_bytes(
            &mut actions,
            self.start_ts_unix_ms,
            &mut self.last_sync_ts_unix_ms,
            &mut self.pending_input_bytes,
            ts_unix_ms,
            EventKind::Input,
        );
        flush_pending_bytes(
            &mut actions,
            self.start_ts_unix_ms,
            &mut self.last_sync_ts_unix_ms,
            &mut self.pending_output_bytes,
            ts_unix_ms,
            EventKind::Output,
        );
        let ghost before = actions@;
        actions.push(CastAction::SyncAll);
        assert(actions_view(actions@) =~= actions_view(before).push(CastActionView::SyncAll));
        assert(actions_view(actions@) =~= Seq::<CastActionView>::empty() + write_actions(
            flush_texts(old(self).pending_input_bytes@),
            old(self).start_ts_unix_ms,
            old(self).last_sync_ts_unix_ms,
            ts_unix_ms,
            EventKind::Input,
        ) + write_actions(
            flush_texts(old(self).pending_output_bytes@),
            old(self).start_ts_unix_ms,
            sync_after(
                flush_texts(old(self).pending_input_bytes@),
                old(self).last_sync_ts_unix_ms,
                ts_unix_ms,
            ),
            ts_unix_ms,
            EventKind::Output,
        ) + seq![CastActionView::SyncAll]);
        actions
    }
}

/// The texts written when a stream's pending bytes are flushed: their lossy
/// decoding, unless there are none or it is empty.
pub open spec fn flush_texts(pending: Seq<u8>) -> Seq<Seq<char>> {
    if pending.len() == 0 || utf8_lossy(pending).len() == 0 {
        Seq::empty()
    } else {
        seq![utf8_lossy(pending)]
    }
}

fn flush_pending_bytes(
    actions: &mut Vec<CastAction>,
    start_ts_unix_ms: u64,
    last_sync_ts_unix_ms: &mut u64,
    pending: &mut Vec<u8>,
    ts_unix_ms: u64,
    kind: EventKind,
)
    ensures
        actions_view(final(actions)@) == actions_view(old(actions)@) + write_actions(
            flush_texts(old(pending)@),
            start_ts_unix_ms,
            *old(last_sync_ts_unix_ms),
            ts_unix_ms,
            kind,
        ),
        *final(last_sync_ts_unix_ms) == sync_after(
            flush_texts(old(pending)@),
            *old(last_sync_ts_unix_ms),
            ts_unix_ms,
        ),
        final(pending)@ == Seq::<u8>::empty(),
{
    if pending.len() == 0 {
        assert(actions_view(actions@) =~= actions_view(actions@) + Seq::<CastActionView>::empty());
        return;
    }
    let data = lossy_text(pending.as_slice());
    pending.clear();
    if data.as_str().is_empty() {
        assert(actions_view(actions@) =~= actions_view(actions@) + Seq::<CastActionView>::empty());
        return;
    }
    write_event_line(actions, start_ts_unix_ms, last_sync_ts_unix_ms, ts_unix_ms, kind, data);
}

// ---------------------------------------------------------------------------
// Header, metadata and file names
// ---------------------------------------------------------------------------

/// The text of a resize event: `<width>x<height>`.
pub open spec fn resize_text(width: u16, height: u16) -> Seq<char> {
    decimal(width as nat) + "x"@ + decimal(height as nat)
}

/// The text of a resize event.
pub fn resize_event_data(width: u16, height: u16) -> (res: String)
    ensures
        res@ == resize_text(width, height),
{
    let w = decimal_string(width as u64);
    let h = decimal_string(height as u64);
    let mut v = chars_of(w.as_str());
    let mut x = chars_of("x");
    let mut hv = chars_of(h.as_str());
    v.append(&mut x);
    v.append(&mut hv);
    string_from_chars(v.as_slice())
}

/// The metadata of a recording: the command that runs, if any, and the
/// environment variables worth keeping, ordered by name.
#[derive(Debug, Clone, PartialEq, Eq)]
pub struct CastMetadata {
    pub command: Option<String>,
    pub env: Vec<(String, String)>,
}

/// The header line of a cast file.
#[derive(Debug, Clone, PartialEq, Eq)]
pub struct CastHeader {
    pub version: u8,
    pub width: u16,
    pub height: u16,
    pub timestamp: u64,
    pub command: Option<String>,
    pub env: Vec<(String, String)>,
}

/// The header of a session of `width` x `height` that started at
/// `start_ts_unix_ms`: asciicast version 2, the start in whole seconds.
pub fn cast_header(start_ts_unix_ms: u64, width: u16, height: u16, metadata: CastMetadata) -> (res:
    CastHeader)
    ensures
        res.version == 2,
        res.width == width,
        res.height == height,
        res.timestamp == start_ts_unix_ms / 1000,
        res.command == metadata.command,
        res.env == metadata.env,
{
    CastHeader {
        version: 2,
        width,
        height,
        timestamp: start_ts_unix_ms / 1000,
        command: metadata.command,
        env: metadata.env,
    }
}

pub open spec fn env_view(env: Seq<(String, String)>) -> Seq<(Seq<char>, Seq<char>)> {
    env.map_values(|e: (String, String)| (e.0@, e.1@))
}

/// The metadata of a recording: `SHELL` is the recording shell, and `TERM`
/// is kept where it is set and not empty.
pub fn build_cast_metadata(real_shell: &str, command: Option<String>, term: Option<String>) -> (res:
    CastMetadata)
    ensures
        res.command == command,
        env_view(res.env@) == match term {
            Some(t) => if t@.len() > 0 {
                seq![("SHELL"@, real_shell@), ("TERM"@, t@)]
            } else {
                seq![("SHELL"@, real_shell@)]
            },
            None => seq![("SHELL"@, real_shell@)],
        },
{
    let mut env: Vec<(String, String)> = Vec::new();
    env.push((owned("SHELL"), owned(real_shell)));
    match term {
        Some(t) => {
            if !t.as_str().is_empty() {
                env.push((owned("TERM"), t));
            }
        },
        None => {},
    }
    assert(env_view(env@) =~= match term {
        Some(t) => if t@.len() > 0 {
            seq![("SHELL"@, real_shell@), ("TERM"@, t@)]
        } else {
            seq![("SHELL"@, real_shell@)]
        },
        None => seq![("SHELL"@, real_shell@)],
    });
    CastMetadata { command, env }
}

/// The command recorded for `record-command`: the command, unless it is empty.
pub fn recorded_command(command: &str) -> (res: Option<String>)
    ensures
        match res {
            Some(c) => command@.len() > 0 && c@ == command@,
            None => command@.len() == 0,
        },
{
    if command.is_empty() {
        None
    } else {
        Some(owned(command))
    }
}

/// The input event of `record-command`: the command and a newline, unless
/// the command is empty.
pub fn command_input_text(command: &str) -> (res: Option<String>)
    ensures
        match res {
            Some(c) => command@.len() > 0 && c@ == command@ + seq!['\n'],
            None => command@.len() == 0,
        },
{
    if command.is_empty() {
        None
    } else {
        let mut v = chars_of(command);
        v.push('\n');
        Some(string_from_chars(v.as_slice()))
    }
}

/// A process's exit code, or 1 where it has none (it was killed by a signal).
pub fn exit_code_or_failure(code: Option<i32>) -> (res: i32)
    ensures
        res == match code {
            Some(c) => c,
            None => 1,
        },
{
    match code {
        Some(c) => c,
        None => 1,
    }
}

/// A PTY child's exit code as an `i32`, or 1 where it does not fit.
pub fn pty_exit_code(code: u32) -> (res: i32)
    ensures
        res == (if code <= i32::MAX { code as i32 } else { 1 }),
{
    if code <= 2147483647u32 {
        code as i32
    } else {
        1
    }
}

/// The terminal size, or 80 x 24 where it is not known.
pub fn tty_dimensions_or_default(size: Option<(u16, u16)>) -> (res: (u16, u16))
    ensures
        res == match size {
            Some(s) => s,
            None => (DEFAULT_TTY_WIDTH, DEFAULT_TTY_HEIGHT),
        },
{
    match size {
        Some(s) => s,
        None => (DEFAULT_TTY_WIDTH, DEFAULT_TTY_HEIGHT),
    }
}

/// The name of the cast file of a session: `ssh-session-<ts>-<pid>.cast`,
/// with `-<attempt>` before the extension after the first attempt.
pub open spec fn session_file_name_spec(start_ts_unix_ms: u64, pid: u32, attempt: u32) -> Seq<char> {
    "ssh-session-"@ + decimal(start_ts_unix_ms as nat) + "-"@ + decimal(pid as nat) + (if attempt
        == 0 {
        Seq::<char>::empty()
    } else {
        "-"@ + decimal(attempt as nat)
    }) + ".cast"@
}

/// The name of the cast file of a session.
pub fn session_file_name(start_ts_unix_ms: u64, pid: u32, attempt: u32) -> (res: String)
    ensures
        res@ == session_file_name_spec(start_ts_unix_ms, pid, attempt),
{
    let mut v = chars_of("ssh-session-");
    let ts = decimal_string(start_ts_unix_ms);
    let mut tv = chars_of(ts.as_str());
    v.append(&mut tv);
    let mut dash = chars_of("-");
    v.append(&mut dash);
    let p = decimal_string(pid as u64);
    let mut pv = chars_of(p.as_str());
    v.append(&mut pv);
    if attempt != 0 {
        let mut dash2 = chars_of("-");
        v.append(&mut dash2);
        let a = decimal_string(attempt as u64);
        let mut av = chars_of(a.as_str());
        v.append(&mut av);
    }
    let mut ext = chars_of(".cast");
    v.append(&mut ext);
    assert(v@ =~= session_file_name_spec(start_ts_unix_ms, pid, attempt));
    string_from_chars(v.as_slice())
}

/// What creating one candidate cast file gave.
#[derive(Debug, Clone, Copy, PartialEq, Eq, Structural)]
pub enum CreateOutcome {
    /// The file was created.
    Created,
    /// A file of that name exists already.
    AlreadyExists,
    /// Any other failure.
    Failed,
}

/// What to do next while looking for a free cast file name.
#[derive(Debug, Clone, Copy, PartialEq, Eq, Structural)]
pub enum SessionFileStep {
    /// The file is open: use it.
    Done,
    /// Try the name of this attempt.
    TryAttempt(u32),
    /// Every name was taken: fail with "already exists".
    GiveUp,
    /// Fail with the error of the last attempt.
    Fail,
}

/// The step after attempt `attempt` gave `outcome`: a taken name moves on
/// to the next attempt, until `SESSION_FILE_ATTEMPTS` names were tried.
pub fn next_session_file_step(attempt: u32, outcome: CreateOutcome) -> (res: SessionFileStep)
    ensures
        res == match outcome {
            CreateOutcome::Created => SessionFileStep::Done,
            CreateOutcome::Failed => SessionFileStep::Fail,
            CreateOutcome::AlreadyExists => if attempt + 1 < SESSION_FILE_ATTEMPTS {
                SessionFileStep::TryAttempt((attempt + 1) as u32)
            } else {
                SessionFileStep::GiveUp
            },
        },
{
    match outcome {
        CreateOutcome::Created => SessionFileStep::Done,
        CreateOutcome::Failed => SessionFileStep::Fail,
        CreateOutcome::AlreadyExists => {
            if attempt < SESSION_FILE_ATTEMPTS - 1 {
                SessionFileStep::TryAttempt(attempt + 1)
            } else {
                SessionFileStep::GiveUp
            }
        },
    }
}

/// Different attempts of one session try different file names, so a name
/// that is already taken is never tried twice.
pub proof fn law_session_file_names_differ(start_ts_unix_ms: u64, pid: u32, a: u32, b: u32)
    requires
        a != b,
    ensures
        session_file_name_spec(start_ts_unix_ms, pid, a) != session_file_name_spec(
            start_ts_unix_ms,
            pid,
            b,
        ),
{
    let prefix = "ssh-session-"@ + decimal(start_ts_unix_ms as nat) + "-"@ + decimal(pid as nat);
    let ma = if a == 0 {
        Seq::<char>::empty()
    } else {
        "-"@ + decimal(a as nat)
    };
    let mb = if b == 0 {
        Seq::<char>::empty()
    } else {
        "-"@ + decimal(b as nat)
    };
    let na = session_file_name_spec(start_ts_unix_ms, pid, a);
    let nb = session_file_name_spec(start_ts_unix_ms, pid, b);
    assert(na =~= prefix + ma + ".cast"@);
    assert(nb =~= prefix + mb + ".cast"@);
    lemma_decimal_digits(a as nat);
    lemma_decimal_digits(b as nat);
    reveal_strlit("-");
    if na == nb {
        assert(ma.len() == mb.len());
        assert(ma =~= na.subrange(prefix.len() as int, (prefix.len() + ma.len()) as int));
        assert(mb =~= nb.subrange(prefix.len() as int, (prefix.len() + mb.len()) as int));
        if a != 0 && b != 0 {
            assert(decimal(a as nat) =~= ma.drop_first());
            assert(decimal(b as nat) =~= mb.drop_first());
        }
    }
}

// ---------------------------------------------------------------------------
// Errors around a session
// ---------------------------------------------------------------------------

/// The kinds of I/O error that the session tells apart.
#[derive(Debug, Clone, Copy, PartialEq, Eq, Structural)]
pub enum IoErrorKind {
    BrokenPipe,
    ConnectionReset,
    UnexpectedEof,
    WouldBlock,
    Interrupted,
    NotFound,
    AlreadyExists,
    Other,
}

/// An I/O error that only says the shell or its terminal has gone away:
/// a broken pipe, a reset connection, an unexpected end, a read that would
/// block, or the OS errors 5 (EIO) and 32 (EPIPE).
pub open spec fn expected_pty_shutdown(kind: IoErrorKind, raw_os_error: Option<i32>) -> bool {
    ||| kind == IoErrorKind::BrokenPipe
    ||| kind == IoErrorKind::ConnectionReset
    ||| kind == IoErrorKind::UnexpectedEof
    ||| kind == IoErrorKind::WouldBlock
    ||| raw_os_error == Some(5i32)
    ||| raw_os_error == Some(32i32)
}

/// Does the error only say that the shell or its terminal has gone away?
pub fn is_expected_pty_shutdown_error(kind: IoErrorKind, raw_os_error: Option<i32>) -> (res: bool)
    ensures
        res == expected_pty_shutdown(kind, raw_os_error),
{
    match kind {
        IoErrorKind::BrokenPipe | IoErrorKind::ConnectionReset | IoErrorKind::UnexpectedEof
        | IoErrorKind::WouldBlock => true,
        _ => match raw_os_error {
            Some(code) => code == 5 || code == 32,
            None => false,
        },
    }
}

/// What to do after a read from the shell's terminal.
#[derive(Debug, Clone, Copy, PartialEq, Eq, Structural)]
pub enum ReadStep {
    /// Forward the bytes read and read again.
    Forward(usize),
    /// Read again.
    Retry,
    /// The shell is gone: stop reading.
    Stop,
    /// A real failure.
    Fail,
}

/// The step after a read that returned `Ok(n)` or failed with the given error.
pub fn classify_pty_read(read: Result<usize, (IoErrorKind, Option<i32>)>) -> (res: ReadStep)
    ensures
        res == match read {
            Ok(n) => if n == 0 {
                ReadStep::Stop
            } else {
                ReadStep::Forward(n)
            },
            Err((kind, raw)) => if kind == IoErrorKind::Interrupted {
                ReadStep::Retry
            } else if expected_pty_shutdown(kind, raw) {
                ReadStep::Stop
            } else {
                ReadStep::Fail
            },
        },
{
    match read {
        Ok(0) => ReadStep::Stop,
        Ok(n) => ReadStep::Forward(n),
        Err((kind, raw)) => {
            if kind == IoErrorKind::Interrupted {
                ReadStep::Retry
            } else if is_expected_pty_shutdown_error(kind, raw) {
                ReadStep::Stop
            } else {
                ReadStep::Fail
            }
        },
    }
}

/// The first error that a forwarding thread reported.
pub struct ErrorSlot {
    pub message: Option<String>,
}

impl ErrorSlot {
    pub fn new() -> (res: ErrorSlot)
        ensures
            res.message is None,
    {
        ErrorSlot { message: None }
    }

    /// Keep `message` unless an error is already kept.
    pub fn store_thread_error(&mut self, message: String)
        ensures
            final(self).message == match old(self).message {
                Some(m) => Some(m),
                None => Some(message),
            },
    {
        if self.message.is_none() {
            self.message = Some(message);
        }
    }

    /// Take the kept error, leaving none.
    pub fn take_thread_error(&mut self) -> (res: Option<String>)
        ensures
            res == old(self).message,
            final(self).message is None,
    {
        let res = self.message.take();
        res
    }
}

/// How a session ends once the shell has exited.
#[derive(Debug, Clone, PartialEq, Eq)]
pub enum SessionVerdict {
    InputFailed(String),
    ResizeFailed(String),
    OutputFailed,
    Finish,
}

/// The error of the input thread comes first, then that of the resize
/// thread, then a failure to read the shell's output; otherwise the cast
/// file is finished.
pub fn session_verdict(
    input_error: Option<String>,
    resize_error: Option<String>,
    output_failed: bool,
) -> (res: SessionVerdict)
    ensures
        res == match input_error {
            Some(m) => SessionVerdict::InputFailed(m),
            None => match resize_error {
                Some(m) => SessionVerdict::ResizeFailed(m),
                None => if output_failed {
                    SessionVerdict::OutputFailed
                } else {
                    SessionVerdict::Finish
                },
            },
        },
{
    match input_error {
        Some(m) => SessionVerdict::InputFailed(m),
        None => match resize_error {
            Some(m) => SessionVerdict::ResizeFailed(m),
            None => if output_failed {
                SessionVerdict::OutputFailed
            } else {
                SessionVerdict::Finish
            },
        },
    }
}

} // verus!
