use vstd::prelude::*;
use crate::decimal::{
    digits_of, field_value, is_digit, lemma_digits_of, parse_field, push_decimal,
    unsigned_part,
};

verus! {

/// The ways in which producing an identifier can fail.
#[derive(Debug, Clone, Copy, PartialEq, Eq, Structural)]
pub enum UuidError {
    /// Opening, reading, writing or flushing a file failed.
    IoError,
    /// The lock on the state file could not be taken or released.
    LockError,
    /// The state file does not hold three well-formed fields.
    CorruptState,
    /// There is no network interface to take a node id from.
    NoNetworkInterface,
    /// The clock's reading in nanoseconds does not fit in an i64, or the
    /// epoch it is counted from could not be read.
    ClockOutOfRange,
}

/// What the state file holds, and what an identifier is built from.
#[derive(Debug, Clone, Copy, PartialEq, Eq, Structural)]
pub struct GeneratorState {
    pub node_id: u64,
    /// 100-nanosecond intervals since the Unix epoch.
    pub last_timestamp: u64,
    pub sequence: u16,
}

pub const NEWLINE: u8 = 10;

/// The index of the first newline in `s` at or after `i`, or the length
/// of `s` where there is none.
pub open spec fn line_end(s: Seq<u8>, i: int) -> int
    decreases s.len() - i,
{
    if i < 0 || i >= s.len() {
        s.len() as int
    } else if s[i] == NEWLINE {
        i
    } else {
        line_end(s, i + 1)
    }
}

/// The state that a text stands for: its first three newline-separated
/// lines read as a 64-bit timestamp, a 16-bit sequence and a 64-bit node
/// id. Lines after the third are not looked at.
pub open spec fn state_of_text(s: Seq<u8>) -> Option<GeneratorState> {
    let e0 = line_end(s, 0);
    let e1 = line_end(s, e0 + 1);
    let e2 = line_end(s, e1 + 1);
    if e0 < s.len() && e1 < s.len() {
        match (
            field_value(s.subrange(0, e0), 0x1_0000_0000_0000_0000),
            field_value(s.subrange(e0 + 1, e1), 0x1_0000),
            field_value(s.subrange(e1 + 1, e2), 0x1_0000_0000_0000_0000),
        ) {
            (Some(t), Some(q), Some(n)) => Some(
                GeneratorState { last_timestamp: t as u64, sequence: q as u16, node_id: n as u64 },
            ),
            _ => None,
        }
    } else {
        None
    }
}

/// The text that the state file holds for a state: the timestamp, the
/// sequence and the node id in decimal, one per line, with no final newline.
pub open spec fn text_of_state(st: GeneratorState) -> Seq<u8> {
    digits_of(st.last_timestamp as nat) + seq![NEWLINE] + digits_of(st.sequence as nat) + seq![
        NEWLINE] + digits_of(st.node_id as nat)
}

/// The sequence after one step: one more, wrapping from 65535 to 0.
pub open spec fn next_sequence(sequence: u16) -> u16 {
    ((sequence + 1) % 0x1_0000) as u16
}

/// The state after a load that read the time `now` and the node id
/// `node_id`: the clock sequence advances only where the stored timestamp
/// is later than `now`, that is where the clock went back.
pub open spec fn reconciled(stored: GeneratorState, now: u64, node_id: u64) -> GeneratorState {
    GeneratorState {
        node_id,
        last_timestamp: now,
        sequence: if stored.last_timestamp > now {
            next_sequence(stored.sequence)
        } else {
            stored.sequence
        },
    }
}

proof fn lemma_line_end_at(s: Seq<u8>, i: int, j: int)
    requires
        0 <= i <= j <= s.len(),
        forall|k: int| i <= k < j ==> s[k] != NEWLINE,
        j == s.len() || s[j] == NEWLINE,
    ensures
        line_end(s, i) == j,
    decreases j - i,
{
    if i < j {
        lemma_line_end_at(s, i + 1, j);
    }
}

fn find_line_end(s: &[u8], start: usize) -> (r: usize)
    requires
        start <= s@.len(),
    ensures
        r as int == line_end(s@, start as int),
        start <= r <= s@.len(),
{
    let mut i: usize = start;
    while i < s.len() && s[i] != NEWLINE
        invariant
            start <= i <= s@.len(),
            line_end(s@, start as int) == line_end(s@, i as int),
        decreases s@.len() - i,
    {
        i = i + 1;
    }
    i
}

/// Reads a state from the text of the state file.
pub fn decode_state(text: &[u8]) -> (r: Result<GeneratorState, UuidError>)
    ensures
        match state_of_text(text@) {
            Some(st) => r == Ok::<GeneratorState, UuidError>(st),
            None => r == Err::<GeneratorState, UuidError>(UuidError::CorruptState),
        },
{
    let e0 = find_line_end(text, 0);
    if e0 >= text.len() {
        return Err(UuidError::CorruptState);
    }
    let e1 = find_line_end(text, e0 + 1);
    if e1 >= text.len() {
        return Err(UuidError::CorruptState);
    }
    let e2 = find_line_end(text, e1 + 1);
    let timestamp = parse_field(text, 0, e0, 0x1_0000_0000_0000_0000);
    let sequence = parse_field(text, e0 + 1, e1, 0x1_0000);
    let node_id = parse_field(text, e1 + 1, e2, 0x1_0000_0000_0000_0000);
    match (timestamp, sequence, node_id) {
        (Some(t), Some(q), Some(n)) => Ok(
            GeneratorState { last_timestamp: t as u64, sequence: q as u16, node_id: n as u64 },
        ),
        _ => Err(UuidError::CorruptState),
    }
}

/// Writes a state as the text of the state file.
pub fn encode_state(state: &GeneratorState) -> (r: Vec<u8>)
    ensures
        r@ == text_of_state(*state),
{
    let mut out: Vec<u8> = Vec::new();
    push_decimal(state.last_timestamp as u128, &mut out);
    out.push(NEWLINE);
    push_decimal(state.sequence as u128, &mut out);
    out.push(NEWLINE);
    push_decimal(state.node_id as u128, &mut out);
    out
}

/// Brings a stored state up to the time `now` and the node id `node_id`.
pub fn reconcile(stored: GeneratorState, now: u64, node_id: u64) -> (r: GeneratorState)
    ensures
        r == reconciled(stored, now, node_id),
{
    let sequence: u16 = if stored.last_timestamp > now {
        if stored.sequence == 0xFFFF {
            0
        } else {
            stored.sequence + 1
        }
    } else {
        stored.sequence
    };
    GeneratorState { node_id, last_timestamp: now, sequence }
}

proof fn lemma_field_of_digits(n: nat, bound: nat)
    requires
        n < bound,
    ensures
        field_value(digits_of(n), bound) == Some(n),
{
    lemma_digits_of(n);
    let d = digits_of(n);
    assert(is_digit(d[0]));
    assert(unsigned_part(d) == d);
}

/// The text written for a state reads back as that state.
pub proof fn lemma_state_text_round_trip(st: GeneratorState)
    ensures
        state_of_text(text_of_state(st)) == Some(st),
{
    let a = digits_of(st.last_timestamp as nat);
    let b = digits_of(st.sequence as nat);
    let c = digits_of(st.node_id as nat);
    lemma_digits_of(st.last_timestamp as nat);
    lemma_digits_of(st.sequence as nat);
    lemma_digits_of(st.node_id as nat);
    let s = text_of_state(st);
    let e0 = a.len() as int;
    let e1 = e0 + 1 + b.len();
    let e2 = e1 + 1 + c.len();
    assert(s.len() == e2);
    assert forall|k: int| 0 <= k < e0 implies s[k] != NEWLINE by {
        assert(s[k] == a[k]);
        assert(is_digit(a[k]));
    }
    lemma_line_end_at(s, 0, e0);
    assert forall|k: int| e0 + 1 <= k < e1 implies s[k] != NEWLINE by {
        assert(s[k] == b[k - e0 - 1]);
        assert(is_digit(b[k - e0 - 1]));
    }
    lemma_line_end_at(s, e0 + 1, e1);
    assert forall|k: int| e1 + 1 <= k < e2 implies s[k] != NEWLINE by {
        assert(s[k] == c[k - e1 - 1]);
        assert(is_digit(c[k - e1 - 1]));
    }
    lemma_line_end_at(s, e1 + 1, e2);
    assert(s.subrange(0, e0) == a);
    assert(s.subrange(e0 + 1, e1) == b);
    assert(s.subrange(e1 + 1, e2) == c);
    lemma_field_of_digits(st.last_timestamp as nat, 0x1_0000_0000_0000_0000);
    lemma_field_of_digits(st.sequence as nat, 0x1_0000);
    lemma_field_of_digits(st.node_id as nat, 0x1_0000_0000_0000_0000);
}

/// The Unix epoch, in the form the clock's epoch is read from.
pub const UNIX_EPOCH_RFC3339: &'static str = "1970-01-01T00:00:00.000000000Z";

/// What chrono makes of an RFC 3339 date and time: nanoseconds since the
/// Unix epoch, if the text parses and the count fits in an i64.
pub uninterp spec fn rfc3339_nanos(text: Seq<char>) -> Option<int>;

/// Relies on chrono's `DateTime::parse_from_rfc3339`, with the parsed value
/// read out by `DateTime::timestamp_nanos_opt`: the result depends on the
/// text alone.
#[verifier::external_body]
fn parse_rfc3339_nanos(text: &str) -> (r: Option<i64>)
    ensures
        match r {
            Some(v) => rfc3339_nanos(text@) == Some(v as int),
            None => rfc3339_nanos(text@) is None,
        },
{
    match chrono::DateTime::parse_from_rfc3339(text) {
        Ok(t) => t.timestamp_nanos_opt(),
        Err(_) => None,
    }
}

/// Relies on chrono's `Utc::now`, read out by `DateTime::timestamp_nanos_opt`:
/// the current time in nanoseconds since the Unix epoch, or `None` where
/// that count does not fit in an i64. Nothing is known of the value.
#[verifier::external_body]
fn clock_nanos() -> (r: Option<i64>) {
    chrono::Utc::now().timestamp_nanos_opt()
}

/// Draws a value from rand's thread-local generator; nothing is known of it.
pub assume_specification<T>[ rand::random::<T> ]() -> (r: T)
    where
        rand::distributions::Standard: rand::distributions::Distribution<T>,
;

/// The number of whole 100-nanosecond intervals from `epoch_nanos` to
/// `now_nanos`, or `None` where `now_nanos` lies before the epoch.
pub open spec fn intervals_between(now_nanos: int, epoch_nanos: int) -> Option<nat> {
    if now_nanos >= epoch_nanos {
        Some(((now_nanos - epoch_nanos) / 100) as nat)
    } else {
        None
    }
}

/// Converts a clock reading in nanoseconds into 100-nanosecond intervals
/// since the epoch reading `epoch_nanos`.
pub fn intervals_since(now_nanos: i64, epoch_nanos: i64) -> (r: Option<u64>)
    ensures
        match intervals_between(now_nanos as int, epoch_nanos as int) {
            Some(v) => r == Some(v as u64),
            None => r is None,
        },
{
    if now_nanos >= epoch_nanos {
        let span: i128 = now_nanos as i128 - epoch_nanos as i128;
        Some((span / 100) as u64)
    } else {
        None
    }
}

/// Whether `v` is a count of 100-nanosecond intervals that the clock can
/// give: the epoch text parses, and some i64 nanosecond reading at or after
/// the epoch gives `v`.
pub open spec fn is_clock_reading(v: u64) -> bool {
    rfc3339_nanos(UNIX_EPOCH_RFC3339@) is Some && exists|now_nanos: i64|
        #![auto]
        intervals_between(now_nanos as int, rfc3339_nanos(UNIX_EPOCH_RFC3339@)->Some_0) == Some(
            v as nat,
        )
}

/// Reads the clock as 100-nanosecond intervals since the Unix epoch.
pub fn get_current_time_as_nanosecond_intervals() -> (r: Result<u64, UuidError>)
    ensures
        match r {
            Ok(v) => is_clock_reading(v),
            Err(e) => e == UuidError::ClockOutOfRange,
        },
{
    let now = clock_nanos();
    let epoch = parse_rfc3339_nanos(UNIX_EPOCH_RFC3339);
    match (now, epoch) {
        (Some(n), Some(e)) => match intervals_since(n, e) {
            Some(v) => {
                assert(intervals_between(n as int, rfc3339_nanos(UNIX_EPOCH_RFC3339@)->Some_0)
                    == Some(v as nat));
                Ok(v)
            },
            None => Err(UuidError::ClockOutOfRange),
        },
        _ => Err(UuidError::ClockOutOfRange),
    }
}

/// The first state of an empty state file, for the time `now`, the clock
/// sequence `draw` and the node id `node_id`.
pub fn initial_state(now: u64, draw: u16, node_id: u64) -> (r: GeneratorState)
    ensures
        r == (GeneratorState { node_id, last_timestamp: now, sequence: draw }),
{
    GeneratorState { node_id, last_timestamp: now, sequence: draw }
}

/// What a load gives for the contents of the state file, the time `now`,
/// the random draw `draw` and the node id `node_id`: the state, and whether
/// it is new.
pub open spec fn loaded(contents: Seq<u8>, now: u64, draw: u16, node_id: u64) -> Result<
    (GeneratorState, bool),
    UuidError,
> {
    if contents.len() == 0 {
        Ok((GeneratorState { node_id, last_timestamp: now, sequence: draw }, true))
    } else {
        match state_of_text(contents) {
            Some(stored) => Ok((reconciled(stored, now, node_id), false)),
            None => Err(UuidError::CorruptState),
        }
    }
}

/// The state to work with, from the contents of the state file, the time
/// `now`, a random clock sequence `draw` and the host's node id, together
/// with whether the file was empty and the state new (it must then be
/// written back at once). An empty file gives a new state; a non-empty one
/// the stored state brought up to `now` by `reconcile`. `draw` is used only
/// for an empty file.
pub fn load_state(contents: &[u8], now: u64, draw: u16, node_id: u64) -> (r: Result<
    (GeneratorState, bool),
    UuidError,
>)
    ensures
        r == loaded(contents@, now, draw, node_id),
{
    if contents.len() == 0 {
        Ok((initial_state(now, draw, node_id), true))
    } else {
        match decode_state(contents) {
            Ok(stored) => Ok((reconcile(stored, now, node_id), false)),
            Err(e) => Err(e),
        }
    }
}

/// `load_state` at the current time and with a fresh random draw. A clock
/// that cannot be read fails with `ClockOutOfRange` before the contents are
/// looked at.
pub fn get_global_state_from_stable_storage(contents: &[u8], node_id: u64) -> (r: Result<
    (GeneratorState, bool),
    UuidError,
>)
    ensures
        r is Err ==> r == Err::<(GeneratorState, bool), UuidError>(UuidError::ClockOutOfRange)
            || (contents@.len() > 0 && state_of_text(contents@) is None && r == Err::<
            (GeneratorState, bool),
            UuidError,
        >(UuidError::CorruptState)),
        contents@.len() > 0 && state_of_text(contents@) is None ==> r is Err,
        r is Ok ==> exists|now: u64, draw: u16|
            is_clock_reading(now) && r == loaded(contents@, now, draw, node_id),
{
    match get_current_time_as_nanosecond_intervals() {
        Ok(now) => {
            let draw: u16 = rand::random::<u16>();
            load_state(contents, now, draw, node_id)
        },
        Err(e) => Err(e),
    }
}

/// Between two loads the clock sequence moves on by one exactly where the
/// second load reads a time before the stored timestamp, and is kept
/// otherwise (the sequence below its largest value, where it would wrap).
pub proof fn lemma_sequence_advances_on_regression(stored: GeneratorState, now: u64, node_id: u64)
    requires
        stored.sequence < 0xFFFF,
    ensures
        now < stored.last_timestamp ==> reconciled(stored, now, node_id).sequence
            == stored.sequence + 1,
        now >= stored.last_timestamp ==> reconciled(stored, now, node_id).sequence
            == stored.sequence,
{
}

/// Committing a state and loading it again, at a time no earlier than the
/// committed timestamp and on the same host, gives back its node id and
/// sequence, with the timestamp moved to the new reading.
pub proof fn lemma_commit_then_load(st: GeneratorState, now: u64, draw: u16)
    requires
        now >= st.last_timestamp,
    ensures
        loaded(text_of_state(st), now, draw, st.node_id) == Ok::<(GeneratorState, bool), UuidError>(
            (GeneratorState { node_id: st.node_id, last_timestamp: now, sequence: st.sequence }, false),
        ),
{
    lemma_state_text_round_trip(st);
    lemma_digits_of(st.last_timestamp as nat);
}

} // verus!
