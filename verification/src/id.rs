//! Unique identifiers.

use vstd::prelude::*;

verus! {

/// The start of the UNIX epoch, in steps of 100 ns since the start of the calendar that time based
/// UUIDs count from.
pub const UNIX_EPOCH_TICKS: u64 = 0x01B2_1DD2_1381_4000;

/// A time of the UNIX clock, in steps of 100 ns since the start of the calendar.
pub open spec fn ticks(seconds: u64, nanoseconds: u32) -> int {
    UNIX_EPOCH_TICKS + seconds * 10_000_000 + nanoseconds as int / 100
}

/// The time based UUID of a time, a sequence number and a node.
///
/// From the top, its bits are the low 32 and the middle 16 bits of the time, the version, the high
/// 12 bits of the time, the variant, 14 bits of the sequence number and 48 bits of the node.
pub open spec fn time_based_uuid(ticks: int, sequence: int, node: int) -> int {
    (ticks % 0x1_0000_0000) * 0x1_0000_0000_0000_0000_0000_0000
        + ((ticks / 0x1_0000_0000) % 0x1_0000) * 0x1_0000_0000_0000_0000_0000
        + (0x1000 + (ticks / 0x1_0000_0000_0000) % 0x1000) * 0x1_0000_0000_0000_0000
        + (0x8000 + sequence % 0x4000) * 0x1_0000_0000_0000 + node
}

/// `uuid::Uuid::new_v1` with the time that `uuid::v1::Timestamp::from_unix` takes from a context
/// that starts at `sequence`. Such a context hands out the number that it starts at first.
///
/// The time has to fit into 64 bits.
#[verifier::external_body]
fn new_v1(seconds: u64, nanoseconds: u32, sequence: u16, node: u64) -> (r: u128)
    requires
        ticks(seconds, nanoseconds) <= u64::MAX,
        node < 0x1_0000_0000_0000,
    ensures
        r == time_based_uuid(ticks(seconds, nanoseconds), sequence as int, node as int),
{
    let context = uuid::v1::Context::new(sequence);
    let time = uuid::v1::Timestamp::from_unix(&context, seconds, nanoseconds);
    uuid::Uuid::new_v1(time, &node.to_be_bytes()[2..]).unwrap().as_u128()
}

/// Where the identifiers of one kind come from.
pub struct IdSource {
    /// The sequence number of the next identifier.
    pub sequence: u16,
    /// The process that the identifiers are made in.
    pub process: u32,
}

impl IdSource {
    /// The identifier that comes next at the given time.
    pub open spec fn spec_next(self, seconds: u64, nanoseconds: u32) -> int {
        time_based_uuid(
            ticks(seconds, nanoseconds),
            self.sequence as int,
            self.process as int * 0x1_0000,
        )
    }

    /// Where the identifiers after the next one come from.
    pub open spec fn advanced(self) -> IdSource {
        IdSource { sequence: ((self.sequence + 1) % 0x1_0000) as u16, process: self.process }
    }

    /// The identifiers made in `process`, from the start.
    pub fn new(process: u32) -> (r: IdSource)
        ensures
            r.sequence == 0,
            r.process == process,
    {
        IdSource { sequence: 0, process }
    }

    /// The next identifier, made at the given time of the UNIX clock.
    ///
    /// The time has to fit into 64 bits.
    pub fn next(&mut self, seconds: u64, nanoseconds: u32) -> (r: u128)
        requires
            ticks(seconds, nanoseconds) <= u64::MAX,
        ensures
            r == old(self).spec_next(seconds, nanoseconds),
            final(self).sequence == (old(self).sequence + 1) % 0x1_0000,
            final(self).process == old(self).process,
            *final(self) == old(self).advanced(),
    {
        let sequence: u16 = self.sequence;
        self.sequence = sequence.wrapping_add(1);
        new_v1(seconds, nanoseconds, sequence, self.process as u64 * 0x1_0000)
    }
}

/// Two identifiers are the same only if they were made in the same process, at the same time, and
/// under sequence numbers with the same lower 14 bits.
///
/// Of the time the lower 60 bits count, which are enough until the year 5236.
pub proof fn law_ids_differ(
    a: IdSource,
    a_seconds: u64,
    a_nanoseconds: u32,
    b: IdSource,
    b_seconds: u64,
    b_nanoseconds: u32,
)
    requires
        a.spec_next(a_seconds, a_nanoseconds) == b.spec_next(b_seconds, b_nanoseconds),
    ensures
        a.process == b.process,
        a.sequence % 0x4000 == b.sequence % 0x4000,
        ticks(a_seconds, a_nanoseconds) % 0x1000_0000_0000_0000 == ticks(
            b_seconds,
            b_nanoseconds,
        ) % 0x1000_0000_0000_0000,
{
    let s = ticks(a_seconds, a_nanoseconds);
    let t = ticks(b_seconds, b_nanoseconds);
    lemma_parts(s, a.sequence as int, a.process as int * 0x1_0000, t, b.sequence as int, b.process as int * 0x1_0000);
}

/// Identifiers that are made one after the other differ, also if no time has passed.
pub proof fn law_next_id_differs(
    source: IdSource,
    seconds: u64,
    nanoseconds: u32,
    later_seconds: u64,
    later_nanoseconds: u32,
)
    ensures
        source.spec_next(seconds, nanoseconds) != source.advanced().spec_next(
            later_seconds,
            later_nanoseconds,
        ),
        source.advanced().process == source.process,
{
    if source.spec_next(seconds, nanoseconds) == source.advanced().spec_next(
        later_seconds,
        later_nanoseconds,
    ) {
        law_ids_differ(
            source,
            seconds,
            nanoseconds,
            source.advanced(),
            later_seconds,
            later_nanoseconds,
        );
    }
}

/// The two digits of a number to any base are its own.
proof fn lemma_two_digits(a: int, x: int, c: int, y: int, base: int)
    by (nonlinear_arith)
    requires
        0 <= x < base,
        0 <= y < base,
        a * base + x == c * base + y,
    ensures
        a == c,
        x == y,
{
}

/// The low 60 bits of a time are made of the three parts that stand in a UUID.
proof fn lemma_time_parts(t: int)
    requires
        t >= 0,
    ensures
        t % 0x1000_0000_0000_0000 == t % 0x1_0000_0000 + ((t / 0x1_0000_0000) % 0x1_0000)
            * 0x1_0000_0000 + ((t / 0x1_0000_0000_0000) % 0x1000) * 0x1_0000_0000_0000,
{
    let low = t % 0x1_0000_0000;
    let rest = t / 0x1_0000_0000;
    let middle = rest % 0x1_0000;
    let high = rest / 0x1_0000;
    assert(high == t / 0x1_0000_0000_0000);
    let top = high % 0x1000;
    let above = high / 0x1000;
    let value = low + middle * 0x1_0000_0000 + top * 0x1_0000_0000_0000;
    assert(t == above * 0x1000_0000_0000_0000 + value);
    vstd::arithmetic::div_mod::lemma_fundamental_div_mod_converse(
        t,
        0x1000_0000_0000_0000,
        above,
        value,
    );
}

proof fn lemma_parts(s: int, s_seq: int, s_node: int, t: int, t_seq: int, t_node: int)
    requires
        s >= 0,
        t >= 0,
        s_seq >= 0,
        t_seq >= 0,
        0 <= s_node < 0x1_0000_0000_0000,
        0 <= t_node < 0x1_0000_0000_0000,
        time_based_uuid(s, s_seq, s_node) == time_based_uuid(t, t_seq, t_node),
    ensures
        s_node == t_node,
        s_seq % 0x4000 == t_seq % 0x4000,
        s % 0x1000_0000_0000_0000 == t % 0x1000_0000_0000_0000,
{
    lemma_time_parts(s);
    lemma_time_parts(t);
    lemma_fields(
        s % 0x1_0000_0000,
        (s / 0x1_0000_0000) % 0x1_0000,
        (s / 0x1_0000_0000_0000) % 0x1000,
        s_seq % 0x4000,
        s_node,
        t % 0x1_0000_0000,
        (t / 0x1_0000_0000) % 0x1_0000,
        (t / 0x1_0000_0000_0000) % 0x1000,
        t_seq % 0x4000,
        t_node,
    );
}

proof fn lemma_fields(
    a1: int,
    a2: int,
    a3: int,
    a4: int,
    a5: int,
    b1: int,
    b2: int,
    b3: int,
    b4: int,
    b5: int,
)
    requires
        0 <= a2 < 0x1_0000,
        0 <= b2 < 0x1_0000,
        0 <= a3 < 0x1000,
        0 <= b3 < 0x1000,
        0 <= a4 < 0x4000,
        0 <= b4 < 0x4000,
        0 <= a5 < 0x1_0000_0000_0000,
        0 <= b5 < 0x1_0000_0000_0000,
        a1 * 0x1_0000_0000_0000_0000_0000_0000 + a2 * 0x1_0000_0000_0000_0000_0000 + (0x1000 + a3)
            * 0x1_0000_0000_0000_0000 + (0x8000 + a4) * 0x1_0000_0000_0000 + a5 == b1
            * 0x1_0000_0000_0000_0000_0000_0000 + b2 * 0x1_0000_0000_0000_0000_0000 + (0x1000 + b3)
            * 0x1_0000_0000_0000_0000 + (0x8000 + b4) * 0x1_0000_0000_0000 + b5,
    ensures
        a1 == b1,
        a2 == b2,
        a3 == b3,
        a4 == b4,
        a5 == b5,
{
    let a_time = a1 * 0x1_0000 + a2;
    let b_time = b1 * 0x1_0000 + b2;
    let a_version = a_time * 0x1_0000 + (0x1000 + a3);
    let b_version = b_time * 0x1_0000 + (0x1000 + b3);
    let a_sequence = a_version * 0x1_0000 + (0x8000 + a4);
    let b_sequence = b_version * 0x1_0000 + (0x8000 + b4);
    assert(a_sequence * 0x1_0000_0000_0000 + a5 == b_sequence * 0x1_0000_0000_0000 + b5);
    lemma_two_digits(a_sequence, a5, b_sequence, b5, 0x1_0000_0000_0000);
    lemma_two_digits(a_version, 0x8000 + a4, b_version, 0x8000 + b4, 0x1_0000);
    lemma_two_digits(a_time, 0x1000 + a3, b_time, 0x1000 + b3, 0x1_0000);
    lemma_two_digits(a1, a2, b1, b2, 0x1_0000);
}

} // verus!
