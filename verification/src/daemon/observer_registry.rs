//! Observer sinks of one session.
//!
//! Every sink is a bounded queue with a filter on event categories. A sink that
//! drops counts what it could not take; a sink that blocks makes the emitter
//! wait for room.

use crate::keyed::{
    contents, distinct_keys, lemma_contents_at, lemma_contents_domain,
    lemma_contents_len, lemma_contents_map, lemma_contents_push, lemma_contents_remove, lemma_contents_update,
};
use crate::observer::{EventCategory, ObserverEvent};
use crate::text::{
    append_hex, hex, hex_char, is_lower_hex, lemma_hex_at, lemma_hex_char, lemma_hex_len, same_text,
};
use crate::wire::{append_u64_le, le_u64, lemma_u64_le_round_trip};
use std::collections::VecDeque;
use vstd::arithmetic::div_mod::{lemma_mul_mod_noop_left, lemma_mul_mod_noop_right};
use vstd::arithmetic::mul::lemma_mul_is_associative;
use vstd::prelude::*;
use vstd::slice::slice_subrange;
use vstd::string::*;

verus! {

/// What a full sink does.
#[derive(Clone, Copy, Debug, PartialEq, Eq, Structural)]
pub enum ObserverBackpressure {
    /// Drops the event and counts it as missed.
    DropOldest,
    /// Makes the emitter wait for room.
    Block,
}

/// Increment of the identifier mixer.
pub const GOLDEN_GAMMA: u64 = 0x9E37_79B9_7F4A_7C15;

/// First multiplier of the identifier mixer.
pub const MIX_FIRST: u64 = 0xBF58_476D_1CE4_E5B9;

/// Second multiplier of the identifier mixer.
pub const MIX_SECOND: u64 = 0x94D0_49BB_1331_11EB;

/// A sum modulo 2^64.
pub open spec fn wrapped_sum(a: u64, b: u64) -> u64 {
    ((a + b) % 0x1_0000_0000_0000_0000) as u64
}

/// A product modulo 2^64.
pub open spec fn wrapped_product(a: u64, b: u64) -> u64 {
    ((a * b) % 0x1_0000_0000_0000_0000) as u64
}

/// The identifier mixer: a bijection of 64-bit numbers that spreads its input
/// over all bits.
pub open spec fn mixed(x: u64) -> u64 {
    let a = wrapped_sum(x, GOLDEN_GAMMA);
    let b = wrapped_product(a ^ (a >> 30), MIX_FIRST);
    let c = wrapped_product(b ^ (b >> 27), MIX_SECOND);
    c ^ (c >> 31)
}

fn wrapping_product(a: u64, b: u64) -> (c: u64)
    ensures
        c == wrapped_product(a, b),
{
    assert(0 <= a * b <= u64::MAX * u64::MAX) by (nonlinear_arith)
        requires
            0 <= a <= u64::MAX,
            0 <= b <= u64::MAX,
    ;
    ((a as u128 * b as u128) % 0x1_0000_0000_0000_0000) as u64
}

fn wrapping_sum(a: u64, b: u64) -> (c: u64)
    ensures
        c == wrapped_sum(a, b),
{
    ((a as u128 + b as u128) % 0x1_0000_0000_0000_0000) as u64
}

fn splitmix64(x: u64) -> (z: u64)
    ensures
        z == mixed(x),
{
    let a: u64 = wrapping_sum(x, GOLDEN_GAMMA);
    let b: u64 = wrapping_product(a ^ (a >> 30), MIX_FIRST);
    let c: u64 = wrapping_product(b ^ (b >> 27), MIX_SECOND);
    c ^ (c >> 31)
}

/// The sixteen bytes of an identifier before its layout bits are set.
pub open spec fn mixed_bytes(counter: u64, nanos: u64) -> Seq<u8> {
    let lo = mixed(nanos ^ counter);
    let hi = mixed(wrapped_sum(lo, wrapped_product(counter, GOLDEN_GAMMA)));
    le_u64(hi) + le_u64(lo)
}

/// Sixteen bytes with the layout bits of version four, standard variant.
pub open spec fn with_layout(raw: Seq<u8>) -> Seq<u8> {
    raw.update(6, (raw[6] & 0x0F) | 0x40).update(8, (raw[8] & 0x3F) | 0x80)
}

/// The sixteen bytes of an identifier.
pub open spec fn id_bytes(counter: u64, nanos: u64) -> Seq<u8> {
    with_layout(mixed_bytes(counter, nanos))
}

/// The canonical text of sixteen bytes.
pub open spec fn id_text(b: Seq<u8>) -> Seq<char> {
    hex(b.subrange(0, 4)).push('-') + hex(b.subrange(4, 6)).push('-') + hex(b.subrange(6, 8)).push(
        '-',
    ) + hex(b.subrange(8, 10)).push('-') + hex(b.subrange(10, 16))
}

fn generate_uuid_v4_like(counter: u64, nanos: u64) -> (s: String)
    ensures
        s@ == id_text(id_bytes(counter, nanos)),
        s@.len() == 36,
{
    let lo: u64 = splitmix64(nanos ^ counter);
    let hi: u64 = splitmix64(wrapping_sum(lo, wrapping_product(counter, GOLDEN_GAMMA)));
    let mut bytes: Vec<u8> = Vec::new();
    append_u64_le(&mut bytes, hi);
    append_u64_le(&mut bytes, lo);
    proof {
        broadcast use crate::wire::lemma_le_u32_len;

        assert(bytes@ =~= mixed_bytes(counter, nanos));
        assert(bytes@.len() == 16);
    }
    let version: u8 = (bytes[6] & 0x0F) | 0x40;
    let variant: u8 = (bytes[8] & 0x3F) | 0x80;
    bytes.set(6, version);
    bytes.set(8, variant);
    let ghost b = bytes@;
    assert(b =~= id_bytes(counter, nanos));
    let mut s: String = String::new();
    append_hex(&mut s, slice_subrange(bytes.as_slice(), 0, 4));
    s.push('-');
    let ghost part1 = s@;
    assert(part1 =~= hex(b.subrange(0, 4)).push('-'));
    append_hex(&mut s, slice_subrange(bytes.as_slice(), 4, 6));
    s.push('-');
    let ghost part2 = s@;
    assert(part2 =~= part1 + hex(b.subrange(4, 6)).push('-'));
    append_hex(&mut s, slice_subrange(bytes.as_slice(), 6, 8));
    s.push('-');
    let ghost part3 = s@;
    assert(part3 =~= part2 + hex(b.subrange(6, 8)).push('-'));
    append_hex(&mut s, slice_subrange(bytes.as_slice(), 8, 10));
    s.push('-');
    assert(s@ =~= part3 + hex(b.subrange(8, 10)).push('-'));
    append_hex(&mut s, slice_subrange(bytes.as_slice(), 10, 16));
    proof {
        lemma_hex_len(b.subrange(0, 4));
        lemma_hex_len(b.subrange(4, 6));
        lemma_hex_len(b.subrange(6, 8));
        lemma_hex_len(b.subrange(8, 10));
        lemma_hex_len(b.subrange(10, 16));
    }
    s
}

/// Identifier of a registered sink.
#[derive(Clone, Debug, PartialEq, Eq, Hash)]
pub struct ObserverSubscriberId(String);

impl View for ObserverSubscriberId {
    type V = Seq<char>;

    closed spec fn view(&self) -> Seq<char> {
        self.0@
    }
}

impl ObserverSubscriberId {
    /// The identifier for a call counter and a clock reading.
    pub fn new(counter: u64, nanos: u64) -> (id: ObserverSubscriberId)
        ensures
            id@ == id_text(id_bytes(counter, nanos)),
            id@.len() == 36,
    {
        ObserverSubscriberId(generate_uuid_v4_like(counter, nanos))
    }

    /// The identifier with a given text.
    pub fn from_string(value: String) -> (id: ObserverSubscriberId)
        ensures
            id@ == value@,
    {
        ObserverSubscriberId(value)
    }

    /// The text of this identifier.
    pub fn as_str(&self) -> (s: &str)
        ensures
            s@ == self@,
    {
        self.0.as_str()
    }

    /// The text of this identifier.
    pub fn into_string(self) -> (s: String)
        ensures
            s@ == self@,
    {
        self.0
    }

    /// Another identifier with the same text.
    pub fn copied(&self) -> (id: ObserverSubscriberId)
        ensures
            id@ == self@,
    {
        ObserverSubscriberId(self.0.as_str().to_owned())
    }
}

/// The layout bits of an identifier name its version and its variant.
pub proof fn law_identifier_layout(counter: u64, nanos: u64)
    ensures
        id_bytes(counter, nanos).len() == 16,
        id_bytes(counter, nanos)[6] / 16 == 4,
        8 <= id_bytes(counter, nanos)[8] / 16 <= 11,
{
    broadcast use crate::wire::lemma_le_u32_len;

    let raw = mixed_bytes(counter, nanos);
    assert(raw.len() == 16);
    let v = raw[6];
    let w = raw[8];
    assert(((v & 0x0F) | 0x40) / 16 == 4) by (bit_vector);
    assert(8 <= ((w & 0x3F) | 0x80) / 16 && ((w & 0x3F) | 0x80) / 16 <= 11) by (bit_vector);
}

/// Where byte `k` stands in the canonical text of sixteen bytes.
pub open spec fn id_offset(k: int) -> int {
    if k < 4 {
        2 * k
    } else if k < 6 {
        2 * k + 1
    } else if k < 8 {
        2 * k + 2
    } else if k < 10 {
        2 * k + 3
    } else {
        2 * k + 4
    }
}

proof fn lemma_id_text_at(b: Seq<u8>, k: int)
    requires
        b.len() == 16,
        0 <= k < 16,
    ensures
        id_text(b).len() == 36,
        id_text(b)[id_offset(k)] == hex_char((b[k] / 16) as nat),
        id_text(b)[id_offset(k) + 1] == hex_char((b[k] % 16) as nat),
        id_text(b)[8] == '-',
        id_text(b)[13] == '-',
        id_text(b)[18] == '-',
        id_text(b)[23] == '-',
{
    lemma_hex_len(b.subrange(0, 4));
    lemma_hex_len(b.subrange(4, 6));
    lemma_hex_len(b.subrange(6, 8));
    lemma_hex_len(b.subrange(8, 10));
    lemma_hex_len(b.subrange(10, 16));
    if k < 4 {
        lemma_hex_at(b.subrange(0, 4), k);
    } else if k < 6 {
        lemma_hex_at(b.subrange(4, 6), k - 4);
    } else if k < 8 {
        lemma_hex_at(b.subrange(6, 8), k - 6);
    } else if k < 10 {
        lemma_hex_at(b.subrange(8, 10), k - 8);
    } else {
        lemma_hex_at(b.subrange(10, 16), k - 10);
    }
}

/// Whether position `i` of an identifier's text holds a dash.
pub open spec fn id_dash_at(i: int) -> bool {
    i == 8 || i == 13 || i == 18 || i == 23
}

/// The text of an identifier has 36 characters: lower-case hexadecimal digits,
/// parted by four dashes, with the version and the variant at their places.
pub proof fn law_identifier_text(counter: u64, nanos: u64)
    ensures
        ({
            let s = id_text(id_bytes(counter, nanos));
            &&& s.len() == 36
            &&& forall|i: int| 0 <= i < 36 && id_dash_at(i) ==> #[trigger] s[i] == '-'
            &&& forall|i: int|
                0 <= i < 36 && !id_dash_at(i) ==> is_lower_hex(#[trigger] s[i])
            &&& s[14] == '4'
            &&& s[19] == '8' || s[19] == '9' || s[19] == 'a' || s[19] == 'b'
        }),
{
    let b = id_bytes(counter, nanos);
    let s = id_text(b);
    law_identifier_layout(counter, nanos);
    lemma_id_text_at(b, 6);
    lemma_id_text_at(b, 8);
    assert(hex_char(4) == '4');
    assert forall|i: int| 0 <= i < 36 && !id_dash_at(i) implies is_lower_hex(#[trigger] s[i]) by {
        let k = if i < 8 {
            i / 2
        } else if i < 13 {
            (i - 1) / 2
        } else if i < 18 {
            (i - 2) / 2
        } else if i < 23 {
            (i - 3) / 2
        } else {
            (i - 4) / 2
        };
        lemma_id_text_at(b, k);
        lemma_hex_char((b[k] / 16) as nat, 0);
        lemma_hex_char((b[k] % 16) as nat, 0);
        assert(i == id_offset(k) || i == id_offset(k) + 1);
    }
}

proof fn lemma_id_text_tells_bytes(a: Seq<u8>, b: Seq<u8>)
    requires
        a.len() == 16,
        b.len() == 16,
        id_text(a) == id_text(b),
    ensures
        a == b,
{
    assert forall|k: int| 0 <= k < 16 implies a[k] == b[k] by {
        lemma_id_text_at(a, k);
        lemma_id_text_at(b, k);
        lemma_hex_char((a[k] / 16) as nat, (b[k] / 16) as nat);
        lemma_hex_char((a[k] % 16) as nat, (b[k] % 16) as nat);
    }
    assert(a =~= b);
}

proof fn lemma_product_tells_factor(a: u64, b: u64, m: u64, inverse: u64)
    requires
        (m * inverse) % 0x1_0000_0000_0000_0000 == 1,
        wrapped_product(a, m) == wrapped_product(b, m),
    ensures
        a == b,
{
    let n: int = 0x1_0000_0000_0000_0000;
    let i = inverse as int;
    lemma_mul_mod_noop_left(a * m, i, n);
    lemma_mul_mod_noop_left(b * m, i, n);
    lemma_mul_is_associative(a as int, m as int, i);
    lemma_mul_is_associative(b as int, m as int, i);
    lemma_mul_mod_noop_right(a as int, m * i, n);
    lemma_mul_mod_noop_right(b as int, m * i, n);
}

proof fn lemma_mixed_tells_input(x: u64, y: u64)
    requires
        mixed(x) == mixed(y),
    ensures
        x == y,
{
    let a = wrapped_sum(x, GOLDEN_GAMMA);
    let b = wrapped_product(a ^ (a >> 30), MIX_FIRST);
    let c = wrapped_product(b ^ (b >> 27), MIX_SECOND);
    let d = wrapped_sum(y, GOLDEN_GAMMA);
    let e = wrapped_product(d ^ (d >> 30), MIX_FIRST);
    let f = wrapped_product(e ^ (e >> 27), MIX_SECOND);
    assert(c ^ (c >> 31) == f ^ (f >> 31) ==> c == f) by (bit_vector);
    lemma_product_tells_factor(b ^ (b >> 27), e ^ (e >> 27), MIX_SECOND, 0x3196_42B2_D24D_8EC3);
    assert(b ^ (b >> 27) == e ^ (e >> 27) ==> b == e) by (bit_vector);
    lemma_product_tells_factor(a ^ (a >> 30), d ^ (d >> 30), MIX_FIRST, 0x96DE_1B17_3F11_9089);
    assert(a ^ (a >> 30) == d ^ (d >> 30) ==> a == d) by (bit_vector);
}

proof fn lemma_bytes_tell_numbers(hi: u64, lo: u64, other_hi: u64, other_lo: u64)
    requires
        le_u64(hi) + le_u64(lo) == le_u64(other_hi) + le_u64(other_lo),
    ensures
        hi == other_hi,
        lo == other_lo,
{
    lemma_u64_le_round_trip(hi);
    lemma_u64_le_round_trip(other_hi);
    lemma_u64_le_round_trip(lo);
    lemma_u64_le_round_trip(other_lo);
    let s = le_u64(hi) + le_u64(lo);
    assert(le_u64(hi) =~= s.subrange(0, 8));
    assert(le_u64(other_hi) =~= s.subrange(0, 8));
    assert(le_u64(lo) =~= s.subrange(8, 16));
    assert(le_u64(other_lo) =~= s.subrange(8, 16));
}

proof fn lemma_sum_tells_addend(a: u64, p: u64, q: u64)
    requires
        wrapped_sum(a, p) == wrapped_sum(a, q),
    ensures
        p == q,
{
}

/// Calls of one process have different counters, and different counters are
/// mixed into different bytes, whatever the clock reads.
pub proof fn law_counters_are_told_apart(
    counter: u64,
    nanos: u64,
    other_counter: u64,
    other_nanos: u64,
)
    requires
        counter != other_counter,
    ensures
        mixed_bytes(counter, nanos) != mixed_bytes(other_counter, other_nanos),
{
    if mixed_bytes(counter, nanos) == mixed_bytes(other_counter, other_nanos) {
        let lo = mixed(nanos ^ counter);
        let p = wrapped_product(counter, GOLDEN_GAMMA);
        let other_lo = mixed(other_nanos ^ other_counter);
        let q = wrapped_product(other_counter, GOLDEN_GAMMA);
        lemma_bytes_tell_numbers(
            mixed(wrapped_sum(lo, p)),
            lo,
            mixed(wrapped_sum(other_lo, q)),
            other_lo,
        );
        lemma_mixed_tells_input(wrapped_sum(lo, p), wrapped_sum(other_lo, q));
        lemma_sum_tells_addend(lo, p, q);
        lemma_product_tells_factor(counter, other_counter, GOLDEN_GAMMA, 0xF1DE_83E1_9937_733D);
    }
}

/// Whether two mixtures agree in all bits but the six that the layout sets.
pub open spec fn agree_outside_layout(a: Seq<u8>, b: Seq<u8>) -> bool {
    &&& forall|i: int| 0 <= i < 16 && i != 6 && i != 8 ==> #[trigger] a[i] == b[i]
    &&& a[6] & 0x0F == b[6] & 0x0F
    &&& a[8] & 0x3F == b[8] & 0x3F
}

proof fn lemma_text_tells_the_rest(raw: Seq<u8>, other: Seq<u8>)
    requires
        raw.len() == 16,
        other.len() == 16,
        id_text(with_layout(raw)) == id_text(with_layout(other)),
    ensures
        agree_outside_layout(raw, other),
{
    let a = with_layout(raw);
    let b = with_layout(other);
    lemma_id_text_tells_bytes(a, b);
    assert forall|i: int| 0 <= i < 16 && i != 6 && i != 8 implies #[trigger] raw[i]
        == other[i] by {
        assert(a[i] == raw[i]);
        assert(b[i] == other[i]);
    }
    let (v, w, x, y) = (raw[6], other[6], raw[8], other[8]);
    assert(a[6] == (v & 0x0F) | 0x40 && b[6] == (w & 0x0F) | 0x40);
    assert(a[8] == (x & 0x3F) | 0x80 && b[8] == (y & 0x3F) | 0x80);
    assert((v & 0x0F) | 0x40 == (w & 0x0F) | 0x40 ==> v & 0x0F == w & 0x0F) by (bit_vector);
    assert((x & 0x3F) | 0x80 == (y & 0x3F) | 0x80 ==> x & 0x3F == y & 0x3F) by (bit_vector);
}

proof fn lemma_mixed_bytes_len(counter: u64, nanos: u64)
    ensures
        mixed_bytes(counter, nanos).len() == 16,
{
    broadcast use crate::wire::lemma_le_u32_len;

}

/// Identifiers of two calls differ, unless all bits in which their mixtures
/// differ are among the six that the layout sets.
pub proof fn law_identifiers_differ(
    counter: u64,
    nanos: u64,
    other_counter: u64,
    other_nanos: u64,
)
    requires
        counter != other_counter,
        !agree_outside_layout(
            mixed_bytes(counter, nanos),
            mixed_bytes(other_counter, other_nanos),
        ),
    ensures
        id_text(id_bytes(counter, nanos)) != id_text(id_bytes(other_counter, other_nanos)),
{
    lemma_mixed_bytes_len(counter, nanos);
    lemma_mixed_bytes_len(other_counter, other_nanos);
    if id_text(id_bytes(counter, nanos)) == id_text(id_bytes(other_counter, other_nanos)) {
        lemma_text_tells_the_rest(
            mixed_bytes(counter, nanos),
            mixed_bytes(other_counter, other_nanos),
        );
    }
}

/// State of a registered sink.
#[derive(Clone, Copy, Debug, PartialEq, Eq, Structural)]
pub struct ObserverSinkStatus {
    /// Cumulative count of events that could not be delivered because the
    /// bounded channel was full (`DropOldest`) or never (`Block`). What is
    /// offered after the receiver went away fills no channel and is not counted.
    pub missed_events: u64,
    /// Whether the sink noticed that its receiver is gone.
    pub disconnected: bool,
    /// Number of events that were handed to the queue.
    pub delivered_events: u64,
}

/// A registered sink.
#[derive(Clone, Debug, PartialEq, Eq)]
pub struct ObserverSink {
    categories: Vec<EventCategory>,
    capacity: usize,
    backpressure: ObserverBackpressure,
    queue: VecDeque<ObserverEvent>,
    receiver_gone: bool,
    missed_events: u64,
    delivered_events: u64,
    disconnected: bool,
}

/// What an [`ObserverSink`] holds.
#[verifier::ext_equal]
pub struct ObserverSinkModel {
    /// Categories that the sink takes.
    pub categories: Seq<EventCategory>,
    /// Most events that may wait.
    pub capacity: nat,
    /// What the sink does when it is full.
    pub backpressure: ObserverBackpressure,
    /// Events that wait, oldest first.
    pub queue: Seq<ObserverEvent>,
    /// Whether the receiver is gone.
    pub receiver_gone: bool,
    /// Number of events that could not be delivered because the channel was
    /// full.
    pub missed: u64,
    /// Number of events that were handed to the queue.
    pub delivered: u64,
    /// Whether the sink noticed that its receiver is gone.
    pub disconnected: bool,
}

/// The counter after one more event; it wraps around.
pub open spec fn one_more(n: u64) -> u64 {
    wrapped_sum(n, 1)
}

impl ObserverSinkModel {
    /// Whether the sink takes events of a category.
    pub open spec fn takes(self, category: EventCategory) -> bool {
        self.categories.contains(category)
    }

    /// Whether the sink noticed only a receiver that is gone, holds no more than
    /// may wait, and missed nothing if it makes the emitter wait.
    pub open spec fn wf(self) -> bool {
        &&& self.disconnected ==> self.receiver_gone
        &&& self.queue.len() <= self.capacity
        &&& self.capacity > 0
        &&& self.backpressure == ObserverBackpressure::Block ==> self.missed == 0
    }

    /// Whether an event still fits.
    pub open spec fn has_room(self) -> bool {
        self.queue.len() < self.capacity
    }

    /// Whether the emitter of an event has to wait for this sink.
    pub open spec fn blocks(self, event: ObserverEvent) -> bool {
        &&& self.takes(event.category)
        &&& !self.disconnected
        &&& !self.receiver_gone
        &&& !self.has_room()
        &&& self.backpressure == ObserverBackpressure::Block
    }

    /// The sink after an event was offered.
    pub open spec fn offered(self, event: ObserverEvent) -> ObserverSinkModel {
        if !self.takes(event.category) || self.blocks(event) {
            self
        } else if self.disconnected || self.receiver_gone {
            ObserverSinkModel { disconnected: true, ..self }
        } else if self.has_room() {
            ObserverSinkModel {
                queue: self.queue.push(event),
                delivered: one_more(self.delivered),
                ..self
            }
        } else {
            ObserverSinkModel { missed: one_more(self.missed), ..self }
        }
    }

    /// A sink that holds nothing yet; at least one event may wait.
    pub open spec fn fresh(
        categories: Seq<EventCategory>,
        capacity: nat,
        backpressure: ObserverBackpressure,
    ) -> ObserverSinkModel {
        ObserverSinkModel {
            categories,
            capacity: if capacity == 0 {
                1
            } else {
                capacity
            },
            backpressure,
            queue: Seq::empty(),
            receiver_gone: false,
            missed: 0,
            delivered: 0,
            disconnected: false,
        }
    }
}

impl View for ObserverSink {
    type V = ObserverSinkModel;

    closed spec fn view(&self) -> ObserverSinkModel {
        ObserverSinkModel {
            categories: self.categories@,
            capacity: self.capacity as nat,
            backpressure: self.backpressure,
            queue: self.queue@,
            receiver_gone: self.receiver_gone,
            missed: self.missed_events,
            delivered: self.delivered_events,
            disconnected: self.disconnected,
        }
    }
}

impl ObserverSink {
    fn matches(&self, category: EventCategory) -> (b: bool)
        ensures
            b == self@.takes(category),
    {
        let mut i: usize = 0;
        while i < self.categories.len()
            invariant
                i <= self.categories@.len(),
                forall|j: int| 0 <= j < i ==> self.categories@[j] != category,
            decreases self.categories@.len() - i,
        {
            if self.categories[i] == category {
                assert(self@.categories[i as int] == category);
                return true;
            }
            i = i + 1;
        }
        false
    }

    fn status(&self) -> (s: ObserverSinkStatus)
        ensures
            s == (ObserverSinkStatus {
                missed_events: self@.missed,
                disconnected: self@.disconnected,
                delivered_events: self@.delivered,
            }),
    {
        ObserverSinkStatus {
            missed_events: self.missed_events,
            disconnected: self.disconnected,
            delivered_events: self.delivered_events,
        }
    }

    /// Offers an event; false where the emitter has to wait.
    fn push(&mut self, event: ObserverEvent) -> (done: bool)
        ensures
            final(self)@ == old(self)@.offered(event),
            done == !old(self)@.blocks(event),
    {
        if !self.matches(event.category) {
            return true;
        }
        if self.disconnected || self.receiver_gone {
            self.disconnected = true;
            return true;
        }
        if self.queue.len() < self.capacity {
            self.queue.push_back(event);
            self.delivered_events = wrapping_sum(self.delivered_events, 1);
            return true;
        }
        match self.backpressure {
            ObserverBackpressure::DropOldest => {
                self.missed_events = wrapping_sum(self.missed_events, 1);
                true
            },
            ObserverBackpressure::Block => false,
        }
    }
}

/// The observer sinks of one session.
#[derive(Clone, Debug, PartialEq, Eq)]
pub struct ObserverRegistry {
    sinks: Vec<(ObserverSubscriberId, ObserverSink)>,
}

impl ObserverRegistry {
    closed spec fn entries(&self) -> Seq<(Seq<char>, ObserverSinkModel)> {
        self.sinks@.map_values(|e: (ObserverSubscriberId, ObserverSink)| (e.0@, e.1@))
    }

    /// Whether every identifier is registered once.
    pub closed spec fn registers_once(&self) -> bool {
        distinct_keys(self.entries())
    }

    /// Whether every identifier is registered once and every sink keeps its own
    /// invariant.
    pub open spec fn wf(&self) -> bool {
        &&& self.registers_once()
        &&& forall|k: Seq<char>| #[trigger] self@.dom().contains(k) ==> self@[k].wf()
    }
}

impl View for ObserverRegistry {
    type V = Map<Seq<char>, ObserverSinkModel>;

    closed spec fn view(&self) -> Map<Seq<char>, ObserverSinkModel> {
        contents(self.entries())
    }
}

impl Default for ObserverRegistry {
    fn default() -> (r: ObserverRegistry)
        ensures
            r.wf(),
            r@ == Map::<Seq<char>, ObserverSinkModel>::empty(),
    {
        ObserverRegistry::new()
    }
}

impl ObserverRegistry {
    /// A registry without sinks.
    pub fn new() -> (r: ObserverRegistry)
        ensures
            r.wf(),
            r@ == Map::<Seq<char>, ObserverSinkModel>::empty(),
    {
        ObserverRegistry { sinks: Vec::new() }
    }

    fn find(&self, id: &ObserverSubscriberId) -> (r: Option<usize>)
        requires
            self.wf(),
        ensures
            match r {
                Some(i) => i < self.sinks@.len() && self.sinks@[i as int].0@ == id@
                    && self@.dom().contains(id@) && self@[id@] == self.sinks@[i as int].1@,
                None => !self@.dom().contains(id@),
            },
    {
        let mut i: usize = 0;
        while i < self.sinks.len()
            invariant
                i <= self.sinks@.len(),
                self.wf(),
                forall|j: int| 0 <= j < i ==> (#[trigger] self.entries()[j]).0 != id@,
            decreases self.sinks@.len() - i,
        {
            assert(self.entries()[i as int].0 == self.sinks@[i as int].0@);
            if same_text(self.sinks[i].0.as_str(), id.as_str()) {
                proof {
                    lemma_contents_at(self.entries(), i as int);
                }
                return Some(i);
            }
            i = i + 1;
        }
        proof {
            lemma_contents_domain(self.entries(), id@);
        }
        None
    }

    /// Removes a sink; false where there is none.
    pub fn remove(&mut self, id: &ObserverSubscriberId) -> (removed: bool)
        requires
            old(self).wf(),
        ensures
            final(self).wf(),
            final(self)@ == old(self)@.remove(id@),
            removed == old(self)@.dom().contains(id@),
    {
        match self.find(id) {
            Some(i) => {
                let ghost before = self.entries();
                proof {
                    lemma_contents_remove(before, i as int);
                }
                let _gone = self.sinks.remove(i);
                assert(self.entries() =~= before.remove(i as int));
                true
            },
            None => {
                assert(self@ =~= old(self)@.remove(id@));
                false
            },
        }
    }

    /// Registers a sink under the identifier for a call counter and a clock
    /// reading; [`ObserverRegistry::try_recv`] empties it.
    pub fn add_channel(
        &mut self,
        categories: Vec<EventCategory>,
        capacity: usize,
        backpressure: ObserverBackpressure,
        counter: u64,
        nanos: u64,
    ) -> (id: ObserverSubscriberId)
        requires
            old(self).wf(),
        ensures
            final(self).wf(),
            id@ == id_text(id_bytes(counter, nanos)),
            final(self)@ == old(self)@.insert(
                id@,
                ObserverSinkModel::fresh(categories@, capacity as nat, backpressure),
            ),
    {
        let id = ObserverSubscriberId::new(counter, nanos);
        let key = id.copied();
        let _replaced = self.remove(&id);
        let sink = ObserverSink {
            categories,
            capacity: if capacity == 0 {
                1
            } else {
                capacity
            },
            backpressure,
            queue: VecDeque::new(),
            receiver_gone: false,
            missed_events: 0,
            delivered_events: 0,
            disconnected: false,
        };
        let ghost model = ObserverSinkModel::fresh(categories@, capacity as nat, backpressure);
        let ghost before = self.entries();
        assert(sink@ =~= model);
        proof {
            lemma_contents_domain(before, id@);
            lemma_contents_push(before, id@, model);
        }
        self.sinks.push((key, sink));
        assert(self.entries() =~= before.push((id@, model)));
        assert(self@ =~= old(self)@.insert(id@, model));
        id
    }

    /// State of a sink.
    pub fn status(&self, id: &ObserverSubscriberId) -> (r: Option<ObserverSinkStatus>)
        requires
            self.wf(),
        ensures
            match r {
                Some(s) => self@.dom().contains(id@) && s == (ObserverSinkStatus {
                    missed_events: self@[id@].missed,
                    disconnected: self@[id@].disconnected,
                    delivered_events: self@[id@].delivered,
                }),
                None => !self@.dom().contains(id@),
            },
    {
        match self.find(id) {
            Some(i) => Some(self.sinks[i].1.status()),
            None => None,
        }
    }

    /// Offers an event to every sink. Returned are the sinks that the emitter
    /// has to wait for: each takes the event by [`ObserverRegistry::offer`], once
    /// its receiver made room.
    pub fn emit(&mut self, event: ObserverEvent) -> (waiting: Vec<ObserverSubscriberId>)
        requires
            old(self).wf(),
        ensures
            final(self).wf(),
            final(self)@ == old(self)@.map_values(|s: ObserverSinkModel| s.offered(event)),
            forall|i: int|
                0 <= i < waiting@.len() ==> old(self)@.dom().contains((#[trigger] waiting@[i])@)
                    && old(self)@[waiting@[i]@].blocks(event),
            forall|k: Seq<char>|
                #[trigger] old(self)@.dom().contains(k) && old(self)@[k].blocks(event) ==> exists|
                    i: int,
                | 0 <= i < waiting@.len() && (#[trigger] waiting@[i])@ == k,
    {
        let ghost f = |s: ObserverSinkModel| s.offered(event);
        let ghost before = self.entries();
        let ghost sinks = self.sinks@;
        let mut waiting: Vec<ObserverSubscriberId> = Vec::new();
        let mut i: usize = 0;
        while i < self.sinks.len()
            invariant
                i <= self.sinks@.len(),
                self.sinks@.len() == sinks.len(),
                sinks == old(self).sinks@,
                before == old(self).entries(),
                old(self).wf(),
                forall|j: int|
                    0 <= j < i ==> (#[trigger] self.sinks@[j]).0@ == sinks[j].0@
                        && self.sinks@[j].1@ == sinks[j].1@.offered(event),
                forall|j: int| i <= j < sinks.len() ==> #[trigger] self.sinks@[j] == sinks[j],
                forall|w: int|
                    0 <= w < waiting@.len() ==> old(self)@.dom().contains((#[trigger] waiting@[w])@)
                        && old(self)@[waiting@[w]@].blocks(event),
                forall|j: int|
                    0 <= j < i && (#[trigger] before[j]).1.blocks(event) ==> exists|w: int|
                        0 <= w < waiting@.len() && (#[trigger] waiting@[w])@ == before[j].0,
            decreases sinks.len() - i,
        {
            let ghost seen = waiting@;
            let done = self.sinks[i].1.push(event);
            if !done {
                proof {
                    lemma_contents_at(before, i as int);
                }
                waiting.push(self.sinks[i].0.copied());
            }
            proof {
                assert(before[i as int].1 == sinks[i as int].1@);
                assert forall|j: int|
                    0 <= j < i + 1 && (#[trigger] before[j]).1.blocks(event) implies exists|w: int|
                    0 <= w < waiting@.len() && (#[trigger] waiting@[w])@ == before[j].0 by {
                    if j < i {
                        let w = choose|w: int|
                            0 <= w < seen.len() && (#[trigger] seen[w])@ == before[j].0;
                        assert(waiting@[w] == seen[w]);
                    } else {
                        assert(waiting@[seen.len() as int]@ == before[j].0);
                    }
                }
            }
            i = i + 1;
        }
        proof {
            assert forall|j: int| 0 <= j < before.len() implies (#[trigger] self.entries()[j]) == (
                before[j].0,
                f(before[j].1),
            ) by {
                assert(self.sinks@[j].0@ == sinks[j].0@);
            }
            lemma_contents_map(before, self.entries(), f);
            assert forall|k: Seq<char>|
                #[trigger] old(self)@.dom().contains(k) && old(self)@[k].blocks(
                    event,
                ) implies exists|w: int|
                0 <= w < waiting@.len() && (#[trigger] waiting@[w])@ == k by {
                lemma_contents_domain(before, k);
                let j = choose|j: int| 0 <= j < before.len() && (#[trigger] before[j]).0 == k;
                lemma_contents_at(before, j);
                assert(before[j].1.blocks(event));
            }
        }
        waiting
    }

    /// Offers an event to one sink; false where the emitter has to wait. Without
    /// such a sink there is nothing to wait for.
    pub fn offer(&mut self, id: &ObserverSubscriberId, event: ObserverEvent) -> (done: bool)
        requires
            old(self).wf(),
        ensures
            final(self).wf(),
            old(self)@.dom().contains(id@) ==> final(self)@ == old(self)@.insert(
                id@,
                old(self)@[id@].offered(event),
            ) && done == !old(self)@[id@].blocks(event),
            !old(self)@.dom().contains(id@) ==> final(self)@ == old(self)@ && done,
    {
        match self.find(id) {
            Some(i) => {
                let ghost before = self.entries();
                let done = self.sinks[i].1.push(event);
                proof {
                    let value = self.entries()[i as int].1;
                    lemma_contents_update(before, i as int, value);
                    assert(self.entries() =~= before.update(i as int, (before[i as int].0, value)));
                }
                done
            },
            None => true,
        }
    }

    /// Takes the oldest event of a sink out, for its receiver.
    pub fn try_recv(&mut self, id: &ObserverSubscriberId) -> (r: Option<ObserverEvent>)
        requires
            old(self).wf(),
        ensures
            final(self).wf(),
            match r {
                Some(e) => {
                    &&& old(self)@.dom().contains(id@)
                    &&& old(self)@[id@].queue.len() > 0
                    &&& e == old(self)@[id@].queue[0]
                    &&& final(self)@ == old(self)@.insert(
                        id@,
                        ObserverSinkModel {
                            queue: old(self)@[id@].queue.skip(1),
                            ..old(self)@[id@]
                        },
                    )
                },
                None => final(self)@ == old(self)@ && (!old(self)@.dom().contains(id@)
                    || old(self)@[id@].queue.len() == 0),
            },
    {
        match self.find(id) {
            Some(i) => {
                let ghost before = self.entries();
                let r = self.sinks[i].1.queue.pop_front();
                proof {
                    let value = self.entries()[i as int].1;
                    lemma_contents_update(before, i as int, value);
                    assert(self.entries() =~= before.update(i as int, (before[i as int].0, value)));
                    if r is None {
                        assert(self@ =~= old(self)@);
                    } else {
                        assert(value.queue =~= old(self)@[id@].queue.skip(1));
                    }
                }
                r
            },
            None => None,
        }
    }

    /// Records that the receiver of a sink is gone; what waited is gone with it.
    pub fn drop_receiver(&mut self, id: &ObserverSubscriberId)
        requires
            old(self).wf(),
        ensures
            final(self).wf(),
            final(self)@ == (if old(self)@.dom().contains(id@) {
                old(self)@.insert(
                    id@,
                    ObserverSinkModel {
                        receiver_gone: true,
                        queue: Seq::empty(),
                        ..old(self)@[id@]
                    },
                )
            } else {
                old(self)@
            }),
    {
        match self.find(id) {
            Some(i) => {
                let ghost before = self.entries();
                self.sinks[i].1.receiver_gone = true;
                self.sinks[i].1.queue.clear();
                proof {
                    let value = self.entries()[i as int].1;
                    lemma_contents_update(before, i as int, value);
                    assert(self.entries() =~= before.update(i as int, (before[i as int].0, value)));
                }
            },
            None => {},
        }
    }

    /// Number of registered sinks.
    pub fn len(&self) -> (n: usize)
        requires
            self.wf(),
        ensures
            n == self@.len(),
            n == 0 <==> self@ == Map::<Seq<char>, ObserverSinkModel>::empty(),
    {
        proof {
            lemma_contents_len(self.entries());
            if self.sinks@.len() > 0 {
                lemma_contents_at(self.entries(), 0);
            }
        }
        self.sinks.len()
    }

    /// Whether no sink is registered.
    pub fn is_empty(&self) -> (b: bool)
        requires
            self.wf(),
        ensures
            b == (self@ == Map::<Seq<char>, ObserverSinkModel>::empty()),
    {
        self.len() == 0
    }
}

/// Every event that a sink takes while its receiver is there is delivered or
/// missed, and none is both. It is missed only by a sink that drops, and only
/// where the channel was full.
pub proof fn law_sink_accounts_for_every_event(sink: ObserverSinkModel, event: ObserverEvent)
    requires
        sink.wf(),
        sink.takes(event.category),
        !sink.receiver_gone,
        !sink.blocks(event),
        sink.delivered + sink.missed < u64::MAX,
    ensures
        sink.offered(event).delivered + sink.offered(event).missed == sink.delivered + sink.missed
            + 1,
        sink.offered(event).delivered == sink.delivered + 1 <==> sink.offered(event).queue
            == sink.queue.push(event),
        sink.offered(event).missed == sink.missed + 1 <==> sink.backpressure
            == ObserverBackpressure::DropOldest && sink.queue.len() == sink.capacity,
{
    assert(sink.queue.push(event).len() == sink.queue.len() + 1);
}

/// An event for a receiver that is gone changes nothing but that the sink has
/// noticed: under either policy it is neither delivered nor missed, and nobody
/// waits.
pub proof fn law_a_gone_receiver_is_noticed(sink: ObserverSinkModel, event: ObserverEvent)
    requires
        sink.takes(event.category),
        sink.receiver_gone,
    ensures
        !sink.blocks(event),
        sink.offered(event) == (ObserverSinkModel { disconnected: true, ..sink }),
{
}

/// Offering an event keeps a sink's invariant; so a sink that makes the emitter
/// wait never misses an event.
pub proof fn law_a_blocking_sink_misses_nothing(sink: ObserverSinkModel, event: ObserverEvent)
    requires
        sink.wf(),
    ensures
        sink.offered(event).wf(),
        sink.backpressure == ObserverBackpressure::Block ==> sink.offered(event).missed == 0,
{
}

/// A sink that drops never makes the emitter wait, and a sink that blocks lets
/// it go on once one event was taken out.
pub proof fn law_waiting_ends(sink: ObserverSinkModel, event: ObserverEvent)
    requires
        sink.queue.len() <= sink.capacity,
        sink.capacity > 0,
    ensures
        sink.backpressure == ObserverBackpressure::DropOldest ==> !sink.blocks(event),
        sink.blocks(event) ==> !(ObserverSinkModel { queue: sink.queue.skip(1), ..sink }).blocks(
            event,
        ),
        sink.offered(event).queue.len() <= sink.capacity,
{
}

/// A sink takes exactly the events of its categories. An event of another category
/// leaves it as it is; one of its own that fits is queued behind what waits and counted
/// as delivered; one that does not fit is counted as missed by a sink that drops, and
/// left to the emitter by a sink that blocks.
pub proof fn law_sinks_take_what_they_asked_for(sink: ObserverSinkModel, event: ObserverEvent)
    requires
        !sink.disconnected,
        !sink.receiver_gone,
        sink.delivered < u64::MAX,
        sink.missed < u64::MAX,
    ensures
        ({
            let after = sink.offered(event);
            let wanted = exists|i: int|
                0 <= i < sink.categories.len() && sink.categories[i] == event.category;
            let fits = sink.queue.len() < sink.capacity;
            &&& !wanted ==> after == sink && !sink.blocks(event)
            &&& wanted && fits ==> !sink.blocks(event) && after.queue == sink.queue.push(event)
                && after.delivered == sink.delivered + 1 && after.missed == sink.missed
            &&& wanted && !fits && sink.backpressure == ObserverBackpressure::DropOldest
                ==> !sink.blocks(event) && after.queue == sink.queue && after.missed == sink.missed
                + 1 && after.delivered == sink.delivered
            &&& wanted && !fits && sink.backpressure == ObserverBackpressure::Block ==> sink.blocks(
                event,
            ) && after == sink
            &&& after.categories == sink.categories
            &&& after.capacity == sink.capacity
            &&& after.backpressure == sink.backpressure
            &&& !after.disconnected
        }),
{
}

/// A new sink has the categories and the policy that were asked for, holds nothing, has
/// counted nothing, and has room for one event at least.
pub proof fn law_new_sinks_are_empty(
    categories: Seq<EventCategory>,
    capacity: nat,
    backpressure: ObserverBackpressure,
)
    ensures
        ({
            let sink = ObserverSinkModel::fresh(categories, capacity, backpressure);
            &&& sink.categories == categories
            &&& sink.backpressure == backpressure
            &&& sink.queue.len() == 0
            &&& sink.delivered == 0 && sink.missed == 0
            &&& !sink.receiver_gone && !sink.disconnected
            &&& capacity > 0 ==> sink.capacity == capacity
            &&& sink.capacity >= 1
            &&& sink.capacity <= capacity + 1
            &&& sink.wf()
        }),
{
}

/// The emitter of an event has to wait for a sink exactly while all of this holds: the
/// sink takes such events, somebody still reads it, its queue is full, and it was made
/// to wait rather than to drop.
pub proof fn law_emitters_wait_for_full_sinks(sink: ObserverSinkModel, event: ObserverEvent)
    ensures
        sink.blocks(event) ==> sink.takes(event.category) && !sink.disconnected
            && !sink.receiver_gone && !sink.has_room() && sink.backpressure
            == ObserverBackpressure::Block,
        sink.takes(event.category) && !sink.disconnected && !sink.receiver_gone && !sink.has_room()
            && sink.backpressure == ObserverBackpressure::Block ==> sink.blocks(event),
{
}

} // verus!
