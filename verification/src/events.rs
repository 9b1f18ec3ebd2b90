//! The kernel's input events, as they lie in the bytes read from a node.
use vstd::prelude::*;

verus! {

/// `libc`'s time stamp, which stands at the front of every event. Its fields are not looked at.
#[verifier::external_type_specification]
#[verifier::external_body]
pub struct ExTimeval(libc::timeval);

/// One input event, without its time stamp.
#[derive(Clone, Copy, Debug, PartialEq, Eq, Structural)]
pub struct InputEventRaw {
    pub kind: u16,
    pub code: u16,
    pub value: i32,
}

/// In which order a machine stores the bytes of a number.
#[derive(Clone, Copy, Debug, PartialEq, Eq, Structural)]
pub enum ByteOrder {
    Little,
    Big,
}

/// The bytes of an event behind its time stamp: type, code and value.
pub const PAYLOAD_SIZE: usize = 8;

/// The unsigned 16-bit number at `at`.
pub open spec fn u16_at(bytes: Seq<u8>, at: int, order: ByteOrder) -> int {
    match order {
        ByteOrder::Little => bytes[at] + 0x100 * bytes[at + 1],
        ByteOrder::Big => 0x100 * bytes[at] + bytes[at + 1],
    }
}

/// The signed 32-bit number at `at`, in two's complement.
pub open spec fn i32_at(bytes: Seq<u8>, at: int, order: ByteOrder) -> int {
    let n = match order {
        ByteOrder::Little => u16_at(bytes, at, order) + 0x1_0000 * u16_at(bytes, at + 2, order),
        ByteOrder::Big => 0x1_0000 * u16_at(bytes, at, order) + u16_at(bytes, at + 2, order),
    };
    if n < 0x8000_0000 {
        n
    } else {
        n - 0x1_0000_0000
    }
}

/// The event whose time stamp of `stamp` bytes starts at `at`.
pub open spec fn event_at(bytes: Seq<u8>, at: int, stamp: int, order: ByteOrder) -> InputEventRaw {
    InputEventRaw {
        kind: u16_at(bytes, at + stamp, order) as u16,
        code: u16_at(bytes, at + stamp + 2, order) as u16,
        value: i32_at(bytes, at + stamp + 4, order) as i32,
    }
}

/// The whole events in `bytes`, one after the other. Bytes left over at the end are no event.
pub open spec fn events_in(bytes: Seq<u8>, stamp: int, order: ByteOrder) -> Seq<InputEventRaw> {
    Seq::new(
        (bytes.len() as int / (stamp + PAYLOAD_SIZE)) as nat,
        |i: int| event_at(bytes, i * (stamp + PAYLOAD_SIZE), stamp, order),
    )
}

/// The size of the time stamp of an event on this machine.
pub fn stamp_size() -> (n: usize)
    ensures
        n == vstd::layout::size_of::<libc::timeval>(),
        n + PAYLOAD_SIZE <= usize::MAX,
{
    vstd::layout::layout_for_type_is_valid::<libc::timeval>();
    core::mem::size_of::<libc::timeval>()
}

fn read_u16(bytes: &[u8], at: usize, order: ByteOrder) -> (n: u16)
    requires
        at + 2 <= bytes@.len(),
    ensures
        n == u16_at(bytes@, at as int, order),
{
    let a: u16 = bytes[at] as u16;
    let b: u16 = bytes[at + 1] as u16;
    match order {
        ByteOrder::Little => a + 0x100 * b,
        ByteOrder::Big => 0x100 * a + b,
    }
}

fn read_i32(bytes: &[u8], at: usize, order: ByteOrder) -> (n: i32)
    requires
        at + 4 <= bytes@.len(),
    ensures
        n == i32_at(bytes@, at as int, order),
{
    assert(at + 4 <= bytes.len());
    let a: i64 = read_u16(bytes, at, order) as i64;
    let b: i64 = read_u16(bytes, at + 2, order) as i64;
    let n: i64 = match order {
        ByteOrder::Little => a + 0x1_0000 * b,
        ByteOrder::Big => 0x1_0000 * a + b,
    };
    if n < 0x8000_0000 {
        n as i32
    } else {
        (n - 0x1_0000_0000) as i32
    }
}

/// Decodes the events in `bytes`, whose time stamps take `stamp` bytes each.
pub fn decode_events(bytes: &[u8], stamp: usize, order: ByteOrder) -> (events: Vec<InputEventRaw>)
    requires
        stamp + PAYLOAD_SIZE <= usize::MAX,
    ensures
        events@ == events_in(bytes@, stamp as int, order),
{
    let size: usize = stamp + PAYLOAD_SIZE;
    let mut events: Vec<InputEventRaw> = Vec::new();
    let mut at: usize = 0;
    let ghost count = bytes@.len() as int / size as int;
    proof {
        assert(0int * size as int == 0);
    }
    while bytes.len() - at >= size
        invariant
            size == stamp + PAYLOAD_SIZE,
            at <= bytes@.len(),
            at == events@.len() * size,
            events@.len() <= count,
            count == bytes@.len() as int / size as int,
            events@ == events_in(bytes@, stamp as int, order).take(events@.len() as int),
        decreases bytes.len() - at,
    {
        let ghost k = events@.len() as int;
        proof {
            assert(k + 1 <= count && (k + 1) * size == k * size + size) by (nonlinear_arith)
                requires
                    k * size + size <= bytes@.len(),
                    size >= 8,
                    count == bytes@.len() as int / size as int,
            ;
        }
        let kind: u16 = read_u16(bytes, at + stamp, order);
        let code: u16 = read_u16(bytes, at + stamp + 2, order);
        let value: i32 = read_i32(bytes, at + stamp + 4, order);
        events.push(InputEventRaw { kind, code, value });
        at = at + size;
        proof {
            let all = events_in(bytes@, stamp as int, order);
            assert(all.take(k + 1) =~= all.take(k).push(all[k]));
        }
    }
    proof {
        let k = events@.len() as int;
        assert(k == count) by (nonlinear_arith)
            requires
                k <= count,
                bytes@.len() - k * size < size,
                size >= 8,
                count == bytes@.len() as int / size as int,
        ;
        let all = events_in(bytes@, stamp as int, order);
        assert(all.take(k) =~= all);
    }
    events
}

/// The bytes of an unsigned 16-bit number.
pub open spec fn u16_bytes(n: u16, order: ByteOrder) -> Seq<u8> {
    let low = (n % 256) as u8;
    let high = (n / 256) as u8;
    match order {
        ByteOrder::Little => seq![low, high],
        ByteOrder::Big => seq![high, low],
    }
}

/// The bytes of a signed 32-bit number.
pub open spec fn i32_bytes(n: i32, order: ByteOrder) -> Seq<u8> {
    let u = if n < 0 {
        n + 0x1_0000_0000
    } else {
        n as int
    };
    let low = u16_bytes((u % 0x1_0000) as u16, order);
    let high = u16_bytes((u / 0x1_0000) as u16, order);
    match order {
        ByteOrder::Little => low + high,
        ByteOrder::Big => high + low,
    }
}

/// The bytes of an event, as the kernel writes it behind its time stamp.
pub open spec fn event_bytes(stamp: Seq<u8>, ev: InputEventRaw, order: ByteOrder) -> Seq<u8> {
    stamp + u16_bytes(ev.kind, order) + u16_bytes(ev.code, order) + i32_bytes(ev.value, order)
}

/// The bytes of events, one after the other.
pub open spec fn all_bytes(stamps: Seq<Seq<u8>>, events: Seq<InputEventRaw>, order: ByteOrder) -> Seq<
    u8,
>
    decreases events.len(),
{
    if events.len() == 0 {
        seq![]
    } else {
        all_bytes(stamps.drop_last(), events.drop_last(), order) + event_bytes(
            stamps.last(),
            events.last(),
            order,
        )
    }
}

proof fn numbers_read_back(before: Seq<u8>, n: u16, v: i32, after: Seq<u8>, order: ByteOrder)
    ensures
        u16_at(before + u16_bytes(n, order) + after, before.len() as int, order) == n,
        i32_at(before + i32_bytes(v, order) + after, before.len() as int, order) == v,
        u16_bytes(n, order).len() == 2,
        i32_bytes(v, order).len() == 4,
{
    let at = before.len() as int;
    let a = before + u16_bytes(n, order) + after;
    assert(a[at] == u16_bytes(n, order)[0] && a[at + 1] == u16_bytes(n, order)[1]);
    assert(n % 256 + 256 * (n / 256) == n);
    let b = before + i32_bytes(v, order) + after;
    let four = i32_bytes(v, order);
    assert(b[at] == four[0] && b[at + 1] == four[1] && b[at + 2] == four[2] && b[at + 3]
        == four[3]);
    let u = if v < 0 {
        v + 0x1_0000_0000
    } else {
        v as int
    };
    let low = (u % 0x1_0000) as u16;
    let high = (u / 0x1_0000) as u16;
    assert(low % 256 + 256 * (low / 256) == low);
    assert(high % 256 + 256 * (high / 256) == high);
    assert(low + 0x1_0000 * high == u);
}

/// The event in the middle of other bytes reads back.
proof fn event_reads_back(
    before: Seq<u8>,
    stamp: Seq<u8>,
    ev: InputEventRaw,
    after: Seq<u8>,
    order: ByteOrder,
)
    ensures
        event_at(
            before + event_bytes(stamp, ev, order) + after,
            before.len() as int,
            stamp.len() as int,
            order,
        ) == ev,
        event_bytes(stamp, ev, order).len() == stamp.len() + 8,
{
    let kind = u16_bytes(ev.kind, order);
    let code = u16_bytes(ev.code, order);
    let value = i32_bytes(ev.value, order);
    let all = before + event_bytes(stamp, ev, order) + after;
    numbers_read_back(before + stamp, ev.kind, 0, code + value + after, order);
    assert(all =~= (before + stamp) + kind + (code + value + after));
    numbers_read_back(before + stamp + kind, ev.code, 0, value + after, order);
    assert(all =~= (before + stamp + kind) + code + (value + after));
    numbers_read_back(before + stamp + kind + code, 0, ev.value, after, order);
    assert(all =~= (before + stamp + kind + code) + value + after);
}

proof fn all_bytes_read_back(
    stamps: Seq<Seq<u8>>,
    events: Seq<InputEventRaw>,
    stamp: int,
    after: Seq<u8>,
    order: ByteOrder,
    i: int,
)
    requires
        stamps.len() == events.len(),
        forall|k: int| 0 <= k < stamps.len() ==> (#[trigger] stamps[k]).len() == stamp,
        0 <= i < events.len(),
    ensures
        event_at(all_bytes(stamps, events, order) + after, i * (stamp + 8), stamp, order)
            == events[i],
    decreases events.len(),
{
    let head = all_bytes(stamps.drop_last(), events.drop_last(), order);
    let last = event_bytes(stamps.last(), events.last(), order);
    all_bytes_len(stamps.drop_last(), events.drop_last(), stamp, order);
    if i == events.len() - 1 {
        event_reads_back(head, stamps.last(), events.last(), after, order);
    } else {
        all_bytes_read_back(
            stamps.drop_last(),
            events.drop_last(),
            stamp,
            last + after,
            order,
            i,
        );
        assert(head + last + after =~= head + (last + after));
    }
}

proof fn all_bytes_len(stamps: Seq<Seq<u8>>, events: Seq<InputEventRaw>, stamp: int, order: ByteOrder)
    requires
        stamps.len() == events.len(),
        forall|k: int| 0 <= k < stamps.len() ==> (#[trigger] stamps[k]).len() == stamp,
    ensures
        all_bytes(stamps, events, order).len() == events.len() * (stamp + 8),
    decreases events.len(),
{
    if events.len() > 0 {
        all_bytes_len(stamps.drop_last(), events.drop_last(), stamp, order);
        event_reads_back(seq![], stamps.last(), events.last(), seq![], order);
        let n = events.len() as int;
        assert((n - 1) * (stamp + 8) + (stamp + 8) == n * (stamp + 8)) by (nonlinear_arith);
    } else {
        assert(0 * (stamp + 8) == 0);
    }
}

/// The events in what the kernel wrote are those that it wrote.
pub(crate) proof fn events_in_read_back(
    bytes: Seq<u8>,
    stamps: Seq<Seq<u8>>,
    events: Seq<InputEventRaw>,
    tail: Seq<u8>,
    stamp: int,
    order: ByteOrder,
)
    requires
        stamps.len() == events.len(),
        forall|k: int| 0 <= k < stamps.len() ==> (#[trigger] stamps[k]).len() == stamp,
        0 <= tail.len() < stamp + 8,
        bytes == all_bytes(stamps, events, order) + tail,
    ensures
        events_in(bytes, stamp, order) == events,
{
    let size = stamp + 8;
    let n = events.len() as int;
    all_bytes_len(stamps, events, stamp, order);
    assert(bytes.len() == n * size + tail.len());
    assert(bytes.len() as int / size == n) by (nonlinear_arith)
        requires
            bytes.len() == n * size + tail.len(),
            0 <= tail.len() < size,
    ;
    let found = events_in(bytes, stamp, order);
    assert forall|i: int| 0 <= i < n implies found[i] == events[i] by {
        all_bytes_read_back(stamps, events, stamp, tail, order, i);
    }
    assert(found =~= events);
}

/// Decoding undoes what the kernel writes, in either byte order and whatever the time stamps hold;
/// bytes behind the last whole event are no event.
pub proof fn lemma_events_read_back(
    bytes: &[u8],
    stamps: Seq<Seq<u8>>,
    events: Seq<InputEventRaw>,
    tail: Seq<u8>,
    stamp: usize,
    order: ByteOrder,
    decoded: Vec<InputEventRaw>,
)
    requires
        call_ensures(decode_events, (bytes, stamp, order), decoded),
        stamps.len() == events.len(),
        forall|k: int| 0 <= k < stamps.len() ==> (#[trigger] stamps[k]).len() == stamp,
        tail.len() < stamp + 8,
        bytes@ == all_bytes(stamps, events, order) + tail,
    ensures
        decoded@ == events,
{
    events_in_read_back(bytes@, stamps, events, tail, stamp as int, order);
}

} // verus!
