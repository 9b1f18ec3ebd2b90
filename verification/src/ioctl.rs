//! Request numbers of the evdev ioctls.
use vstd::prelude::*;

verus! {

/// Direction of a request that reads from the kernel.
pub const IOC_READ: u32 = 2;

/// Direction of a request that writes to the kernel.
pub const IOC_WRITE: u32 = 1;

/// The request for direction `dir` and number `nr` of the evdev family `E`, with an argument of
/// `len` bytes: two bits of direction, fourteen of length, eight of family, eight of number.
pub open spec fn request(dir: u32, nr: u32, len: u32) -> u32 {
    (dir << 30) | (len << 16) | (0x45u32 << 8) | nr
}

/// Builds an evdev request number.
pub fn eioc(dir: u32, nr: u32, len: u32) -> (r: libc::c_ulong)
    ensures
        r == request(dir, nr, len),
        dir < 4 && len < 0x4000 && nr < 0x100 ==> r == dir * 0x4000_0000 + len * 0x1_0000 + 0x4500
            + nr,
{
    let family: u32 = 0x45;
    let r: u32 = (dir << 30) | (len << 16) | (family << 8) | nr;
    assert(dir < 4 && len < 0x4000 && nr < 0x100 ==> ((dir << 30) | (len << 16) | (0x45u32 << 8)
        | nr) == dir * 0x4000_0000 + len * 0x1_0000 + 0x4500 + nr) by (bit_vector);
    r as libc::c_ulong
}

/// A request that reads `len` bytes.
pub fn eviocg(nr: u32, len: u32) -> (r: libc::c_ulong)
    ensures
        r == request(IOC_READ, nr, len),
        len < 0x4000 && nr < 0x100 ==> r == 0x8000_4500 + len * 0x1_0000 + nr,
{
    eioc(IOC_READ, nr, len)
}

/// The request that grabs a node (argument 1) or releases it (argument 0). The kernel reads the
/// argument by value.
pub fn eviocgrab() -> (r: libc::c_ulong)
    ensures
        r == request(IOC_WRITE, 0x90, 4),
        r == 0x4004_4590,
{
    eioc(IOC_WRITE, 0x90, 4)
}

/// The request for the bitmap of codes that a node supports of event type `kind`, 128 bytes long.
pub fn eviocgbit(kind: u16) -> (r: libc::c_ulong)
    ensures
        r == request(IOC_READ, (0x20 + kind) as u32, 128),
        kind < 0xE0 ==> r == 0x8080_4520 + kind,
{
    eviocg(0x20 + kind as u32, 128)
}

/// The request for the name of a node, up to 256 bytes.
pub fn eviocgname() -> (r: libc::c_ulong)
    ensures
        r == request(IOC_READ, 0x06, 256),
        r == 0x8100_4506,
{
    eviocg(0x06, 256)
}

/// Every part of a request can be read back from it, so that different requests have different
/// numbers.
pub proof fn lemma_request_keeps_its_parts(dir: u32, nr: u32, len: u32)
    requires
        dir < 4,
        nr < 0x100,
        len < 0x4000,
    ensures
        request(dir, nr, len) >> 30 == dir,
        (request(dir, nr, len) >> 16) & 0x3FFF == len,
        (request(dir, nr, len) >> 8) & 0xFF == 0x45,
        request(dir, nr, len) & 0xFF == nr,
{
    assert(dir < 4 && nr < 0x100 && len < 0x4000 ==> {
        let r = (dir << 30) | (len << 16) | (0x45u32 << 8) | nr;
        r >> 30 == dir && (r >> 16) & 0x3FFF == len && (r >> 8) & 0xFF == 0x45 && r & 0xFF == nr
    }) by (bit_vector);
}

/// The requests in the kernel's own numbers.
pub proof fn lemma_requests_are_the_kernels(
    kind: u16,
    grab: libc::c_ulong,
    name: libc::c_ulong,
    bits: libc::c_ulong,
)
    requires
        call_ensures(eviocgrab, (), grab),
        call_ensures(eviocgname, (), name),
        call_ensures(eviocgbit, (kind,), bits),
    ensures
        grab == 0x4004_4590,
        name == 0x8100_4506,
        kind < 0xE0 ==> bits == 0x8080_4520 + kind,
{
}

/// A request adds up from its parts, wherever they fit.
pub proof fn lemma_requests_add_up(
    dir: u32,
    nr: u32,
    len: u32,
    r: libc::c_ulong,
    read: libc::c_ulong,
)
    requires
        dir < 4,
        nr < 0x100,
        len < 0x4000,
        call_ensures(eioc, (dir, nr, len), r),
        call_ensures(eviocg, (nr, len), read),
    ensures
        r == dir * 0x4000_0000 + len * 0x1_0000 + 0x4500 + nr,
        read == 2 * 0x4000_0000 + len * 0x1_0000 + 0x4500 + nr,
{
}

} // verus!
