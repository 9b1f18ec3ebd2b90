//! The answers of `poll`: which nodes have reports waiting, and which are gone.
use vstd::prelude::*;

verus! {

/// The bit of an answer that says reports are waiting.
pub open spec fn readable(revents: i16) -> bool {
    revents & 0x1 != 0
}

/// The bits of an answer that say the node is gone: an error, a hang-up, or no such descriptor.
pub open spec fn gone(revents: i16) -> bool {
    revents & 0x8 != 0 || revents & 0x10 != 0 || revents & 0x20 != 0
}

/// `libc::POLLIN`: claimed to be bit 0, as `libc` defines it for Linux.
#[verifier::external_body]
fn poll_in() -> (flag: i16)
    ensures
        flag == 0x1,
{
    libc::POLLIN
}

/// `libc::POLLERR`: claimed to be bit 3, as `libc` defines it for Linux.
#[verifier::external_body]
fn poll_err() -> (flag: i16)
    ensures
        flag == 0x8,
{
    libc::POLLERR
}

/// `libc::POLLHUP`: claimed to be bit 4, as `libc` defines it for Linux.
#[verifier::external_body]
fn poll_hup() -> (flag: i16)
    ensures
        flag == 0x10,
{
    libc::POLLHUP
}

/// `libc::POLLNVAL`: claimed to be bit 5, as `libc` defines it for Linux.
#[verifier::external_body]
fn poll_nval() -> (flag: i16)
    ensures
        flag == 0x20,
{
    libc::POLLNVAL
}

/// Whether reports are waiting.
pub fn is_readable(revents: i16) -> (yes: bool)
    ensures
        yes == readable(revents),
{
    revents & poll_in() != 0
}

/// Whether the node is gone.
pub fn is_gone(revents: i16) -> (yes: bool)
    ensures
        yes == gone(revents),
{
    let dead: i16 = poll_err() | poll_hup() | poll_nval();
    assert((revents & (0x8i16 | 0x10i16 | 0x20i16) != 0) == (revents & 0x8 != 0 || revents & 0x10
        != 0 || revents & 0x20 != 0)) by (bit_vector);
    revents & dead != 0
}

/// Reports are waiting where the lowest bit is set, whatever else is; a node is gone where its error,
/// hang-up or no-such-descriptor bit is set, whatever else is; and an answer of none of these says
/// neither.
pub proof fn lemma_answers_are_read_bit_by_bit(revents: i16, readable: bool, gone: bool)
    requires
        call_ensures(is_readable, (revents,), readable),
        call_ensures(is_gone, (revents,), gone),
    ensures
        readable <==> revents % 2 != 0,
        gone <==> revents & 0x38 != 0,
        revents == 0x8 || revents == 0x10 || revents == 0x20 ==> gone && !readable,
        revents == 0 || revents == 0x2 || revents == 0x4 ==> !gone && !readable,
{
    assert((revents & 0x1 != 0) == (revents % 2 != 0)) by (bit_vector);
    assert((revents & 0x38 != 0) == (revents & 0x8 != 0 || revents & 0x10 != 0 || revents & 0x20
        != 0)) by (bit_vector);
    assert(0x8i16 & 0x1 == 0 && 0x10i16 & 0x1 == 0 && 0x20i16 & 0x1 == 0 && 0x8i16 & 0x38 != 0
        && 0x10i16 & 0x38 != 0 && 0x20i16 & 0x38 != 0) by (bit_vector);
    assert(0i16 & 0x1 == 0 && 0x2i16 & 0x1 == 0 && 0x4i16 & 0x1 == 0 && 0i16 & 0x38 == 0 && 0x2i16
        & 0x38 == 0 && 0x4i16 & 0x38 == 0) by (bit_vector);
}

} // verus!
