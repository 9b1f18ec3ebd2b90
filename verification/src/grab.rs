//! Holding nodes exclusively: a grabbed node reports to this program alone.
use vstd::prelude::*;
use crate::device::Device;
use crate::node::{takes, NodeBits};

verus! {

/// Whether a node should be held: while reading is active, keyboards always and mice where the
/// pointer is captured.
pub open spec fn wanted(dev: Device, grab: bool, grab_mouse: bool) -> bool {
    grab && (dev.keyboard || (dev.mouse && grab_mouse))
}

/// What to ask the kernel for: to grab or release the node, or nothing where it is as wanted.
pub open spec fn grab_request(dev: Device, grab: bool, grab_mouse: bool) -> Option<bool> {
    if dev.grabbed == wanted(dev, grab, grab_mouse) {
        None
    } else {
        Some(wanted(dev, grab, grab_mouse))
    }
}

/// A device after the kernel has answered: as asked where it agreed, and otherwise as it was, with
/// the failure noted.
pub open spec fn after_answer(dev: Device, request: Option<bool>, agreed: bool) -> Device {
    match request {
        None => dev,
        Some(want) => if agreed {
            Device { grabbed: want, ..dev }
        } else {
            Device { grab_warned_for: Some(want), ..dev }
        },
    }
}

/// A failure is worth a warning once per state asked for, not once per try.
pub open spec fn warns(dev: Device, request: Option<bool>, agreed: bool) -> bool {
    request is Some && !agreed && dev.grab_warned_for != request
}

/// What to ask the kernel for, device by device.
pub fn grab_requests(devices: &Vec<Device>, grab: bool, grab_mouse: bool) -> (requests: Vec<
    Option<bool>,
>)
    ensures
        requests@.len() == devices@.len(),
        forall|i: int|
            0 <= i < devices@.len() ==> #[trigger] requests@[i] == grab_request(
                devices@[i],
                grab,
                grab_mouse,
            ),
{
    let mut requests: Vec<Option<bool>> = Vec::new();
    let mut i: usize = 0;
    while i < devices.len()
        invariant
            i <= devices@.len(),
            requests@.len() == i,
            forall|k: int|
                0 <= k < i ==> #[trigger] requests@[k] == grab_request(
                    devices@[k],
                    grab,
                    grab_mouse,
                ),
        decreases devices.len() - i,
    {
        let dev: &Device = &devices[i];
        let want: bool = grab && (dev.keyboard || (dev.mouse && grab_mouse));
        if dev.grabbed == want {
            requests.push(None);
        } else {
            requests.push(Some(want));
        }
        i = i + 1;
    }
    requests
}

/// Takes in the kernel's answers to the requests for the devices, and says which failures to warn
/// of. An answer counts only where there was a request.
pub fn apply_grab(devices: &mut Vec<Device>, grab: bool, grab_mouse: bool, agreed: &Vec<bool>) -> (
    warnings: Vec<bool>)
    requires
        agreed@.len() == old(devices)@.len(),
    ensures
        final(devices)@.len() == old(devices)@.len(),
        warnings@.len() == old(devices)@.len(),
        forall|i: int|
            0 <= i < old(devices)@.len() ==> #[trigger] final(devices)@[i] == after_answer(
                old(devices)@[i],
                grab_request(old(devices)@[i], grab, grab_mouse),
                agreed@[i],
            ),
        forall|i: int|
            0 <= i < old(devices)@.len() ==> #[trigger] warnings@[i] == warns(
                old(devices)@[i],
                grab_request(old(devices)@[i], grab, grab_mouse),
                agreed@[i],
            ),
{
    let requests: Vec<Option<bool>> = grab_requests(devices, grab, grab_mouse);
    let mut warnings: Vec<bool> = Vec::new();
    let mut i: usize = 0;
    while i < devices.len()
        invariant
            i <= devices@.len(),
            devices@.len() == old(devices)@.len(),
            requests@.len() == old(devices)@.len(),
            agreed@.len() == old(devices)@.len(),
            warnings@.len() == i,
            forall|k: int|
                0 <= k < old(devices)@.len() ==> #[trigger] requests@[k] == grab_request(
                    old(devices)@[k],
                    grab,
                    grab_mouse,
                ),
            forall|k: int| i <= k < devices@.len() ==> #[trigger] devices@[k] == old(devices)@[k],
            forall|k: int|
                0 <= k < i ==> #[trigger] devices@[k] == after_answer(
                    old(devices)@[k],
                    grab_request(old(devices)@[k], grab, grab_mouse),
                    agreed@[k],
                ),
            forall|k: int|
                0 <= k < i ==> #[trigger] warnings@[k] == warns(
                    old(devices)@[k],
                    grab_request(old(devices)@[k], grab, grab_mouse),
                    agreed@[k],
                ),
        decreases devices.len() - i,
    {
        assert(requests@[i as int] == grab_request(old(devices)@[i as int], grab, grab_mouse));
        match requests[i] {
            None => {
                warnings.push(false);
            },
            Some(want) => {
                if agreed[i] {
                    warnings.push(false);
                    devices[i].grabbed = want;
                } else {
                    let known: bool = match devices[i].grab_warned_for {
                        Some(was) => was == want,
                        None => false,
                    };
                    warnings.push(!known);
                    devices[i].grab_warned_for = Some(want);
                }
            },
        }
        i = i + 1;
    }
    warnings
}

/// A steady state costs nothing: once the kernel has agreed, there is nothing more to ask it for.
pub proof fn lemma_agreed_requests_settle(dev: Device, grab: bool, grab_mouse: bool)
    ensures
        grab_request(
            after_answer(dev, grab_request(dev, grab, grab_mouse), true),
            grab,
            grab_mouse,
        ) is None,
{
}

/// A refused request is made again, and is not warned of again.
pub proof fn lemma_refused_requests_are_repeated_quietly(
    dev: Device,
    grab: bool,
    grab_mouse: bool,
    agreed: bool,
)
    requires
        grab_request(dev, grab, grab_mouse) is Some,
    ensures
        ({
            let request = grab_request(dev, grab, grab_mouse);
            let after = after_answer(dev, request, false);
            &&& grab_request(after, grab, grab_mouse) == request
            &&& !warns(after, request, agreed)
        }),
{
}

/// While reading is not active every node is given back.
pub proof fn lemma_inactive_holds_nothing(dev: Device, grab_mouse: bool)
    ensures
        !wanted(dev, false, grab_mouse),
        dev.grabbed ==> grab_request(dev, false, grab_mouse) == Some(false),
{
}

/// While reading is active every node that was taken is held, so that the compositor sees none of
/// its reports.
pub proof fn lemma_active_holds_every_taken_node(bits: NodeBits, dev: Device, grab_mouse: bool)
    requires
        takes(bits, grab_mouse),
        dev.mouse == bits.is_mouse(),
        dev.keyboard == bits.is_keyboard(),
    ensures
        wanted(dev, true, grab_mouse),
{
}

/// Each node is asked for exactly what is missing: while reading is active keyboards are to be held
/// whatever the capture, mice that are nothing else only with it, and everything is to be given back
/// otherwise. A node that is as it should be is not asked at all.
pub proof fn lemma_nodes_are_asked_for_what_is_missing(
    devices: Vec<Device>,
    grab: bool,
    grab_mouse: bool,
    requests: Vec<Option<bool>>,
    i: int,
)
    requires
        call_ensures(grab_requests, (&devices, grab, grab_mouse), requests),
        0 <= i < devices@.len(),
    ensures
        requests@.len() == devices@.len(),
        ({
            let dev = devices@[i];
            &&& !grab ==> requests@[i] == (if dev.grabbed {
                Some(false)
            } else {
                None
            })
            &&& grab && dev.keyboard ==> requests@[i] == (if dev.grabbed {
                None
            } else {
                Some(true)
            })
            &&& grab && dev.mouse && grab_mouse ==> requests@[i] == (if dev.grabbed {
                None
            } else {
                Some(true)
            })
            &&& grab && !dev.keyboard && !(dev.mouse && grab_mouse) ==> requests@[i] == (
            if dev.grabbed {
                Some(false)
            } else {
                None
            })
        }),
{
    assert(requests@[i] == grab_request(devices@[i], grab, grab_mouse));
}

/// An answer changes only what was asked about: agreed, the node is as asked; refused, it is as it
/// was, and that is news exactly where the last refusal was not for the same.
pub proof fn lemma_answers_change_what_was_asked(dev: Device, want: bool, agreed: bool)
    ensures
        ({
            let after = after_answer(dev, Some(want), agreed);
            &&& agreed ==> after.grabbed == want && after.grab_warned_for == dev.grab_warned_for
            &&& !agreed ==> after.grabbed == dev.grabbed && after.grab_warned_for == Some(want)
            &&& after.path == dev.path && after.dx == dev.dx && after.dy == dev.dy
            &&& after.mouse == dev.mouse && after.keyboard == dev.keyboard
            &&& warns(dev, Some(want), agreed) <==> !agreed && dev.grab_warned_for != Some(want)
        }),
        after_answer(dev, None, agreed) == dev,
        !warns(dev, None, agreed),
{
}

/// Each device takes in its own answer: agreed, it is as it should be; refused, as it was; and a
/// refusal is news exactly where the last one was for something else.
pub proof fn lemma_devices_take_their_own_answers(
    devices: &mut Vec<Device>,
    grab: bool,
    grab_mouse: bool,
    agreed: &Vec<bool>,
    warnings: Vec<bool>,
    i: int,
)
    requires
        call_ensures(apply_grab, (devices, grab, grab_mouse, agreed), warnings),
        agreed@.len() == old(devices)@.len(),
        0 <= i < old(devices)@.len(),
    ensures
        final(devices)@.len() == old(devices)@.len(),
        warnings@.len() == old(devices)@.len(),
        ({
            let dev = old(devices)@[i];
            let now = final(devices)@[i];
            let want = grab && (dev.keyboard || (dev.mouse && grab_mouse));
            let refused = !agreed@[i] && dev.grabbed != want;
            &&& now.grabbed == (if refused {
                dev.grabbed
            } else {
                want
            })
            &&& now.grab_warned_for == (if refused {
                Some(want)
            } else {
                dev.grab_warned_for
            })
            &&& warnings@[i] <==> refused && dev.grab_warned_for != Some(want)
            &&& now.path == dev.path && now.mouse == dev.mouse && now.keyboard == dev.keyboard
            &&& now.dx == dev.dx && now.dy == dev.dy
        }),
{
    assert(final(devices)@[i] == after_answer(
        old(devices)@[i],
        grab_request(old(devices)@[i], grab, grab_mouse),
        agreed@[i],
    ));
    assert(warnings@[i] == warns(
        old(devices)@[i],
        grab_request(old(devices)@[i], grab, grab_mouse),
        agreed@[i],
    ));
}

} // verus!
