//! An open mouse or keyboard node.
use vstd::prelude::*;

verus! {

/// An open node, with the motion accumulated from it.
pub struct Device {
    pub path: String,
    /// Motion summed across a read burst and not yet sent.
    pub dx: i32,
    pub dy: i32,
    /// Whether the node is held exclusively: what was applied, not what was asked for.
    pub grabbed: bool,
    /// Which state the last failed grab or release was for.
    pub grab_warned_for: Option<bool>,
    /// Reports relative motion.
    pub mouse: bool,
    /// Reports keys. Independent of `mouse`: combined receivers may expose both on one node.
    pub keyboard: bool,
}

impl Device {
    /// Just opened: nothing pending, nothing grabbed, nothing complained of.
    pub open spec fn is_fresh(self, path: Seq<char>, mouse: bool, keyboard: bool) -> bool {
        &&& self.path@ == path
        &&& self.dx == 0
        &&& self.dy == 0
        &&& !self.grabbed
        &&& self.grab_warned_for is None
        &&& self.mouse == mouse
        &&& self.keyboard == keyboard
    }

    /// A device just opened.
    pub fn new(path: String, mouse: bool, keyboard: bool) -> (dev: Device)
        ensures
            dev.is_fresh(path@, mouse, keyboard),
    {
        Device { path, dx: 0, dy: 0, grabbed: false, grab_warned_for: None, mouse, keyboard }
    }
}

} // verus!
