//! The decisions of a game-streaming client for webOS TVs: how mice and keyboards are read past SDL,
//! how keys and pointers reach the host, how the local pointer is hidden, and what one pass of a
//! running stream does. The library does no I/O: it takes what was read or polled and says what to
//! do.
use vstd::prelude::*;

pub mod activity;
pub mod burst;
pub mod cursor;
pub mod device;
pub mod edge;
pub mod events;
pub mod evmouse;
pub mod grab;
pub mod ioctl;
pub mod keyboard;
pub mod node;
pub mod overlay;
pub mod pass;
pub mod poll;
pub mod procfs;
pub mod reader;
pub mod route;
pub mod scan;
pub mod scancode;
pub mod session;
pub mod stats;
pub mod stream;
pub mod text;

verus! {

} // verus!
