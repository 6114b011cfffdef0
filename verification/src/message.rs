//! Message priorities.

use vstd::prelude::*;

verus! {

/// Message priority; a lower value is delivered first.
#[derive(Debug, Clone, Copy, PartialEq, Eq, Hash, Structural)]
pub struct Priority(pub u8);

/// Priority levels as raw values.
impl Priority {
    /// Highest priority.
    pub const CRITICAL: u8 = 0;
    /// Above normal.
    pub const HIGH: u8 = 64;
    /// Default priority.
    pub const NORMAL: u8 = 128;
    /// Below normal.
    pub const LOW: u8 = 192;
    /// Lowest priority.
    pub const BACKGROUND: u8 = 255;
}

} // verus!
