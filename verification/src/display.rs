//! Display drivers: what a board's display does besides drawing.

use vstd::prelude::*;

verus! {

/// Anything that can flush its own framebuffer to the physical display
/// (a no-op on displays that are already visible in real time).
pub trait DisplayFlush {
    fn flush_display(&mut self);
}

} // verus!
