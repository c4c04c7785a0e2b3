//! Text rendering support: the glyph atlas and the logical font slots.

pub mod atlas;

use vstd::prelude::*;

verus! {

/// Logical font slots. The interface face carries labels and values, the
/// monospaced face carries decoded text, frequencies and timestamps.
#[derive(Debug, Clone, Copy, PartialEq, Eq, Structural)]
pub enum FontId {
    Ui,
    Mono,
}

impl FontId {
    /// Position of the slot in the slot table: the interface face first.
    pub fn index(self) -> (r: usize)
        ensures
            r == (match self {
                FontId::Ui => 0usize,
                FontId::Mono => 1usize,
            }),
    {
        match self {
            FontId::Ui => 0,
            FontId::Mono => 1,
        }
    }
}

} // verus!
