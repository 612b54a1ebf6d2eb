//! The shape of a compiled pipeline and the feedback-texture pair.
use vstd::prelude::*;

verus! {

/// The bind group slot of the feedback texture read by the fragment stage.
pub const FEEDBACK_SLOT: u32 = 0;

/// The bind group slot of the parameter buffer, when there is one.
pub const PARAMS_SLOT: u32 = 1;

/// Vertices drawn per frame: one full-screen triangle made by the vertex stage.
pub const VERTEX_COUNT: u32 = 3;

/// The size in bytes of the parameter buffer for `count` parameters, or
/// `None` when there are none and the pipeline gets no parameter binding.
pub open spec fn binding_size(count: nat) -> Option<u64> {
    if count == 0 {
        None
    } else {
        Some((4 * count) as u64)
    }
}

/// The parameter buffer's size for `count` parameters: four bytes each, and
/// no buffer at all for none.
pub fn params_binding_size(count: usize) -> (r: Option<u64>)
    requires
        count <= u64::MAX / 4,
    ensures
        r == binding_size(count as nat),
{
    if count == 0 {
        None
    } else {
        Some(4 * count as u64)
    }
}

/// Two color targets: each frame reads one and writes the other, and the
/// roles swap once per completed frame.
#[derive(Clone, Copy, Debug, PartialEq, Eq, Structural)]
pub struct FeedbackPair {
    /// Whether the second texture is the one read this frame.
    pub read_second: bool,
}

impl FeedbackPair {
    /// The first texture is read first.
    pub fn new() -> (r: FeedbackPair)
        ensures
            !r.read_second,
    {
        FeedbackPair { read_second: false }
    }

    /// The index (0 or 1) of the texture read this frame.
    pub fn read_index(&self) -> (r: usize)
        ensures
            r == (if self.read_second { 1usize } else { 0usize }),
    {
        if self.read_second { 1 } else { 0 }
    }

    /// The index (0 or 1) of the texture written this frame.
    pub fn write_index(&self) -> (r: usize)
        ensures
            r == (if self.read_second { 0usize } else { 1usize }),
    {
        if self.read_second { 0 } else { 1 }
    }

    /// Swaps the roles once a frame is complete: what was written is read next.
    pub fn swap(&mut self)
        ensures
            final(self).read_second == !old(self).read_second,
    {
        self.read_second = !self.read_second;
    }
}

} // verus!
