//! The fixed-size block of per-frame values handed to the fragment stage.
use vstd::prelude::*;
use crate::params::{le_bytes, push_le_bytes};

verus! {

/// The size in bytes of the per-frame block.
pub const GLOBALS_SIZE: u32 = 32;

/// Per-frame values. Fields that the shader reads as `f32` hold its bit pattern.
#[derive(Clone, Copy, Debug, PartialEq, Eq, Structural)]
pub struct Globals {
    pub resolution_x: u32,
    pub resolution_y: u32,
    pub mouse_x: u32,
    pub mouse_y: u32,
    pub mouse_wheel: u32,
    pub aspect_ratio: u32,
    pub time: u32,
    pub frame: u32,
}

impl Globals {
    /// The block as the shader reads it: resolution, mouse, mouse wheel,
    /// aspect ratio, time and frame index, each four bytes little-endian.
    pub open spec fn layout(self) -> Seq<u8> {
        le_bytes(self.resolution_x) + le_bytes(self.resolution_y) + le_bytes(self.mouse_x)
            + le_bytes(self.mouse_y) + le_bytes(self.mouse_wheel) + le_bytes(self.aspect_ratio)
            + le_bytes(self.time) + le_bytes(self.frame)
    }

    /// Globals for a fresh canvas: mouse at the origin, wheel, time and
    /// frame at zero. `aspect_ratio` is the bit pattern of width / height.
    pub fn new(resolution_x: u32, resolution_y: u32, aspect_ratio: u32) -> (r: Globals)
        ensures
            r == (Globals {
                resolution_x,
                resolution_y,
                mouse_x: 0,
                mouse_y: 0,
                mouse_wheel: 0,
                aspect_ratio,
                time: 0,
                frame: 0,
            }),
    {
        Globals {
            resolution_x,
            resolution_y,
            mouse_x: 0,
            mouse_y: 0,
            mouse_wheel: 0,
            aspect_ratio,
            time: 0,
            frame: 0,
        }
    }

    /// Serializes the block.
    pub fn to_bytes(&self) -> (r: Vec<u8>)
        ensures
            r@ == self.layout(),
            r@.len() == GLOBALS_SIZE,
    {
        let mut out: Vec<u8> = Vec::new();
        push_le_bytes(&mut out, self.resolution_x);
        push_le_bytes(&mut out, self.resolution_y);
        push_le_bytes(&mut out, self.mouse_x);
        push_le_bytes(&mut out, self.mouse_y);
        push_le_bytes(&mut out, self.mouse_wheel);
        push_le_bytes(&mut out, self.aspect_ratio);
        push_le_bytes(&mut out, self.time);
        push_le_bytes(&mut out, self.frame);
        out
    }
}

} // verus!
