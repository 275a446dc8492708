//! Frame state that the interactive preview shares with its GPU shaders.
use vstd::prelude::*;

verus! {

/// Size of the render target and number of frames accumulated so far.
#[derive(Clone, Copy, Debug, PartialEq, Eq, Structural)]
pub struct Uniforms {
    pub width: u32,
    pub height: u32,
    pub frame_count: u32,
}

impl Uniforms {
    /// The state before the first frame of a `width` by `height` target.
    pub fn new(width: u32, height: u32) -> (r: Uniforms)
        ensures
            r == (Uniforms { width, height, frame_count: 0 }),
    {
        Uniforms { width, height, frame_count: 0 }
    }

    /// Counts one more frame; the counter wraps to 0 after `u32::MAX`.
    pub fn next_frame(&mut self)
        ensures
            final(self).width == old(self).width,
            final(self).height == old(self).height,
            final(self).frame_count == (old(self).frame_count + 1) % 0x1_0000_0000,
    {
        if self.frame_count == u32::MAX {
            self.frame_count = 0;
        } else {
            self.frame_count = self.frame_count + 1;
        }
    }

    /// Which of the two ping-pong sample buffers the current frame displays.
    pub fn display_slot(&self) -> (r: usize)
        ensures
            r == self.frame_count % 2,
    {
        (self.frame_count % 2) as usize
    }
}

} // verus!
