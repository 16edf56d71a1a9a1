//! A stack of free physical frames.
//!
//! Frames are handed out last-in first-out: the frame that was freed last is
//! the first one given out again. The length is kept in a `u32`, which is
//! enough for 16 TiB of memory.
use vstd::prelude::*;
use crate::frame::Frame;

verus! {

/// Bytes taken by the stack's header: a pointer to the first entry and the
/// `u32` length, padded to pointer alignment.
pub const FRAME_STACK_HEADER_SIZE: u64 = 16;

/// Bytes taken by one entry of the stack.
pub const FRAME_ENTRY_SIZE: u64 = 4;

/// The stack of free frames. Its view lists the frames from the bottom of
/// the stack to the top.
pub struct FrameStack {
    frames: Vec<Frame>,
}

impl View for FrameStack {
    type V = Seq<Frame>;

    closed spec fn view(&self) -> Seq<Frame> {
        self.frames@
    }
}

impl FrameStack {
    /// The length fits in the `u32` counter of the stack.
    pub open spec fn wf(&self) -> bool {
        self@.len() <= u32::MAX
    }

    /// An empty stack.
    pub fn new() -> (s: FrameStack)
        ensures
            s.wf(),
            s@ == Seq::<Frame>::empty(),
    {
        FrameStack { frames: Vec::new() }
    }

    /// Number of frames on the stack.
    pub fn length(&self) -> (n: u32)
        requires
            self.wf(),
        ensures
            n == self@.len(),
    {
        self.frames.len() as u32
    }

    /// Puts a frame on top of the stack.
    pub fn push(&mut self, frame: Frame)
        requires
            old(self).wf(),
            old(self)@.len() < u32::MAX,
        ensures
            final(self).wf(),
            final(self)@ == old(self)@.push(frame),
    {
        self.frames.push(frame);
    }

    /// Takes the frame on top of the stack, or `None` when the stack is empty.
    pub fn pop(&mut self) -> (r: Option<Frame>)
        requires
            old(self).wf(),
        ensures
            final(self).wf(),
            old(self)@.len() == 0 ==> r is None && final(self)@ == old(self)@,
            old(self)@.len() > 0 ==> r == Some(old(self)@.last()) && final(self)@ == old(
                self,
            )@.drop_last(),
    {
        self.frames.pop()
    }
}

/// A fresh, empty frame stack.
pub fn init() -> (s: FrameStack)
    ensures
        s.wf(),
        s@.len() == 0,
{
    FrameStack::new()
}

/// Number of free frames.
pub fn length(stack: &FrameStack) -> (n: u32)
    requires
        stack.wf(),
    ensures
        n == stack@.len(),
{
    stack.length()
}

/// Bytes that a frame stack holding `number_of_frames` frames occupies at
/// most: its header and one entry per frame.
pub fn max_size(number_of_frames: u32) -> (r: u64)
    ensures
        r == FRAME_STACK_HEADER_SIZE + number_of_frames * FRAME_ENTRY_SIZE,
{
    FRAME_STACK_HEADER_SIZE + number_of_frames as u64 * FRAME_ENTRY_SIZE
}

/// Takes a free frame: the one freed last, or `None` when none is left.
pub fn allocate_frame(stack: &mut FrameStack) -> (r: Option<Frame>)
    requires
        old(stack).wf(),
    ensures
        final(stack).wf(),
        old(stack)@.len() == 0 ==> r is None && final(stack)@ == old(stack)@,
        old(stack)@.len() > 0 ==> r == Some(old(stack)@.last()) && final(stack)@ == old(
            stack,
        )@.drop_last(),
{
    stack.pop()
}

/// Gives a frame back to the stack of free frames.
pub fn deallocate_frame(stack: &mut FrameStack, frame: Frame)
    requires
        old(stack).wf(),
        old(stack)@.len() < u32::MAX,
    ensures
        final(stack).wf(),
        final(stack)@ == old(stack)@.push(frame),
{
    stack.push(frame)
}

/// A frame that was just freed is the next one handed out, and handing it
/// out leaves the stack as it was before.
pub proof fn law_allocate_after_deallocate(stack: Seq<Frame>, frame: Frame)
    ensures
        stack.push(frame).len() > 0,
        stack.push(frame).last() == frame,
        stack.push(frame).drop_last() == stack,
{
    assert(stack.push(frame).drop_last() =~= stack);
}

} // verus!
