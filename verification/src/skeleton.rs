//! The float-free records of a skeleton file and the stepping of a clip's
//! frame index.

use vstd::prelude::*;

verus! {

#[derive(Default, Debug, Clone, PartialEq)]
pub struct Bone {
    pub name: String,
}

#[derive(Default, Debug, Clone, PartialEq)]
pub struct ArmatureSlot {
    pub name: String,
    pub parent: String,
    pub display_index: u32,
}

#[derive(Default, Debug, Clone, PartialEq)]
pub struct DisplayFrame {
    pub value: u32,
}

#[derive(Default, Debug, Clone, PartialEq)]
pub struct AnimationSlot {
    pub name: String,
    pub display_frame: Vec<DisplayFrame>,
}

#[derive(Default, Debug, Clone, PartialEq)]
pub struct DefaultAction {
    pub goto_and_play: String,
}

#[derive(Default, Debug, Clone, PartialEq)]
pub struct Canvas {
    pub width: u32,
    pub height: u32,
}

/// Whether stepping on from `index` leaves the last frame of a clip of
/// `count` frames. An index that has no successor in `u32` counts as the last.
pub open spec fn wraps(count: nat, index: u32) -> bool {
    index + 1 >= count || index == u32::MAX
}

/// The frame index that follows `index` in a clip of `count` frames: the next
/// one, or 0 once the clip has run through its last frame.
pub open spec fn next_index(count: nat, index: u32) -> u32 {
    if wraps(count, index) {
        0
    } else {
        (index + 1) as u32
    }
}

impl AnimationSlot {
    /// Steps the frame index by one frame. The flag tells that the clip has
    /// shown its last frame and starts over.
    pub fn advance(&self, index: u32) -> (step: (u32, bool))
        ensures
            step.0 == next_index(self.display_frame@.len(), index),
            step.1 == wraps(self.display_frame@.len(), index),
            !step.1 ==> step.0 < self.display_frame@.len(),
    {
        let count: usize = self.display_frame.len();
        if index == u32::MAX || (index + 1) as usize >= count {
            (0, true)
        } else {
            (index + 1, false)
        }
    }

    /// The display that the frame at `index` shows, if the clip has such a
    /// frame.
    pub fn display_at(&self, index: u32) -> (display: Option<u32>)
        ensures
            display == if index < self.display_frame@.len() {
                Some(self.display_frame@[index as int].value)
            } else {
                None
            },
    {
        if (index as usize) < self.display_frame.len() {
            Some(self.display_frame[index as usize].value)
        } else {
            None
        }
    }
}

} // verus!
