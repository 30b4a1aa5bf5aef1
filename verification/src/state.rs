//! State frames: which substate is active, which clip plays in it and at
//! which frame.

use vstd::prelude::*;

verus! {

/// One frame of the state stack.
#[derive(Debug, Clone)]
pub struct StateDetails {
    pub sub_name: String,
    pub play_name: String,
    pub index: u32,
}

/// The mathematical value of a [`StateDetails`].
pub struct Frame {
    pub sub_name: Seq<char>,
    pub play_name: Seq<char>,
    pub index: u32,
}

impl View for StateDetails {
    type V = Frame;

    open spec fn view(&self) -> Frame {
        Frame { sub_name: self.sub_name@, play_name: self.play_name@, index: self.index }
    }
}

impl StateDetails {
    /// Builds a frame from its three parts.
    pub fn new(sub_name: String, play_name: String, index: u32) -> (frame: Self)
        ensures
            frame.sub_name == sub_name,
            frame.play_name == play_name,
            frame.index == index,
    {
        Self { sub_name, play_name, index }
    }

    /// An independent frame with the same value.
    pub fn copy(&self) -> (frame: Self)
        ensures
            frame@ == self@,
    {
        Self {
            sub_name: self.sub_name.clone(),
            play_name: self.play_name.clone(),
            index: self.index,
        }
    }
}

} // verus!
