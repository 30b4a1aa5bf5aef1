//! What a command does to the state stack.

use crate::command::{Command, CommandView, Operation};
use crate::definition::{AnimationStateMachineData, Definition};
use crate::state::{Frame, StateDetails};
use vstd::prelude::*;

verus! {

/// The frames of a stack, bottom first.
pub open spec fn frames(stack: Seq<StateDetails>) -> Seq<Frame> {
    Seq::new(stack.len(), |i: int| stack[i]@)
}

/// The frame that a command names: its substate at its index, with its play
/// name or, where it has none, with the default play name of the substate.
pub open spec fn named_frame(def: Definition, command: CommandView) -> Frame {
    Frame {
        sub_name: command.sub_name,
        play_name: if command.play_name.len() > 0 {
            command.play_name
        } else {
            def.substatus[command.sub_name].default
        },
        index: command.index,
    }
}

/// The frame that the parent becomes when its child is left: it plays the
/// default of its substate from the index of the command. A parent whose
/// substate the definition does not know stays as it is.
pub open spec fn resumed_frame(def: Definition, parent: Frame, index: u32) -> Frame {
    if def.substatus.contains_key(parent.sub_name) {
        Frame {
            sub_name: parent.sub_name,
            play_name: def.substatus[parent.sub_name].default,
            index,
        }
    } else {
        parent
    }
}

/// The frame that an update in place makes of the top frame: a command with
/// one name sets the play name, one with two names sets substate and play
/// name, and one without a name changes nothing.
pub open spec fn updated_frame(top: Frame, command: CommandView) -> Frame {
    if command.sub_name.len() == 0 {
        top
    } else if command.play_name.len() == 0 {
        Frame { sub_name: top.sub_name, play_name: command.sub_name, index: command.index }
    } else {
        Frame {
            sub_name: command.sub_name,
            play_name: command.play_name,
            index: command.index,
        }
    }
}

/// The stack with another top frame.
pub open spec fn with_top(stack: Seq<Frame>, top: Frame) -> Seq<Frame> {
    stack.drop_last().push(top)
}

/// The stack after a command. A command that cannot be carried out leaves the
/// stack as it is: entering or replacing with a substate that the definition
/// does not know, leaving the bottom frame, or anything on an empty stack but
/// entering.
pub open spec fn apply(def: Definition, stack: Seq<Frame>, command: CommandView) -> Seq<Frame> {
    match command.operation {
        Operation::Enter => if def.substatus.contains_key(command.sub_name) {
            stack.push(named_frame(def, command))
        } else {
            stack
        },
        Operation::Exit => if stack.len() >= 2 {
            let rest = stack.drop_last();
            with_top(rest, resumed_frame(def, rest.last(), command.index))
        } else {
            stack
        },
        Operation::Replace => if stack.len() > 0 && def.substatus.contains_key(command.sub_name) {
            with_top(stack, named_frame(def, command))
        } else {
            stack
        },
        Operation::Restart => if stack.len() > 0 {
            with_top(
                stack,
                Frame {
                    sub_name: stack.last().sub_name,
                    play_name: stack.last().play_name,
                    index: 0,
                },
            )
        } else {
            stack
        },
        Operation::Update => if stack.len() > 0 {
            with_top(stack, updated_frame(stack.last(), command))
        } else {
            stack
        },
        Operation::Skip => stack,
    }
}

fn set_top(stack: &mut Vec<StateDetails>, top: StateDetails)
    requires
        old(stack)@.len() > 0,
    ensures
        frames(final(stack)@) == with_top(frames(old(stack)@), top@),
{
    let last: usize = stack.len() - 1;
    stack.set(last, top);
}

fn named(data: &AnimationStateMachineData, command: &Command) -> (frame: Option<StateDetails>)
    ensures
        match frame {
            Some(frame) => data@.substatus.contains_key(command@.sub_name) && frame@ == named_frame(
                data@,
                command@,
            ),
            None => !data@.substatus.contains_key(command@.sub_name),
        },
{
    match data.substatus(&command.sub_name) {
        Some(substatus) => {
            let play_name = if command.play_name.as_str().unicode_len() > 0 {
                command.play_name.clone()
            } else {
                substatus.default_play().clone()
            };
            Some(StateDetails::new(command.sub_name.clone(), play_name, command.index))
        },
        None => None,
    }
}

/// Carries out a command on the state stack.
pub fn apply_command(
    stack: &mut Vec<StateDetails>,
    data: &AnimationStateMachineData,
    command: &Command,
)
    ensures
        frames(final(stack)@) == apply(data@, frames(old(stack)@), command@),
{
    let depth: usize = stack.len();
    match command.operation {
        Operation::Enter => {
            if let Some(frame) = named(data, command) {
                stack.push(frame);
            }
        },
        Operation::Exit => {
            if depth >= 2 {
                stack.pop();
                let parent = stack[depth - 2].copy();
                match data.substatus(&parent.sub_name) {
                    Some(substatus) => {
                        let resumed = StateDetails::new(
                            parent.sub_name,
                            substatus.default_play().clone(),
                            command.index,
                        );
                        set_top(stack, resumed);
                    },
                    None => {
                        set_top(stack, parent);
                    },
                }
            }
        },
        Operation::Replace => {
            if depth > 0 {
                if let Some(frame) = named(data, command) {
                    set_top(stack, frame);
                }
            }
        },
        Operation::Restart => {
            if depth > 0 {
                let top = stack[depth - 1].copy();
                set_top(stack, StateDetails::new(top.sub_name, top.play_name, 0));
            }
        },
        Operation::Update => {
            if depth > 0 {
                let top = stack[depth - 1].copy();
                let updated = if command.sub_name.as_str().unicode_len() == 0 {
                    top
                } else if command.play_name.as_str().unicode_len() == 0 {
                    StateDetails::new(top.sub_name, command.sub_name.clone(), command.index)
                } else {
                    StateDetails::new(
                        command.sub_name.clone(),
                        command.play_name.clone(),
                        command.index,
                    )
                };
                set_top(stack, updated);
            }
        },
        Operation::Skip => {},
    }
}

} // verus!
