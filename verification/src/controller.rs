//! A fixed controller for a walking, running and jumping character: eight
//! clips and the rules that lead from one to the next.

use vstd::prelude::*;

verus! {

/// The clip that the character plays.
#[derive(Hash, PartialEq, Eq, Structural, Clone, Copy, Debug)]
pub enum Status {
    Idle,
    Walk,
    Run,
    /// Taking off.
    Jump1,
    /// Rising.
    Jump2,
    /// Turning at the top.
    Jump3,
    /// Falling.
    Jump4,
    /// Landing.
    Jump5,
}

/// How fast the character moves, whichever way: where its speed lies with
/// respect to the walking and the running threshold.
#[derive(PartialEq, Eq, Structural, Clone, Copy, Debug)]
pub enum Pace {
    /// Below the walking threshold.
    Still,
    /// Exactly at the walking threshold.
    AtWalk,
    /// Between the two thresholds.
    Walking,
    /// Exactly at the running threshold.
    AtRun,
    /// Above the running threshold.
    Running,
    /// The speed is not a number.
    Unknown,
}

/// What the controller reads in a tick.
#[derive(Clone, Copy, Debug)]
pub struct Args {
    pub pace: Pace,
    /// Whether the character moves downwards.
    pub falling: bool,
    pub is_ground: bool,
    /// Whether a jump has been asked for and not yet begun.
    pub jump: bool,
    /// Whether the clip has shown its last frame since the last tick.
    pub last_frame: bool,
}

/// The controller: the clip, what it reads, and the frame of the clip.
#[derive(Clone, Copy, Debug)]
pub struct StateMachine {
    pub state: Status,
    pub args: Args,
    pub index: u32,
}

/// The name of the clip in the skeleton file.
pub open spec fn clip_name(status: Status) -> Seq<char> {
    match status {
        Status::Idle => "idle"@,
        Status::Walk => "walk"@,
        Status::Run => "run"@,
        Status::Jump1 => "jump_1"@,
        Status::Jump2 => "jump_2"@,
        Status::Jump3 => "jump_3"@,
        Status::Jump4 => "jump_4"@,
        Status::Jump5 => "jump_5"@,
    }
}

/// Whether a clip is one of those on the ground.
pub open spec fn grounded(status: Status) -> bool {
    status == Status::Idle || status == Status::Walk || status == Status::Run
}

/// The ground clip that a pace asks for, if it asks for another than the
/// current one. At a threshold the character keeps walking or standing, but
/// a runner falls back to walking below the running threshold.
pub open spec fn paced(status: Status, pace: Pace) -> Option<Status> {
    match status {
        Status::Idle => match pace {
            Pace::Walking => Some(Status::Walk),
            Pace::Running => Some(Status::Run),
            _ => None,
        },
        Status::Walk => match pace {
            Pace::Still => Some(Status::Idle),
            Pace::Running => Some(Status::Run),
            _ => None,
        },
        Status::Run => match pace {
            Pace::Still => Some(Status::Idle),
            Pace::AtWalk => Some(Status::Walk),
            Pace::Walking => Some(Status::Walk),
            _ => None,
        },
        _ => None,
    }
}

/// Whether the tick begins a jump: on the ground, where the pace asks for no
/// other clip and a jump has been asked for.
pub open spec fn takes_off(status: Status, args: Args) -> bool {
    grounded(status) && paced(status, args.pace) is None && args.jump
}

/// The clip after a tick. On the ground the pace decides first, then a jump
/// that was asked for, then the loss of the ground. In the air each clip
/// waits for its own sign: the end of the clip, the turn downwards, or the
/// ground.
pub open spec fn next(status: Status, args: Args) -> Status {
    if grounded(status) {
        match paced(status, args.pace) {
            Some(other) => other,
            None => if args.jump {
                Status::Jump1
            } else if !args.is_ground {
                Status::Jump4
            } else {
                status
            },
        }
    } else {
        match status {
            Status::Jump1 => if args.last_frame {
                Status::Jump2
            } else {
                status
            },
            Status::Jump2 => if args.falling {
                Status::Jump3
            } else {
                status
            },
            Status::Jump3 => if args.last_frame {
                Status::Jump4
            } else {
                status
            },
            Status::Jump4 => if args.is_ground {
                Status::Jump5
            } else {
                status
            },
            _ => if args.last_frame {
                Status::Idle
            } else {
                status
            },
        }
    }
}

/// The controller after a tick: the next clip, from its first frame where it
/// is another one; the jump is used up where it begins, and the last-frame
/// flag is cleared.
pub open spec fn stepped(machine: StateMachine) -> StateMachine {
    StateMachine {
        state: next(machine.state, machine.args),
        args: Args {
            pace: machine.args.pace,
            falling: machine.args.falling,
            is_ground: machine.args.is_ground,
            jump: machine.args.jump && !takes_off(machine.state, machine.args),
            last_frame: false,
        },
        index: if next(machine.state, machine.args) != machine.state {
            0
        } else {
            machine.index
        },
    }
}

impl Status {
    /// The name of the clip in the skeleton file.
    pub fn to_str(&self) -> (name: &'static str)
        ensures
            name@ == clip_name(*self),
    {
        match self {
            Status::Idle => "idle",
            Status::Walk => "walk",
            Status::Run => "run",
            Status::Jump1 => "jump_1",
            Status::Jump2 => "jump_2",
            Status::Jump3 => "jump_3",
            Status::Jump4 => "jump_4",
            Status::Jump5 => "jump_5",
        }
    }
}

fn ground_step(state: Status, other: Option<Status>, args: &mut Args) -> (status: Status)
    requires
        grounded(state),
        other == paced(state, old(args).pace),
    ensures
        status == next(state, *old(args)),
        final(args).jump == (old(args).jump && !takes_off(state, *old(args))),
        final(args).pace == old(args).pace,
        final(args).falling == old(args).falling,
        final(args).is_ground == old(args).is_ground,
        final(args).last_frame == old(args).last_frame,
{
    match other {
        Some(other) => other,
        None => {
            if args.jump {
                args.jump = false;
                Status::Jump1
            } else if !args.is_ground {
                Status::Jump4
            } else {
                state
            }
        },
    }
}

impl StateMachine {
    /// Advances by one tick and tells whether the clip has changed.
    pub fn run(&mut self) -> (changed: bool)
        ensures
            *final(self) == stepped(*old(self)),
            changed == (final(self).state != old(self).state),
    {
        let state = self.state;
        let mut args = self.args;
        let a = match state {
            Status::Idle => {
                let other = match args.pace {
                    Pace::Walking => Some(Status::Walk),
                    Pace::Running => Some(Status::Run),
                    _ => None,
                };
                ground_step(state, other, &mut args)
            },
            Status::Walk => {
                let other = match args.pace {
                    Pace::Still => Some(Status::Idle),
                    Pace::Running => Some(Status::Run),
                    _ => None,
                };
                ground_step(state, other, &mut args)
            },
            Status::Run => {
                let other = match args.pace {
                    Pace::Still => Some(Status::Idle),
                    Pace::AtWalk => Some(Status::Walk),
                    Pace::Walking => Some(Status::Walk),
                    _ => None,
                };
                ground_step(state, other, &mut args)
            },
            Status::Jump1 => {
                if args.last_frame {
                    Status::Jump2
                } else {
                    state
                }
            },
            Status::Jump2 => {
                if args.falling {
                    Status::Jump3
                } else {
                    state
                }
            },
            Status::Jump3 => {
                if args.last_frame {
                    Status::Jump4
                } else {
                    state
                }
            },
            Status::Jump4 => {
                if args.is_ground {
                    Status::Jump5
                } else {
                    state
                }
            },
            Status::Jump5 => {
                if args.last_frame {
                    Status::Idle
                } else {
                    state
                }
            },
        };
        args.last_frame = false;
        self.args = args;
        if state != a {
            self.state = a;
            self.index = 0;
            return true;
        }
        false
    }
}

/// A tick changes the clip or leaves the frame index alone, and it always
/// clears the last-frame flag.
pub proof fn law_step(machine: StateMachine)
    ensures
        !stepped(machine).args.last_frame,
        stepped(machine).state == machine.state ==> stepped(machine).index == machine.index,
        stepped(machine).state != machine.state ==> stepped(machine).index == 0,
{
}

/// A jump that has been asked for is used up by the tick that begins it, and
/// by no other: it begins in that tick, or it is still asked for afterwards.
pub proof fn law_jump_is_used_once(machine: StateMachine)
    requires
        machine.args.jump,
    ensures
        stepped(machine).args.jump != (stepped(machine).state == Status::Jump1 && grounded(
            machine.state,
        )),
{
}

/// The five clips of a jump follow one another: no tick skips one, and only
/// the landing leads back to the ground.
pub proof fn law_jump_order(machine: StateMachine)
    requires
        !grounded(machine.state),
    ensures
        machine.state == Status::Jump1 ==> stepped(machine).state == Status::Jump1 || stepped(
            machine,
        ).state == Status::Jump2,
        machine.state == Status::Jump2 ==> stepped(machine).state == Status::Jump2 || stepped(
            machine,
        ).state == Status::Jump3,
        machine.state == Status::Jump3 ==> stepped(machine).state == Status::Jump3 || stepped(
            machine,
        ).state == Status::Jump4,
        machine.state == Status::Jump4 ==> stepped(machine).state == Status::Jump4 || stepped(
            machine,
        ).state == Status::Jump5,
        machine.state == Status::Jump5 ==> stepped(machine).state == Status::Jump5 || stepped(
            machine,
        ).state == Status::Idle,
{
}

} // verus!
