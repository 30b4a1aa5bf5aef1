use anim_state_machine::controller::{Args, Pace, StateMachine, Status};

fn args(pace: Pace) -> Args {
    Args { pace, falling: false, is_ground: true, jump: false, last_frame: false }
}

fn machine(state: Status, args: Args) -> StateMachine {
    StateMachine { state, args, index: 5 }
}

fn after(state: Status, args: Args) -> (Status, bool, u32) {
    let mut m = machine(state, args);
    let changed = m.run();
    (m.state, changed, m.index)
}

#[test]
fn clip_names() {
    assert_eq!(Status::Idle.to_str(), "idle");
    assert_eq!(Status::Walk.to_str(), "walk");
    assert_eq!(Status::Run.to_str(), "run");
    assert_eq!(Status::Jump1.to_str(), "jump_1");
    assert_eq!(Status::Jump2.to_str(), "jump_2");
    assert_eq!(Status::Jump3.to_str(), "jump_3");
    assert_eq!(Status::Jump4.to_str(), "jump_4");
    assert_eq!(Status::Jump5.to_str(), "jump_5");
}

#[test]
fn idle_follows_the_pace() {
    assert_eq!(after(Status::Idle, args(Pace::Still)), (Status::Idle, false, 5));
    assert_eq!(after(Status::Idle, args(Pace::AtWalk)), (Status::Idle, false, 5));
    assert_eq!(after(Status::Idle, args(Pace::Walking)), (Status::Walk, true, 0));
    assert_eq!(after(Status::Idle, args(Pace::AtRun)), (Status::Idle, false, 5));
    assert_eq!(after(Status::Idle, args(Pace::Running)), (Status::Run, true, 0));
    assert_eq!(after(Status::Idle, args(Pace::Unknown)), (Status::Idle, false, 5));
}

#[test]
fn walk_follows_the_pace() {
    assert_eq!(after(Status::Walk, args(Pace::Still)), (Status::Idle, true, 0));
    assert_eq!(after(Status::Walk, args(Pace::AtWalk)), (Status::Walk, false, 5));
    assert_eq!(after(Status::Walk, args(Pace::Walking)), (Status::Walk, false, 5));
    assert_eq!(after(Status::Walk, args(Pace::AtRun)), (Status::Walk, false, 5));
    assert_eq!(after(Status::Walk, args(Pace::Running)), (Status::Run, true, 0));
    assert_eq!(after(Status::Walk, args(Pace::Unknown)), (Status::Walk, false, 5));
}

#[test]
fn run_follows_the_pace() {
    assert_eq!(after(Status::Run, args(Pace::Still)), (Status::Idle, true, 0));
    assert_eq!(after(Status::Run, args(Pace::AtWalk)), (Status::Walk, true, 0));
    assert_eq!(after(Status::Run, args(Pace::Walking)), (Status::Walk, true, 0));
    assert_eq!(after(Status::Run, args(Pace::AtRun)), (Status::Run, false, 5));
    assert_eq!(after(Status::Run, args(Pace::Running)), (Status::Run, false, 5));
    assert_eq!(after(Status::Run, args(Pace::Unknown)), (Status::Run, false, 5));
}

#[test]
fn a_jump_begins_where_the_pace_asks_for_nothing() {
    let mut m = machine(Status::Idle, Args { jump: true, ..args(Pace::Still) });
    assert!(m.run());
    assert_eq!(m.state, Status::Jump1);
    assert!(!m.args.jump);
    assert_eq!(m.index, 0);
    let mut m = machine(Status::Run, Args { jump: true, ..args(Pace::Running) });
    assert!(m.run());
    assert_eq!(m.state, Status::Jump1);
    assert!(!m.args.jump);
}

#[test]
fn the_pace_comes_before_the_jump() {
    let mut m = machine(Status::Idle, Args { jump: true, ..args(Pace::Walking) });
    assert!(m.run());
    assert_eq!(m.state, Status::Walk);
    assert!(m.args.jump);
    assert!(m.run());
    assert_eq!(m.state, Status::Jump1);
    assert!(!m.args.jump);
}

#[test]
fn losing_the_ground_leads_to_the_fall() {
    let falling = Args { is_ground: false, ..args(Pace::Still) };
    assert_eq!(after(Status::Idle, falling), (Status::Jump4, true, 0));
    let falling = Args { is_ground: false, ..args(Pace::AtRun) };
    assert_eq!(after(Status::Walk, falling), (Status::Jump4, true, 0));
    let falling = Args { is_ground: false, ..args(Pace::Running) };
    assert_eq!(after(Status::Run, falling), (Status::Jump4, true, 0));
    let jumping = Args { is_ground: false, jump: true, ..args(Pace::Still) };
    assert_eq!(after(Status::Idle, jumping), (Status::Jump1, true, 0));
}

#[test]
fn the_jump_runs_through_its_clips() {
    let mut m = machine(Status::Jump1, Args { is_ground: false, ..args(Pace::Running) });
    assert!(!m.run());
    m.args.last_frame = true;
    assert!(m.run());
    assert_eq!(m.state, Status::Jump2);
    assert!(!m.args.last_frame);
    m.args.last_frame = true;
    assert!(!m.run());
    assert!(!m.args.last_frame);
    m.args.falling = true;
    assert!(m.run());
    assert_eq!(m.state, Status::Jump3);
    assert!(!m.run());
    m.args.last_frame = true;
    assert!(m.run());
    assert_eq!(m.state, Status::Jump4);
    m.args.last_frame = true;
    assert!(!m.run());
    m.args.is_ground = true;
    assert!(m.run());
    assert_eq!(m.state, Status::Jump5);
    assert!(!m.run());
    m.args.last_frame = true;
    assert!(m.run());
    assert_eq!(m.state, Status::Idle);
    assert_eq!(m.index, 0);
}

#[test]
fn a_jump_asked_for_in_the_air_waits() {
    let mut m = machine(Status::Jump4, Args { jump: true, is_ground: false, ..args(Pace::Still) });
    assert!(!m.run());
    assert!(m.args.jump);
    assert_eq!(m.index, 5);
}

#[test]
fn the_last_frame_flag_is_cleared() {
    let mut m = machine(Status::Idle, Args { last_frame: true, ..args(Pace::Still) });
    assert!(!m.run());
    assert!(!m.args.last_frame);
    assert_eq!(m.index, 5);
}
