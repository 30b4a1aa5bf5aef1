use anim_state_machine::command::{Command, Operation};
use anim_state_machine::definition::{AnimationStateMachineData, Substatus};
use anim_state_machine::state::StateDetails;
use anim_state_machine::transition::apply_command;

fn definition() -> AnimationStateMachineData {
    let mut data = AnimationStateMachineData::new("m".to_string(), "ground".to_string());
    data.insert("ground".to_string(), Substatus::new("idle".to_string()));
    data.insert("air".to_string(), Substatus::new("fall".to_string()));
    data
}

fn frame(sub_name: &str, play_name: &str, index: u32) -> StateDetails {
    StateDetails::new(sub_name.to_string(), play_name.to_string(), index)
}

fn command(operation: Operation, sub_name: &str, play_name: &str, index: u32) -> Command {
    Command {
        operation,
        sub_name: sub_name.to_string(),
        play_name: play_name.to_string(),
        index,
    }
}

fn parts(stack: &[StateDetails]) -> Vec<(String, String, u32)> {
    stack.iter().map(|f| (f.sub_name.clone(), f.play_name.clone(), f.index)).collect()
}

fn triples(list: &[(&str, &str, u32)]) -> Vec<(String, String, u32)> {
    list.iter().map(|(s, p, i)| (s.to_string(), p.to_string(), *i)).collect()
}

#[test]
fn enter_pushes_a_frame() {
    let mut stack = vec![frame("ground", "walk", 4)];
    apply_command(&mut stack, &definition(), &command(Operation::Enter, "air", "rise", 2));
    assert_eq!(parts(&stack), triples(&[("ground", "walk", 4), ("air", "rise", 2)]));
}

#[test]
fn enter_takes_the_default_play_name() {
    let mut stack = vec![frame("ground", "walk", 4)];
    apply_command(&mut stack, &definition(), &command(Operation::Enter, "air", "", 2));
    assert_eq!(parts(&stack), triples(&[("ground", "walk", 4), ("air", "fall", 2)]));
}

#[test]
fn enter_of_an_unknown_substate_does_nothing() {
    let mut stack = vec![frame("ground", "walk", 4)];
    apply_command(&mut stack, &definition(), &command(Operation::Enter, "water", "swim", 2));
    assert_eq!(parts(&stack), triples(&[("ground", "walk", 4)]));
}

#[test]
fn enter_on_an_empty_stack_pushes() {
    let mut stack = vec![];
    apply_command(&mut stack, &definition(), &command(Operation::Enter, "air", "", 0));
    assert_eq!(parts(&stack), triples(&[("air", "fall", 0)]));
}

#[test]
fn exit_pops_and_resets_the_parent() {
    let mut stack = vec![frame("ground", "walk", 4), frame("air", "rise", 2)];
    apply_command(&mut stack, &definition(), &command(Operation::Exit, "", "", 0));
    assert_eq!(parts(&stack), triples(&[("ground", "idle", 0)]));
}

#[test]
fn exit_gives_the_parent_the_index_of_the_command() {
    let mut stack = vec![frame("ground", "walk", 4), frame("air", "rise", 2)];
    apply_command(&mut stack, &definition(), &command(Operation::Exit, "", "", 6));
    assert_eq!(parts(&stack), triples(&[("ground", "idle", 6)]));
}

#[test]
fn exit_keeps_the_frames_below_the_parent() {
    let mut stack =
        vec![frame("ground", "walk", 4), frame("air", "rise", 2), frame("air", "fall", 1)];
    apply_command(&mut stack, &definition(), &command(Operation::Exit, "", "", 0));
    assert_eq!(parts(&stack), triples(&[("ground", "walk", 4), ("air", "fall", 0)]));
}

#[test]
fn exit_keeps_a_parent_of_an_unknown_substate() {
    let mut stack = vec![frame("water", "swim", 4), frame("air", "rise", 2)];
    apply_command(&mut stack, &definition(), &command(Operation::Exit, "", "", 6));
    assert_eq!(parts(&stack), triples(&[("water", "swim", 4)]));
}

#[test]
fn exit_from_the_bottom_does_nothing() {
    let mut stack = vec![frame("ground", "walk", 4)];
    apply_command(&mut stack, &definition(), &command(Operation::Exit, "", "", 6));
    assert_eq!(parts(&stack), triples(&[("ground", "walk", 4)]));
    let mut stack = vec![];
    apply_command(&mut stack, &definition(), &command(Operation::Exit, "", "", 6));
    assert_eq!(parts(&stack), triples(&[]));
}

#[test]
fn replace_overwrites_the_top() {
    let mut stack = vec![frame("ground", "walk", 4), frame("ground", "run", 1)];
    apply_command(&mut stack, &definition(), &command(Operation::Replace, "air", "", 3));
    assert_eq!(parts(&stack), triples(&[("ground", "walk", 4), ("air", "fall", 3)]));
    apply_command(&mut stack, &definition(), &command(Operation::Replace, "ground", "run", 0));
    assert_eq!(parts(&stack), triples(&[("ground", "walk", 4), ("ground", "run", 0)]));
}

#[test]
fn replace_with_an_unknown_substate_does_nothing() {
    let mut stack = vec![frame("ground", "walk", 4)];
    apply_command(&mut stack, &definition(), &command(Operation::Replace, "water", "swim", 3));
    assert_eq!(parts(&stack), triples(&[("ground", "walk", 4)]));
}

#[test]
fn replace_on_an_empty_stack_does_nothing() {
    let mut stack = vec![];
    apply_command(&mut stack, &definition(), &command(Operation::Replace, "air", "", 3));
    assert_eq!(parts(&stack), triples(&[]));
}

#[test]
fn restart_keeps_the_names() {
    let mut stack = vec![frame("ground", "walk", 4), frame("air", "rise", 2)];
    apply_command(&mut stack, &definition(), &command(Operation::Restart, "x", "y", 9));
    assert_eq!(parts(&stack), triples(&[("ground", "walk", 4), ("air", "rise", 0)]));
}

#[test]
fn update_with_one_name_sets_the_play_name() {
    let mut stack = vec![frame("ground", "walk", 4)];
    apply_command(&mut stack, &definition(), &command(Operation::Update, "run", "", 2));
    assert_eq!(parts(&stack), triples(&[("ground", "run", 2)]));
}

#[test]
fn update_with_two_names_sets_both() {
    let mut stack = vec![frame("ground", "walk", 4)];
    apply_command(&mut stack, &definition(), &command(Operation::Update, "water", "swim", 2));
    assert_eq!(parts(&stack), triples(&[("water", "swim", 2)]));
}

#[test]
fn update_without_a_name_does_nothing() {
    let mut stack = vec![frame("ground", "walk", 4)];
    apply_command(&mut stack, &definition(), &command(Operation::Update, "", "", 2));
    assert_eq!(parts(&stack), triples(&[("ground", "walk", 4)]));
    apply_command(&mut stack, &definition(), &command(Operation::Update, "", "run", 2));
    assert_eq!(parts(&stack), triples(&[("ground", "walk", 4)]));
}

#[test]
fn skip_does_nothing() {
    let mut stack = vec![frame("ground", "walk", 4)];
    apply_command(&mut stack, &definition(), &command(Operation::Skip, "air", "fall", 2));
    assert_eq!(parts(&stack), triples(&[("ground", "walk", 4)]));
}

#[test]
fn copy_is_an_equal_frame() {
    let first = frame("ground", "walk", 4);
    let copy = first.copy();
    assert_eq!(copy.sub_name, "ground");
    assert_eq!(copy.play_name, "walk");
    assert_eq!(copy.index, 4);
}

#[test]
fn new_frame_keeps_its_parts() {
    let frame = StateDetails::new("idle".to_string(), "stand".to_string(), 3);
    assert_eq!(frame.sub_name, "idle");
    assert_eq!(frame.play_name, "stand");
    assert_eq!(frame.index, 3);
}
