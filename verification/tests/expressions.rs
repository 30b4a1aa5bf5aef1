use anim_state_machine::context::{Context, Value};
use anim_state_machine::definition::{AnimationStateMachineData, Condition, FieldType, Substatus};
use anim_state_machine::machine::AnimationStateMachine;
use anim_state_machine::state::StateDetails;
use std::rc::Rc;

#[test]
fn test_exp() {
    let mut ctx = Context::new();
    ctx.set("velocity_y".to_string(), Value::Float((-0.4f64).to_bits()));
    let result = ctx.holds("velocity_y < 0");
    println!("result = {:?}", result);
    assert!(result);
}

fn list(conditions: &[(&str, &str)]) -> Vec<Condition> {
    conditions
        .iter()
        .map(|(target, expression)| Condition::new(target.to_string(), expression.to_string()))
        .collect()
}

fn player() -> AnimationStateMachineData {
    let mut data = AnimationStateMachineData::new("player01".to_string(), "ground".to_string());
    data.declare(FieldType::FloatArg { name: "input_x".to_string(), value: 0.0f64.to_bits() });
    data.declare(FieldType::FloatArg { name: "velocity_y".to_string(), value: 0.0f64.to_bits() });
    data.declare(FieldType::BooleanArg { name: "is_ground".to_string(), value: false });
    data.declare(FieldType::TriggerArg { name: "jump".to_string(), value: false });
    let mut ground = Substatus::new("idle".to_string());
    ground.insert(
        "".to_string(),
        list(&[(">jump", "jump && is_ground"), (">jump.jump_4", "!is_ground")]),
    );
    ground.insert(
        "idle".to_string(),
        list(&[("walk", "input_x > 0.1 && input_x < 0.6"), ("run", "input_x >= 0.6")]),
    );
    ground.insert(
        "walk".to_string(),
        list(&[("idle", "input_x <= 0.1"), ("run", "input_x >= 0.6")]),
    );
    ground.insert(
        "run".to_string(),
        list(&[("idle", "input_x <= 0.1"), ("walk", "input_x < 0.6")]),
    );
    data.insert("ground".to_string(), ground);
    let mut jump = Substatus::new("jump_1".to_string());
    jump.insert("jump_1".to_string(), list(&[("jump_2", "last_frame()")]));
    jump.insert("jump_2".to_string(), list(&[("jump_3", "velocity_y < 0")]));
    jump.insert("jump_3".to_string(), list(&[("jump_4", "last_frame()")]));
    jump.insert("jump_4".to_string(), list(&[("jump_5", "is_ground")]));
    jump.insert("jump_5".to_string(), list(&[("<", "last_frame()")]));
    data.insert("jump".to_string(), jump);
    data
}

fn now(machine: &AnimationStateMachine) -> (String, String, u32) {
    let state: &StateDetails = machine.state().unwrap();
    (state.sub_name.clone(), state.play_name.clone(), state.index)
}

fn at(sub_name: &str, play_name: &str) -> (String, String, u32) {
    (sub_name.to_string(), play_name.to_string(), 0)
}

#[test]
fn test_load_sm() {
    let result = Rc::new(player());

    let mut machine = AnimationStateMachine::new(result);
    assert_eq!(now(&machine), at("ground", "idle"));

    machine.run().unwrap();
    assert_eq!(now(&machine), at("jump", "jump_4"));
    machine.run().unwrap();
    assert_eq!(now(&machine), at("jump", "jump_4"));

    machine.set_bool("is_ground".to_string(), true);

    machine.run().unwrap();
    assert_eq!(now(&machine), at("jump", "jump_5"));
    machine.set_last_frame();
    machine.run().unwrap();
    assert_eq!(now(&machine), at("ground", "idle"));
    machine.run().unwrap();
    machine.run().unwrap();
    assert_eq!(now(&machine), at("ground", "idle"));

    machine.set_flaot("input_x".to_string(), 0.5f64.to_bits());
    machine.run().unwrap();
    assert_eq!(now(&machine), at("ground", "walk"));
    machine.run().unwrap();
    machine.set_last_frame();
    machine.run().unwrap();
    machine.set_last_frame();
    machine.run().unwrap();
    assert_eq!(now(&machine), at("ground", "walk"));

    machine.set_trigger("jump".to_string());
    machine.set_bool("is_ground".to_string(), true);

    machine.run().unwrap();
    assert_eq!(now(&machine), at("jump", "jump_1"));

    println!("v = {:?}", machine.state());

    machine.set_last_frame();

    machine.run().unwrap();
    assert_eq!(now(&machine), at("jump", "jump_2"));

    machine.run().unwrap();

    machine.set_flaot("velocity_y".to_string(), (-1.5f64).to_bits());

    println!("v = {:?}", machine.state());

    machine.run().unwrap();
    assert_eq!(now(&machine), at("jump", "jump_3"));

    machine.run().unwrap();

    println!("v = {:?}", machine.state());

    machine.run().unwrap();

    machine.set_last_frame();

    machine.run().unwrap();
    assert_eq!(now(&machine), at("jump", "jump_4"));

    machine.set_last_frame();

    machine.run().unwrap();
    assert_eq!(now(&machine), at("jump", "jump_5"));

    machine.run().unwrap();

    println!("v = {:?}", machine.state());

    machine.set_last_frame();
    machine.run().unwrap();
    assert_eq!(now(&machine), at("ground", "idle"));

    println!("v = {:?}", machine.state());

    machine.set_bool("is_ground".to_string(), false);

    machine.run().unwrap();
    assert_eq!(now(&machine), at("jump", "jump_4"));

    println!("v = {:?}", machine.state());
}
