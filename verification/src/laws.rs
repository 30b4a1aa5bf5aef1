//! Laws of the interpreter, stated over its mathematical model.

use crate::command::{parse, CommandView, Operation};
use crate::context::{assigned, guard_value, passes, same_kind, ValueView};
use crate::definition::{ConditionView, Declaration, Definition};
use crate::guard::{calls_shift, exact_guard};
use crate::machine::{
    admissible, admitted, declare_all, effective_guards, event, fired, fires, initial,
    lemma_first_firing_below, listed, predicates, reset_triggers, tick, tried, Machine,
};
use crate::state::Frame;
use crate::transition::{apply, resumed_frame, with_top};
use vstd::prelude::*;

verus! {

/// A fresh interpreter of a definition that holds its default substate is in
/// that substate, plays its default play name and stands at index 0. It has
/// no other frame, and the last-frame flag is not set.
pub proof fn law_fresh_interpreter(def: Definition)
    requires
        def.substatus.contains_key(def.default),
    ensures
        initial(def).stack.len() == 1,
        initial(def).stack.last() == (Frame {
            sub_name: def.default,
            play_name: def.substatus[def.default].default,
            index: 0,
        }),
        !initial(def).last_frame,
{
}

/// Where the first `n` guards are tried as the evaluator admits, and each of
/// them is passed over for its target, calls a shift function, or is exact
/// and does not evaluate to true, none of their transitions fires.
pub proof fn lemma_none_fires(
    guards: Seq<ConditionView>,
    play_name: Seq<char>,
    variables: Map<Seq<char>, ValueView>,
    last_frame: bool,
    outcomes: Seq<bool>,
    n: int,
)
    requires
        0 <= n <= guards.len(),
        admitted(guards, play_name, variables, last_frame, outcomes),
        forall|j: int|
            0 <= j < n ==> (#[trigger] guards[j]).target == play_name || calls_shift(
                guards[j].expression,
            ) || (exact_guard(guards[j].expression) && !passes(
                guard_value(guards[j].expression, variables, predicates(last_frame)),
            )),
    ensures
        forall|j: int| 0 <= j < n ==> !fires(guards, play_name, outcomes, j),
    decreases n,
{
    if n > 0 {
        lemma_none_fires(guards, play_name, variables, last_frame, outcomes, n - 1);
        if guards[n - 1].target != play_name {
            assert(tried(guards, play_name, outcomes, n - 1));
        }
    }
}

/// A tick in which no transition of the current frame fires reports nothing
/// and changes nothing but the last-frame flag, which it clears.
pub proof fn law_quiet_tick(def: Definition, machine: Machine, outcomes: Seq<bool>)
    requires
        machine.stack.len() > 0,
        forall|j: int|
            0 <= j < effective_guards(def, machine.stack.last()).len() ==> !fires(
                effective_guards(def, machine.stack.last()),
                machine.stack.last().play_name,
                outcomes,
                j,
            ),
    ensures
        event(def, machine, outcomes) is None,
        tick(def, machine, outcomes).stack == machine.stack,
        tick(def, machine, outcomes).variables == machine.variables,
        !tick(def, machine, outcomes).last_frame,
{
    let guards = effective_guards(def, machine.stack.last());
    lemma_first_firing_below(guards, machine.stack.last().play_name, outcomes, guards.len() as int);
}

/// A tick in which no guard of the current frame evaluates to true reports
/// nothing and changes nothing but the last-frame flag: this holds of every
/// outcome that the evaluator admits, where every guard is exact and calls no
/// shift function.
pub proof fn law_quiet_tick_of_false_guards(def: Definition, machine: Machine, outcomes: Seq<bool>)
    requires
        machine.stack.len() > 0,
        admissible(def, machine, outcomes),
        forall|j: int|
            0 <= j < effective_guards(def, machine.stack.last()).len() ==> exact_guard(
                (#[trigger] effective_guards(def, machine.stack.last())[j]).expression,
            ) && !passes(
                guard_value(
                    effective_guards(def, machine.stack.last())[j].expression,
                    machine.variables,
                    predicates(machine.last_frame),
                ),
            ),
    ensures
        event(def, machine, outcomes) is None,
        tick(def, machine, outcomes).stack == machine.stack,
        tick(def, machine, outcomes).variables == machine.variables,
        !tick(def, machine, outcomes).last_frame,
{
    let guards = effective_guards(def, machine.stack.last());
    lemma_none_fires(
        guards,
        machine.stack.last().play_name,
        machine.variables,
        machine.last_frame,
        outcomes,
        guards.len() as int,
    );
    law_quiet_tick(def, machine, outcomes);
}

/// Of the transitions that would fire, the one at the earliest position does,
/// and no other: the stack after the tick is the stack before it with the
/// command of that one transition carried out.
pub proof fn law_first_guard_wins(def: Definition, machine: Machine, outcomes: Seq<bool>, i: int)
    requires
        machine.stack.len() > 0,
        fires(
            effective_guards(def, machine.stack.last()),
            machine.stack.last().play_name,
            outcomes,
            i,
        ),
        forall|j: int|
            0 <= j < i ==> !fires(
                effective_guards(def, machine.stack.last()),
                machine.stack.last().play_name,
                outcomes,
                j,
            ),
    ensures
        fired(def, machine, outcomes) == Some(i),
        tick(def, machine, outcomes).stack == apply(
            def,
            machine.stack,
            parse(effective_guards(def, machine.stack.last())[i].target),
        ),
{
    let guards = effective_guards(def, machine.stack.last());
    lemma_first_firing_below(guards, machine.stack.last().play_name, outcomes, guards.len() as int);
}

/// The earliest guard that evaluates to true wins. Where the guard at
/// position `i` is exact, calls no shift function and evaluates to true, its
/// target is not the current play name, and every guard before it is passed
/// over for its target, calls a shift function, or is exact and does not
/// evaluate to true, then whatever outcomes the evaluator admits, the
/// transition at `i` is the one that fires.
pub proof fn law_earliest_true_guard_wins(
    def: Definition,
    machine: Machine,
    outcomes: Seq<bool>,
    i: int,
)
    requires
        machine.stack.len() > 0,
        admissible(def, machine, outcomes),
        0 <= i < effective_guards(def, machine.stack.last()).len(),
        effective_guards(def, machine.stack.last())[i].target != machine.stack.last().play_name,
        !calls_shift(effective_guards(def, machine.stack.last())[i].expression),
        exact_guard(effective_guards(def, machine.stack.last())[i].expression),
        passes(
            guard_value(
                effective_guards(def, machine.stack.last())[i].expression,
                machine.variables,
                predicates(machine.last_frame),
            ),
        ),
        forall|j: int|
            0 <= j < i ==> (#[trigger] effective_guards(def, machine.stack.last())[j]).target
                == machine.stack.last().play_name || calls_shift(
                effective_guards(def, machine.stack.last())[j].expression,
            ) || (exact_guard(effective_guards(def, machine.stack.last())[j].expression)
                && !passes(
                guard_value(
                    effective_guards(def, machine.stack.last())[j].expression,
                    machine.variables,
                    predicates(machine.last_frame),
                ),
            )),
    ensures
        fired(def, machine, outcomes) == Some(i),
        tick(def, machine, outcomes).stack == apply(
            def,
            machine.stack,
            parse(effective_guards(def, machine.stack.last())[i].target),
        ),
{
    let guards = effective_guards(def, machine.stack.last());
    let play_name = machine.stack.last().play_name;
    lemma_none_fires(guards, play_name, machine.variables, machine.last_frame, outcomes, i);
    assert(tried(guards, play_name, outcomes, i));
    law_first_guard_wins(def, machine, outcomes, i);
}

/// The guards that a substate lists for every play name are tried before
/// those that it lists for the current one: where the transition of one of
/// the former fires, the transition that fires is one of them.
pub proof fn law_wildcard_first(def: Definition, machine: Machine, outcomes: Seq<bool>, i: int)
    requires
        machine.stack.len() > 0,
        def.substatus.contains_key(machine.stack.last().sub_name),
        0 <= i < listed(def.substatus[machine.stack.last().sub_name], Seq::empty()).len(),
        fires(
            effective_guards(def, machine.stack.last()),
            machine.stack.last().play_name,
            outcomes,
            i,
        ),
    ensures
        fired(def, machine, outcomes) matches Some(k) && 0 <= k <= i,
        effective_guards(def, machine.stack.last())[i] == listed(
            def.substatus[machine.stack.last().sub_name],
            Seq::empty(),
        )[i],
{
    let guards = effective_guards(def, machine.stack.last());
    lemma_first_firing_below(guards, machine.stack.last().play_name, outcomes, guards.len() as int);
}

/// A command never empties a stack that holds a frame.
pub proof fn law_stack_stays(def: Definition, stack: Seq<Frame>, command: CommandView)
    requires
        stack.len() > 0,
    ensures
        apply(def, stack, command).len() > 0,
{
}

/// An interpreter that has a current frame keeps one through every tick, and
/// a tick reports an event exactly when a transition fires.
pub proof fn law_event_when_fired(def: Definition, machine: Machine, outcomes: Seq<bool>)
    requires
        machine.stack.len() > 0,
    ensures
        tick(def, machine, outcomes).stack.len() > 0,
        event(def, machine, outcomes) is Some <==> fired(def, machine, outcomes) is Some,
{
    if let Some(i) = fired(def, machine, outcomes) {
        law_stack_stays(
            def,
            machine.stack,
            parse(effective_guards(def, machine.stack.last())[i].target),
        );
    }
}

/// A transition whose command cannot be carried out still counts as fired:
/// the tick reports an event with the same frame before and after, and the
/// triggers are reset.
pub proof fn law_idle_command_consumes(
    def: Definition,
    machine: Machine,
    outcomes: Seq<bool>,
    i: int,
)
    requires
        machine.stack.len() > 0,
        fired(def, machine, outcomes) == Some(i),
        apply(
            def,
            machine.stack,
            parse(effective_guards(def, machine.stack.last())[i].target),
        ) == machine.stack,
    ensures
        tick(def, machine, outcomes).stack == machine.stack,
        event(def, machine, outcomes) == Some((machine.stack.last(), machine.stack.last())),
        tick(def, machine, outcomes).variables == reset_triggers(machine.variables, def.args),
        !tick(def, machine, outcomes).last_frame,
{
}

/// Resetting the triggers keeps the kind of every variable, and a variable
/// that it adds is false.
pub proof fn lemma_reset_keeps_kind(
    variables: Map<Seq<char>, ValueView>,
    args: Seq<Declaration>,
    name: Seq<char>,
)
    ensures
        variables.contains_key(name) ==> reset_triggers(variables, args).contains_key(name)
            && same_kind(reset_triggers(variables, args)[name], variables[name]),
        !variables.contains_key(name) && reset_triggers(variables, args).contains_key(name)
            ==> reset_triggers(variables, args)[name] == ValueView::Boolean(false),
    decreases args.len(),
{
    if args.len() > 0 {
        lemma_reset_keeps_kind(variables, args.drop_last(), name);
    }
}

/// After the triggers have been reset, a declared trigger reads false, unless
/// its variable held a value that is no boolean.
pub proof fn lemma_reset_clears(
    variables: Map<Seq<char>, ValueView>,
    args: Seq<Declaration>,
    i: int,
)
    requires
        0 <= i < args.len(),
        args[i].trigger,
        variables.contains_key(args[i].name) ==> variables[args[i].name] is Boolean,
    ensures
        reset_triggers(variables, args).contains_key(args[i].name),
        reset_triggers(variables, args)[args[i].name] == ValueView::Boolean(false),
    decreases args.len(),
{
    let name = args[i].name;
    lemma_reset_keeps_kind(variables, args.drop_last(), name);
    if i < args.len() - 1 {
        lemma_reset_clears(variables, args.drop_last(), i);
    }
}

/// After a tick in which a transition fired, every declared trigger reads
/// false, whichever guard fired, unless its variable held a value that is no
/// boolean.
pub proof fn law_triggers_reset(def: Definition, machine: Machine, outcomes: Seq<bool>, i: int)
    requires
        fired(def, machine, outcomes) is Some,
        0 <= i < def.args.len(),
        def.args[i].trigger,
        machine.variables.contains_key(def.args[i].name)
            ==> machine.variables[def.args[i].name] is Boolean,
    ensures
        tick(def, machine, outcomes).variables.contains_key(def.args[i].name),
        tick(def, machine, outcomes).variables[def.args[i].name] == ValueView::Boolean(false),
{
    lemma_reset_clears(machine.variables, def.args, i);
}

/// Whether the declarations agree: a trigger is declared with a boolean, and
/// the declarations of one name declare one kind of value.
pub open spec fn consistent(args: Seq<Declaration>) -> bool {
    &&& forall|i: int| 0 <= i < args.len() && (#[trigger] args[i]).trigger ==> args[i].initial is Boolean
    &&& forall|i: int, j: int|
        0 <= i < j < args.len() && #[trigger] args[i].name == #[trigger] args[j].name
            ==> same_kind(args[i].initial, args[j].initial)
}

/// Whether every declared trigger is a boolean variable.
pub open spec fn triggers_are_boolean(def: Definition, variables: Map<Seq<char>, ValueView>) -> bool {
    forall|i: int|
        0 <= i < def.args.len() && (#[trigger] def.args[i]).trigger ==> variables.contains_key(
            def.args[i].name,
        ) && variables[def.args[i].name] is Boolean
}

/// A variable that the declarations give rise to has the kind of one of the
/// declarations of its name.
pub proof fn lemma_declared_origin(args: Seq<Declaration>, name: Seq<char>)
    requires
        declare_all(args).contains_key(name),
    ensures
        exists|j: int|
            0 <= j < args.len() && (#[trigger] args[j]).name == name && same_kind(
                declare_all(args)[name],
                args[j].initial,
            ),
    decreases args.len(),
{
    if args.len() > 0 {
        let front = args.drop_last();
        let last = args.last();
        if declare_all(front).contains_key(name) && declare_all(args)[name] == declare_all(
            front,
        )[name] {
            lemma_declared_origin(front, name);
            let j = choose|j: int|
                0 <= j < front.len() && (#[trigger] front[j]).name == name && same_kind(
                    declare_all(front)[name],
                    front[j].initial,
                );
            assert(args[j] == front[j]);
        } else {
            assert(args[args.len() - 1].name == name);
        }
    }
}

/// Where the declarations agree, every declared variable exists and has the
/// kind that it was declared with.
pub proof fn lemma_declared_kind(args: Seq<Declaration>, i: int)
    requires
        consistent(args),
        0 <= i < args.len(),
    ensures
        declare_all(args).contains_key(args[i].name),
        same_kind(declare_all(args)[args[i].name], args[i].initial),
    decreases args.len(),
{
    let front = args.drop_last();
    let last = args.last();
    let name = args[i].name;
    assert(consistent(front)) by {
        assert forall|a: int| 0 <= a < front.len() && (#[trigger] front[a]).trigger implies front[
            a
        ].initial is Boolean by {
            assert(args[a] == front[a]);
        }
        assert forall|a: int, b: int|
            0 <= a < b < front.len() && #[trigger] front[a].name
                == #[trigger] front[b].name implies same_kind(
            front[a].initial,
            front[b].initial,
        ) by {
            assert(args[a].name == args[b].name);
        }
    }
    if i < args.len() - 1 {
        lemma_declared_kind(front, i);
        assert(front[i] == args[i]);
        if last.name == name {
            assert(args[i].name == args[args.len() - 1].name);
        }
    } else if declare_all(front).contains_key(name) {
        lemma_declared_origin(front, name);
        let j = choose|j: int|
            0 <= j < front.len() && (#[trigger] front[j]).name == name && same_kind(
                declare_all(front)[name],
                front[j].initial,
            );
        assert(args[j].name == args[i].name);
    }
}

/// In a fresh interpreter of a definition whose declarations agree, every
/// declared trigger is a boolean variable.
pub proof fn law_fresh_triggers(def: Definition)
    requires
        consistent(def.args),
    ensures
        triggers_are_boolean(def, initial(def).variables),
{
    assert forall|i: int| 0 <= i < def.args.len() && (#[trigger] def.args[i]).trigger implies {
        &&& initial(def).variables.contains_key(def.args[i].name)
        &&& initial(def).variables[def.args[i].name] is Boolean
    } by {
        lemma_declared_kind(def.args, i);
    }
}

/// Assigning to a variable, whatever its name and the value, leaves every
/// declared trigger a boolean variable.
pub proof fn law_assignment_keeps_triggers(
    def: Definition,
    variables: Map<Seq<char>, ValueView>,
    name: Seq<char>,
    value: ValueView,
)
    requires
        triggers_are_boolean(def, variables),
    ensures
        triggers_are_boolean(def, assigned(variables, name, value)),
{
    assert forall|i: int| 0 <= i < def.args.len() && (#[trigger] def.args[i]).trigger implies {
        &&& assigned(variables, name, value).contains_key(def.args[i].name)
        &&& assigned(variables, name, value)[def.args[i].name] is Boolean
    } by {}
}

/// A tick leaves every declared trigger a boolean variable, and a tick in
/// which a transition fired leaves every one of them false, whichever guard
/// fired.
pub proof fn law_ticks_clear_triggers(def: Definition, machine: Machine, outcomes: Seq<bool>)
    requires
        triggers_are_boolean(def, machine.variables),
    ensures
        triggers_are_boolean(def, tick(def, machine, outcomes).variables),
        fired(def, machine, outcomes) is Some ==> forall|i: int|
            0 <= i < def.args.len() && (#[trigger] def.args[i]).trigger ==> tick(def, machine, outcomes).variables[def.args[i].name] == ValueView::Boolean(false),
{
    if fired(def, machine, outcomes) is Some {
        assert forall|i: int|
            0 <= i < def.args.len() && (#[trigger] def.args[i]).trigger implies {
            &&& tick(def, machine, outcomes).variables.contains_key(def.args[i].name)
            &&& tick(def, machine, outcomes).variables[def.args[i].name] == ValueView::Boolean(false)
        } by {
            law_triggers_reset(def, machine, outcomes, i);
        }
    }
}

/// Whether a command works on the top frame alone: it neither enters nor
/// leaves a substate.
pub open spec fn in_place(command: CommandView) -> bool {
    command.operation != Operation::Enter && command.operation != Operation::Exit
}

/// The stack after a sequence of commands.
pub open spec fn apply_all(
    def: Definition,
    stack: Seq<Frame>,
    commands: Seq<CommandView>,
) -> Seq<Frame>
    decreases commands.len(),
{
    if commands.len() == 0 {
        stack
    } else {
        apply(def, apply_all(def, stack, commands.drop_last()), commands.last())
    }
}

/// Commands that work on the top frame alone leave the frames below it as
/// they are.
pub proof fn lemma_in_place(def: Definition, stack: Seq<Frame>, commands: Seq<CommandView>)
    requires
        stack.len() > 0,
        forall|k: int| 0 <= k < commands.len() ==> in_place(#[trigger] commands[k]),
    ensures
        apply_all(def, stack, commands).len() == stack.len(),
        apply_all(def, stack, commands).drop_last() == stack.drop_last(),
    decreases commands.len(),
{
    if commands.len() > 0 {
        lemma_in_place(def, stack, commands.drop_last());
        let before = apply_all(def, stack, commands.drop_last());
        assert(in_place(commands[commands.len() - 1]));
        assert(apply(def, before, commands.last()).drop_last() == before.drop_last());
    }
}

/// Entering a substate and later leaving it leads back to the parent
/// substate: whatever was done to the child frame in between, the stack is
/// the one from before the entry, with the parent playing the default play
/// name of its substate from the index of the exit. (A parent whose substate
/// the definition does not know stays as it was.)
pub proof fn law_enter_then_exit(
    def: Definition,
    stack: Seq<Frame>,
    enter: CommandView,
    between: Seq<CommandView>,
    exit: CommandView,
)
    requires
        stack.len() > 0,
        enter.operation == Operation::Enter,
        def.substatus.contains_key(enter.sub_name),
        forall|k: int| 0 <= k < between.len() ==> in_place(#[trigger] between[k]),
        exit.operation == Operation::Exit,
    ensures
        apply(def, apply_all(def, apply(def, stack, enter), between), exit) == with_top(
            stack,
            resumed_frame(def, stack.last(), exit.index),
        ),
        apply(def, apply_all(def, apply(def, stack, enter), between), exit).last().sub_name
            == stack.last().sub_name,
        def.substatus.contains_key(stack.last().sub_name) ==> apply(
            def,
            apply_all(def, apply(def, stack, enter), between),
            exit,
        ).last().play_name == def.substatus[stack.last().sub_name].default,
{
    let entered = apply(def, stack, enter);
    lemma_in_place(def, entered, between);
    assert(entered.drop_last() == stack);
}

/// Restarting the clip changes neither the substate nor the play name of the
/// current frame, nor any frame below it: it sets the index to 0.
pub proof fn law_restart(def: Definition, stack: Seq<Frame>, command: CommandView)
    requires
        stack.len() > 0,
        command.operation == Operation::Restart,
    ensures
        apply(def, stack, command).len() == stack.len(),
        apply(def, stack, command).drop_last() == stack.drop_last(),
        apply(def, stack, command).last().sub_name == stack.last().sub_name,
        apply(def, stack, command).last().play_name == stack.last().play_name,
        apply(def, stack, command).last().index == 0,
{
    assert(apply(def, stack, command).drop_last() == stack.drop_last());
}

} // verus!
