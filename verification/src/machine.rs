//! The interpreter: it owns the state stack and the variables, and advances
//! by one tick per call of `run`.

use crate::command::{parse, parse_target};
use crate::context::{admits, assigned, no_predicates, no_variables, Context, Value, ValueView};
use crate::definition::{
    declarations, AnimationStateMachineData, Condition, ConditionView, Declaration, Definition,
    FieldType, SubstatusView,
};
use crate::state::{Frame, StateDetails};
use crate::transition::{apply, apply_command, frames};
use std::rc::Rc;
use vstd::prelude::*;

verus! {

/// The name of the predicate that tells guards that the clip has shown its
/// last frame.
pub open spec fn last_frame_name() -> Seq<char> {
    "last_frame"@
}

/// The predicates that guards can call, for a given last-frame flag.
pub open spec fn predicates(last_frame: bool) -> Map<Seq<char>, bool> {
    no_predicates().insert(last_frame_name(), last_frame)
}

/// The state of an interpreter.
pub struct Machine {
    /// The active frames, the root first and the current one last.
    pub stack: Seq<Frame>,
    /// The variables, by name.
    pub variables: Map<Seq<char>, ValueView>,
    /// Whether the current clip has shown its last frame since the last tick.
    pub last_frame: bool,
}

/// The variables after the declarations have been assigned in their order.
pub open spec fn declare_all(args: Seq<Declaration>) -> Map<Seq<char>, ValueView>
    decreases args.len(),
{
    if args.len() == 0 {
        no_variables()
    } else {
        assigned(declare_all(args.drop_last()), args.last().name, args.last().initial)
    }
}

/// The stack that an interpreter starts with: one frame for the default
/// substate, playing its default from index 0. It is empty where the
/// definition does not hold the default substate.
pub open spec fn initial_stack(def: Definition) -> Seq<Frame> {
    if def.substatus.contains_key(def.default) {
        seq![
            Frame {
                sub_name: def.default,
                play_name: def.substatus[def.default].default,
                index: 0,
            },
        ]
    } else {
        Seq::empty()
    }
}

/// The state that an interpreter starts in.
pub open spec fn initial(def: Definition) -> Machine {
    Machine {
        stack: initial_stack(def),
        variables: declare_all(def.args),
        last_frame: false,
    }
}

/// The transitions that a substate lists under a play name.
pub open spec fn listed(substatus: SubstatusView, play_name: Seq<char>) -> Seq<ConditionView> {
    if substatus.content.contains_key(play_name) {
        substatus.content[play_name]
    } else {
        Seq::empty()
    }
}

/// The transitions that are open to a frame, in the order in which their
/// guards are tried: those that its substate lists for every play name, then
/// those that it lists for the play name of the frame.
pub open spec fn effective_guards(def: Definition, top: Frame) -> Seq<ConditionView> {
    if def.substatus.contains_key(top.sub_name) {
        let substatus = def.substatus[top.sub_name];
        listed(substatus, Seq::empty()) + listed(substatus, top.play_name)
    } else {
        Seq::empty()
    }
}

/// Whether the transition at position `i` fires, given what the guards come
/// to: its guard comes to true, and its target is not, letter for letter, the
/// play name of the current frame. A guard without an outcome counts as
/// false.
pub open spec fn fires(
    guards: Seq<ConditionView>,
    play_name: Seq<char>,
    outcomes: Seq<bool>,
    i: int,
) -> bool {
    0 <= i < guards.len() && i < outcomes.len() && outcomes[i] && guards[i].target != play_name
}

/// The position of the first transition that fires among the first `n`.
pub open spec fn first_firing_below(
    guards: Seq<ConditionView>,
    play_name: Seq<char>,
    outcomes: Seq<bool>,
    n: int,
) -> Option<int>
    decreases n,
{
    if n <= 0 {
        None
    } else {
        match first_firing_below(guards, play_name, outcomes, n - 1) {
            Some(i) => Some(i),
            None => if fires(guards, play_name, outcomes, n - 1) {
                Some(n - 1)
            } else {
                None
            },
        }
    }
}

/// The position of the first transition that fires.
pub open spec fn first_firing(
    guards: Seq<ConditionView>,
    play_name: Seq<char>,
    outcomes: Seq<bool>,
) -> Option<int> {
    first_firing_below(guards, play_name, outcomes, guards.len() as int)
}

/// Whether the guard at position `i` is tried in a tick: its transition is
/// not passed over for its target, and no transition before it fires.
pub open spec fn tried(
    guards: Seq<ConditionView>,
    play_name: Seq<char>,
    outcomes: Seq<bool>,
    i: int,
) -> bool {
    &&& 0 <= i < guards.len()
    &&& guards[i].target != play_name
    &&& forall|j: int| 0 <= j < i ==> !fires(guards, play_name, outcomes, j)
}

/// Whether `outcomes` can be what the guards of a frame come to: there is
/// one outcome for each guard, and that of every guard that is tried is one
/// that the evaluator admits.
pub open spec fn admitted(
    guards: Seq<ConditionView>,
    play_name: Seq<char>,
    variables: Map<Seq<char>, ValueView>,
    last_frame: bool,
    outcomes: Seq<bool>,
) -> bool {
    &&& outcomes.len() == guards.len()
    &&& forall|i: int| #[trigger]
        tried(guards, play_name, outcomes, i) ==> admits(
            guards[i].expression,
            variables,
            predicates(last_frame),
            outcomes[i],
        )
}

/// Whether `outcomes` can be what the guards of the current frame come to
/// in a tick.
pub open spec fn admissible(def: Definition, machine: Machine, outcomes: Seq<bool>) -> bool {
    machine.stack.len() > 0 ==> admitted(
        effective_guards(def, machine.stack.last()),
        machine.stack.last().play_name,
        machine.variables,
        machine.last_frame,
        outcomes,
    )
}

/// The variables after every declared trigger has been assigned false, in the
/// order of the declarations.
pub open spec fn reset_triggers(
    variables: Map<Seq<char>, ValueView>,
    args: Seq<Declaration>,
) -> Map<Seq<char>, ValueView>
    decreases args.len(),
{
    if args.len() == 0 {
        variables
    } else {
        let before = reset_triggers(variables, args.drop_last());
        if args.last().trigger {
            assigned(before, args.last().name, ValueView::Boolean(false))
        } else {
            before
        }
    }
}

/// The position of the transition that fires in a tick, given what the
/// guards come to.
pub open spec fn fired(def: Definition, machine: Machine, outcomes: Seq<bool>) -> Option<int> {
    if machine.stack.len() == 0 {
        None
    } else {
        first_firing(
            effective_guards(def, machine.stack.last()),
            machine.stack.last().play_name,
            outcomes,
        )
    }
}

/// The state after a tick, given what the guards come to. With an empty
/// stack nothing happens. Otherwise the last-frame flag is cleared, and where
/// a transition fires its command is carried out and the triggers are reset.
pub open spec fn tick(def: Definition, machine: Machine, outcomes: Seq<bool>) -> Machine {
    if machine.stack.len() == 0 {
        machine
    } else {
        match fired(def, machine, outcomes) {
            Some(i) => Machine {
                stack: apply(
                    def,
                    machine.stack,
                    parse(effective_guards(def, machine.stack.last())[i].target),
                ),
                variables: reset_triggers(machine.variables, def.args),
                last_frame: false,
            },
            None => Machine {
                stack: machine.stack,
                variables: machine.variables,
                last_frame: false,
            },
        }
    }
}

/// The event that a tick reports: the current frame before and after, where a
/// transition fires.
pub open spec fn event(def: Definition, machine: Machine, outcomes: Seq<bool>) -> Option<
    (Frame, Frame),
> {
    if fired(def, machine, outcomes) is Some && tick(def, machine, outcomes).stack.len() > 0 {
        Some((machine.stack.last(), tick(def, machine, outcomes).stack.last()))
    } else {
        None
    }
}

/// What a tick returns: the event, or a failure on an empty stack.
pub open spec fn report(def: Definition, machine: Machine, outcomes: Seq<bool>) -> Result<
    Option<(Frame, Frame)>,
    (),
> {
    if machine.stack.len() == 0 {
        Err(())
    } else {
        Ok(event(def, machine, outcomes))
    }
}

/// The mathematical value of what a tick returns.
pub open spec fn reported(result: Result<Option<(StateDetails, StateDetails)>, ()>) -> Result<
    Option<(Frame, Frame)>,
    (),
> {
    match result {
        Ok(Some((before, after))) => Ok(Some((before@, after@))),
        Ok(None) => Ok(None),
        Err(_) => Err(()),
    }
}

/// Whether `outcomes` explains a tick: the guards can come to them, and the
/// state after the tick and what it returned are those that follow from
/// them.
pub open spec fn explains(
    def: Definition,
    before: Machine,
    after: Machine,
    returned: Result<Option<(Frame, Frame)>, ()>,
    outcomes: Seq<bool>,
) -> bool {
    &&& admissible(def, before, outcomes)
    &&& after == tick(def, before, outcomes)
    &&& returned == report(def, before, outcomes)
}

/// Once a transition fires among the first `n`, it is the first that fires
/// among any more.
pub proof fn lemma_first_firing_grows(
    guards: Seq<ConditionView>,
    play_name: Seq<char>,
    outcomes: Seq<bool>,
    n: int,
    m: int,
)
    requires
        n <= m,
        first_firing_below(guards, play_name, outcomes, n) is Some,
    ensures
        first_firing_below(guards, play_name, outcomes, m) == first_firing_below(
            guards,
            play_name,
            outcomes,
            n,
        ),
    decreases m - n,
{
    if n < m {
        lemma_first_firing_grows(guards, play_name, outcomes, n, m - 1);
    }
}

/// The first transition that fires among the first `n` does fire, and none
/// before it does; where none is found, none of them fires.
pub proof fn lemma_first_firing_below(
    guards: Seq<ConditionView>,
    play_name: Seq<char>,
    outcomes: Seq<bool>,
    n: int,
)
    ensures
        match first_firing_below(guards, play_name, outcomes, n) {
            Some(i) => 0 <= i < n && fires(guards, play_name, outcomes, i) && forall|j: int|
                0 <= j < i ==> !fires(guards, play_name, outcomes, j),
            None => forall|j: int| 0 <= j < n ==> !fires(guards, play_name, outcomes, j),
        },
    decreases n,
{
    if n > 0 {
        lemma_first_firing_below(guards, play_name, outcomes, n - 1);
    }
}

/// Setting the last-frame predicate, where it is the only one, leaves it the
/// only one.
proof fn lemma_predicates_set(before: Map<Seq<char>, bool>, flag: bool)
    requires
        before == predicates(before[last_frame_name()]) || before == no_predicates(),
    ensures
        before.insert(last_frame_name(), flag) == predicates(flag),
        predicates(flag)[last_frame_name()] == flag,
{
    assert(before.insert(last_frame_name(), flag) =~= predicates(flag));
}

fn last_frame_key() -> (name: String)
    ensures
        name@ == last_frame_name(),
{
    "last_frame".to_owned()
}

fn extend(list: &mut Vec<Condition>, more: &Vec<Condition>)
    ensures
        final(list).deep_view() == old(list).deep_view() + more.deep_view(),
{
    let ghost before = list.deep_view();
    let mut i: usize = 0;
    while i < more.len()
        invariant
            i <= more@.len(),
            list.deep_view() == before + more.deep_view().take(i as int),
        decreases more@.len() - i,
    {
        list.push(Condition::new(more[i].target.clone(), more[i].expression.clone()));
        proof {
            assert(list.deep_view() == (before + more.deep_view().take(i as int)).push(
                more@[i as int]@,
            ));
            assert(more.deep_view().take(i + 1) == more.deep_view().take(i as int).push(
                more@[i as int]@,
            ));
        }
        i = i + 1;
    }
    proof {
        assert(more.deep_view().take(i as int) == more.deep_view());
    }
}

fn effective(data: &AnimationStateMachineData, top: &StateDetails) -> (guards: Vec<Condition>)
    ensures
        guards.deep_view() == effective_guards(data@, top@),
{
    let mut guards: Vec<Condition> = Vec::new();
    match data.substatus(&top.sub_name) {
        Some(substatus) => {
            let every = String::new();
            if let Some(list) = substatus.conditions(&every) {
                extend(&mut guards, list);
            }
            if let Some(list) = substatus.conditions(&top.play_name) {
                extend(&mut guards, list);
            }
        },
        None => {},
    }
    guards
}

/// Picks the transition that fires, given what the guards come to: the first
/// whose guard comes to true and whose target is not, letter for letter, the
/// play name. A guard without an outcome counts as false.
pub fn select(guards: &Vec<Condition>, play_name: &String, outcomes: &Vec<bool>) -> (found: Option<
    usize,
>)
    ensures
        match found {
            Some(i) => first_firing(guards.deep_view(), play_name@, outcomes@) == Some(i as int)
                && i < guards@.len(),
            None => first_firing(guards.deep_view(), play_name@, outcomes@) is None,
        },
{
    let mut i: usize = 0;
    while i < guards.len()
        invariant
            i <= guards@.len(),
            guards.deep_view().len() == guards@.len(),
            first_firing_below(guards.deep_view(), play_name@, outcomes@, i as int) is None,
        decreases guards@.len() - i,
    {
        proof {
            assert(guards.deep_view()[i as int] == guards@[i as int]@);
        }
        if i < outcomes.len() && outcomes[i] && !(guards[i].target == *play_name) {
            proof {
                lemma_first_firing_grows(
                    guards.deep_view(),
                    play_name@,
                    outcomes@,
                    i + 1,
                    guards@.len() as int,
                );
            }
            return Some(i);
        }
        i = i + 1;
    }
    None
}

/// Tries the guards in their order, up to the first transition that fires. A
/// guard that is not tried, because its transition is passed over for its
/// target or comes after the one that fires, is put down as false.
fn try_guards(
    context: &Context,
    guards: &Vec<Condition>,
    play_name: &String,
    Ghost(last_frame): Ghost<bool>,
) -> (outcomes: Vec<bool>)
    requires
        context.predicates() == predicates(last_frame),
    ensures
        admitted(guards.deep_view(), play_name@, context.variables(), last_frame, outcomes@),
{
    let mut outcomes: Vec<bool> = Vec::new();
    let mut found = false;
    let ghost mut at: int = 0;
    let mut i: usize = 0;
    while i < guards.len()
        invariant
            i <= guards@.len(),
            outcomes@.len() == i,
            guards.deep_view().len() == guards@.len(),
            context.predicates() == predicates(last_frame),
            found ==> 0 <= at < i && fires(guards.deep_view(), play_name@, outcomes@, at),
            !found ==> forall|j: int|
                0 <= j < i ==> !fires(guards.deep_view(), play_name@, outcomes@, j),
            forall|k: int|
                0 <= k < i && #[trigger] tried(guards.deep_view(), play_name@, outcomes@, k)
                    ==> admits(
                    guards.deep_view()[k].expression,
                    context.variables(),
                    predicates(last_frame),
                    outcomes@[k],
                ),
        decreases guards@.len() - i,
    {
        let ghost before = outcomes@;
        let truth = if found || guards[i].target == *play_name {
            false
        } else {
            context.holds(guards[i].expression.as_str())
        };
        outcomes.push(truth);
        proof {
            let view = guards.deep_view();
            assert(view[i as int] == guards@[i as int]@);
            assert forall|j: int| 0 <= j < i implies fires(view, play_name@, outcomes@, j)
                == fires(view, play_name@, before, j) by {}
            assert forall|k: int|
                0 <= k < i + 1 && #[trigger] tried(
                    view,
                    play_name@,
                    outcomes@,
                    k,
                ) implies admits(
                view[k].expression,
                context.variables(),
                predicates(last_frame),
                outcomes@[k],
            ) by {
                if k < i {
                    assert(tried(view, play_name@, before, k));
                }
            }
            if truth {
                assert(fires(view, play_name@, outcomes@, i as int));
                at = i as int;
            } else if !found {
                assert forall|j: int| 0 <= j < i + 1 implies !fires(
                    view,
                    play_name@,
                    outcomes@,
                    j,
                ) by {
                    if j < i {
                        assert(!fires(view, play_name@, before, j));
                    }
                }
            }
        }
        if truth {
            found = true;
        }
        i = i + 1;
    }
    outcomes
}

fn declare(context: &mut Context, args: &Vec<FieldType>)
    ensures
        final(context).predicates() == old(context).predicates(),
        old(context).variables() == no_variables() ==> final(context).variables() == declare_all(
            declarations(args@),
        ),
{
    let mut i: usize = 0;
    while i < args.len()
        invariant
            i <= args@.len(),
            context.predicates() == old(context).predicates(),
            old(context).variables() == no_variables() ==> context.variables() == declare_all(
                declarations(args@).take(i as int),
            ),
        decreases args@.len() - i,
    {
        proof {
            assert(declarations(args@).take(i + 1).drop_last() == declarations(args@).take(
                i as int,
            ));
        }
        context.set(args[i].name().clone(), args[i].initial());
        i = i + 1;
    }
    proof {
        assert(declarations(args@).take(i as int) == declarations(args@));
    }
}

fn reset(context: &mut Context, args: &Vec<FieldType>)
    ensures
        final(context).predicates() == old(context).predicates(),
        final(context).variables() == reset_triggers(
            old(context).variables(),
            declarations(args@),
        ),
{
    let mut i: usize = 0;
    while i < args.len()
        invariant
            i <= args@.len(),
            context.predicates() == old(context).predicates(),
            context.variables() == reset_triggers(
                old(context).variables(),
                declarations(args@).take(i as int),
            ),
        decreases args@.len() - i,
    {
        proof {
            assert(declarations(args@).take(i + 1).drop_last() == declarations(args@).take(
                i as int,
            ));
        }
        if args[i].is_trigger() {
            context.set(args[i].name().clone(), Value::Boolean(false));
        }
        i = i + 1;
    }
    proof {
        assert(declarations(args@).take(i as int) == declarations(args@));
    }
}

/// The interpreter of one state machine definition.
#[derive(Debug)]
pub struct AnimationStateMachine {
    current_state: Vec<StateDetails>,
    data: Rc<AnimationStateMachineData>,
    ctx: Context,
}

impl View for AnimationStateMachine {
    type V = Machine;

    closed spec fn view(&self) -> Machine {
        Machine {
            stack: frames(self.current_state@),
            variables: self.ctx.variables(),
            last_frame: self.ctx.predicates()[last_frame_name()],
        }
    }
}

impl AnimationStateMachine {
    /// Whether the interpreter is well formed: guards can call the
    /// last-frame predicate and no other.
    pub closed spec fn wf(&self) -> bool {
        self.ctx.predicates() == predicates(self.ctx.predicates()[last_frame_name()])
    }

    /// The definition that the interpreter runs.
    pub closed spec fn definition(&self) -> Definition {
        (*self.data)@
    }

    /// An interpreter in the initial state of a definition.
    pub fn new(data: Rc<AnimationStateMachineData>) -> (machine: Self)
        ensures
            machine.wf(),
            machine.definition() == (*data)@,
            machine@ == initial((*data)@),
    {
        let mut current_state: Vec<StateDetails> = Vec::new();
        match data.substatus(data.default_substate()) {
            Some(substatus) => {
                current_state.push(
                    StateDetails::new(
                        data.default_substate().clone(),
                        substatus.default_play().clone(),
                        0,
                    ),
                );
            },
            None => {},
        }
        let mut ctx = Context::new();
        declare(&mut ctx, data.args());
        ctx.set_predicate(last_frame_key(), false);
        proof {
            lemma_predicates_set(no_predicates(), false);
            assert(frames(current_state@) == initial_stack((*data)@));
        }
        AnimationStateMachine { current_state, data, ctx }
    }

    /// Advances by one tick. The guards of the current frame are tried in
    /// their order, up to the first whose transition fires. There are
    /// outcomes that the evaluator admits of the guards that are tried, and
    /// the state after the tick and the event are those that follow from
    /// them: see `run_with`.
    pub fn run(&mut self) -> (result: Result<Option<(StateDetails, StateDetails)>, ()>)
        requires
            old(self).wf(),
        ensures
            final(self).wf(),
            final(self).definition() == old(self).definition(),
            exists|outcomes: Seq<bool>| #[trigger]
                explains(
                    old(self).definition(),
                    old(self)@,
                    final(self)@,
                    reported(result),
                    outcomes,
                ),
    {
        let depth: usize = self.current_state.len();
        if depth == 0 {
            proof {
                assert(explains(
                    old(self).definition(),
                    old(self)@,
                    self@,
                    Err(()),
                    Seq::<bool>::empty(),
                ));
            }
            return Err(());
        }
        let state = self.current_state[depth - 1].copy();
        let guards = effective(&self.data, &state);
        let outcomes = try_guards(&self.ctx, &guards, &state.play_name, Ghost(self@.last_frame));
        let result = self.advance(state, &guards, &outcomes);
        proof {
            assert(explains(
                old(self).definition(),
                old(self)@,
                self@,
                reported(result),
                outcomes@,
            ));
        }
        result
    }

    /// Advances by one tick in which the guards of the current frame come to
    /// the given outcomes, one for each guard in their order: the first
    /// transition that fires is carried out, the triggers are then reset, and
    /// the last-frame flag is cleared. Fails on an empty stack, which is then
    /// left as it is.
    pub fn run_with(&mut self, outcomes: &Vec<bool>) -> (result: Result<
        Option<(StateDetails, StateDetails)>,
        (),
    >)
        ensures
            old(self).wf() ==> final(self).wf(),
            final(self).definition() == old(self).definition(),
            final(self)@ == tick(old(self).definition(), old(self)@, outcomes@),
            reported(result) == report(old(self).definition(), old(self)@, outcomes@),
    {
        let depth: usize = self.current_state.len();
        if depth == 0 {
            return Err(());
        }
        let state = self.current_state[depth - 1].copy();
        let guards = effective(&self.data, &state);
        self.advance(state, &guards, outcomes)
    }

    fn advance(&mut self, state: StateDetails, guards: &Vec<Condition>, outcomes: &Vec<bool>) -> (result:
        Result<Option<(StateDetails, StateDetails)>, ()>)
        requires
            old(self)@.stack.len() > 0,
            state@ == old(self)@.stack.last(),
            guards.deep_view() == effective_guards(old(self).definition(), state@),
        ensures
            old(self).wf() ==> final(self).wf(),
            final(self).definition() == old(self).definition(),
            final(self)@ == tick(old(self).definition(), old(self)@, outcomes@),
            reported(result) == report(old(self).definition(), old(self)@, outcomes@),
    {
        let found = select(guards, &state.play_name, outcomes);
        if let Some(i) = found {
            let command = parse_target(guards[i].target.as_str());
            apply_command(&mut self.current_state, &self.data, &command);
        }
        self.ctx.set_predicate(last_frame_key(), false);
        proof {
            if old(self).wf() {
                lemma_predicates_set(old(self).ctx.predicates(), false);
            }
            assert(!self.ctx.predicates()[last_frame_name()]);
        }
        if found.is_some() {
            reset(&mut self.ctx, self.data.args());
            let depth: usize = self.current_state.len();
            if depth > 0 {
                let changed = self.current_state[depth - 1].copy();
                return Ok(Some((state, changed)));
            }
        }
        Ok(None)
    }

    /// Marks that the current clip has shown its last frame. The mark lasts
    /// until the end of the next tick.
    pub fn set_last_frame(&mut self)
        ensures
            old(self).wf() ==> final(self).wf(),
            final(self).definition() == old(self).definition(),
            final(self)@.stack == old(self)@.stack,
            final(self)@.variables == old(self)@.variables,
            final(self)@.last_frame,
    {
        self.ctx.set_predicate(last_frame_key(), true);
        proof {
            if old(self).wf() {
                lemma_predicates_set(old(self).ctx.predicates(), true);
            }
            assert(self.ctx.predicates()[last_frame_name()]);
        }
    }

    /// The current frame: the top of the stack.
    pub fn state(&self) -> (top: Option<&StateDetails>)
        ensures
            match top {
                Some(frame) => self@.stack.len() > 0 && frame@ == self@.stack.last(),
                None => self@.stack.len() == 0,
            },
    {
        let depth: usize = self.current_state.len();
        if depth > 0 {
            Some(&self.current_state[depth - 1])
        } else {
            None
        }
    }

    fn set(&mut self, identifier: String, value: Value)
        ensures
            old(self).wf() ==> final(self).wf(),
            final(self).definition() == old(self).definition(),
            final(self)@.stack == old(self)@.stack,
            final(self)@.last_frame == old(self)@.last_frame,
            final(self)@.variables == assigned(old(self)@.variables, identifier@, value@),
    {
        self.ctx.set(identifier, value);
    }

    /// Assigns a double-precision number, given by its IEEE 754 bit pattern,
    /// to a variable. A variable of another kind keeps its value.
    pub fn set_flaot(&mut self, identifier: String, value: u64)
        ensures
            old(self).wf() ==> final(self).wf(),
            final(self).definition() == old(self).definition(),
            final(self)@.stack == old(self)@.stack,
            final(self)@.last_frame == old(self)@.last_frame,
            final(self)@.variables == assigned(
                old(self)@.variables,
                identifier@,
                ValueView::Float(value),
            ),
    {
        self.set(identifier, Value::Float(value));
    }

    /// Assigns an integer to a variable. A variable of another kind keeps its
    /// value.
    pub fn set_int(&mut self, identifier: String, value: i64)
        ensures
            old(self).wf() ==> final(self).wf(),
            final(self).definition() == old(self).definition(),
            final(self)@.stack == old(self)@.stack,
            final(self)@.last_frame == old(self)@.last_frame,
            final(self)@.variables == assigned(
                old(self)@.variables,
                identifier@,
                ValueView::Int(value),
            ),
    {
        self.set(identifier, Value::Int(value));
    }

    /// Assigns a boolean to a variable. A variable of another kind keeps its
    /// value.
    pub fn set_bool(&mut self, identifier: String, value: bool)
        ensures
            old(self).wf() ==> final(self).wf(),
            final(self).definition() == old(self).definition(),
            final(self)@.stack == old(self)@.stack,
            final(self)@.last_frame == old(self)@.last_frame,
            final(self)@.variables == assigned(
                old(self)@.variables,
                identifier@,
                ValueView::Boolean(value),
            ),
    {
        self.set(identifier, Value::Boolean(value));
    }

    /// Sets a trigger: assigns true to the variable. A variable that is no
    /// boolean keeps its value.
    pub fn set_trigger(&mut self, identifier: String)
        ensures
            old(self).wf() ==> final(self).wf(),
            final(self).definition() == old(self).definition(),
            final(self)@.stack == old(self)@.stack,
            final(self)@.last_frame == old(self)@.last_frame,
            final(self)@.variables == assigned(
                old(self)@.variables,
                identifier@,
                ValueView::Boolean(true),
            ),
    {
        self.set(identifier, Value::Boolean(true));
    }
}

} // verus!
