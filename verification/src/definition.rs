//! The state machine definition: the declared variables, the default
//! substate, and for every substate its default play name and its guarded
//! transitions.

use crate::context::{Value, ValueView};
use crate::table::{insert, lookup, same_table, table, Entry, Same};
use vstd::prelude::*;

verus! {

/// The declaration of a variable with its first value.
#[derive(Debug, Clone, PartialEq)]
#[allow(inconsistent_fields)]
pub enum FieldType {
    IntArg { name: String, value: i64 },
    /// The value is the IEEE 754 bit pattern of a double-precision number.
    FloatArg { name: String, value: u64 },
    BooleanArg { name: String, value: bool },
    EnumArg { name: String, value: String, optional: Vec<String> },
    /// A boolean that is set back to false whenever a transition fires.
    TriggerArg { name: String, value: bool },
}

/// The mathematical value of a [`FieldType`]: the name, the first value,
/// whether the variable is a trigger, and the values that an enumeration
/// allows (empty for the other kinds).
pub struct Declaration {
    pub name: Seq<char>,
    pub initial: ValueView,
    pub trigger: bool,
    pub allowed: Seq<Seq<char>>,
}

impl View for FieldType {
    type V = Declaration;

    open spec fn view(&self) -> Declaration {
        match self {
            FieldType::IntArg { name, value } => Declaration {
                name: name@,
                initial: ValueView::Int(*value),
                trigger: false,
                allowed: Seq::empty(),
            },
            FieldType::FloatArg { name, value } => Declaration {
                name: name@,
                initial: ValueView::Float(*value),
                trigger: false,
                allowed: Seq::empty(),
            },
            FieldType::BooleanArg { name, value } => Declaration {
                name: name@,
                initial: ValueView::Boolean(*value),
                trigger: false,
                allowed: Seq::empty(),
            },
            FieldType::EnumArg { name, value, optional } => Declaration {
                name: name@,
                initial: ValueView::Text(value@),
                trigger: false,
                allowed: optional.deep_view(),
            },
            FieldType::TriggerArg { name, value } => Declaration {
                name: name@,
                initial: ValueView::Boolean(*value),
                trigger: true,
                allowed: Seq::empty(),
            },
        }
    }
}

impl FieldType {
    /// The name of the declared variable.
    pub fn name(&self) -> (name: &String)
        ensures
            name@ == self@.name,
    {
        match self {
            FieldType::IntArg { name, .. } => name,
            FieldType::FloatArg { name, .. } => name,
            FieldType::BooleanArg { name, .. } => name,
            FieldType::EnumArg { name, .. } => name,
            FieldType::TriggerArg { name, .. } => name,
        }
    }

    /// The first value of the declared variable.
    pub fn initial(&self) -> (value: Value)
        ensures
            value@ == self@.initial,
    {
        match self {
            FieldType::IntArg { value, .. } => Value::Int(*value),
            FieldType::FloatArg { value, .. } => Value::Float(*value),
            FieldType::BooleanArg { value, .. } => Value::Boolean(*value),
            FieldType::EnumArg { value, .. } => Value::Text(value.clone()),
            FieldType::TriggerArg { value, .. } => Value::Boolean(*value),
        }
    }

    /// Whether the declared variable is a trigger.
    pub fn is_trigger(&self) -> (trigger: bool)
        ensures
            trigger == self@.trigger,
    {
        match self {
            FieldType::TriggerArg { .. } => true,
            _ => false,
        }
    }
}

/// The views of a list of declarations.
pub open spec fn declarations(args: Seq<FieldType>) -> Seq<Declaration> {
    Seq::new(args.len(), |i: int| args[i]@)
}

fn same_texts(one: &Vec<String>, other: &Vec<String>) -> (same: bool)
    ensures
        same == (one.deep_view() == other.deep_view()),
{
    if one.len() != other.len() {
        assert(one.deep_view().len() != other.deep_view().len());
        return false;
    }
    let mut i: usize = 0;
    while i < one.len()
        invariant
            i <= one@.len(),
            one@.len() == other@.len(),
            forall|j: int| 0 <= j < i ==> one@[j]@ == other@[j]@,
        decreases one@.len() - i,
    {
        if !(one[i] == other[i]) {
            assert(one.deep_view()[i as int] != other.deep_view()[i as int]);
            return false;
        }
        i = i + 1;
    }
    assert(one.deep_view() =~= other.deep_view());
    true
}

/// Tells whether two declarations declare the same.
pub fn same_declaration(one: &FieldType, other: &FieldType) -> (same: bool)
    ensures
        same == (one@ == other@),
{
    match (one, other) {
        (
            FieldType::IntArg { name, value },
            FieldType::IntArg { name: other_name, value: other_value },
        ) => *name == *other_name && *value == *other_value,
        (
            FieldType::FloatArg { name, value },
            FieldType::FloatArg { name: other_name, value: other_value },
        ) => *name == *other_name && *value == *other_value,
        (
            FieldType::BooleanArg { name, value },
            FieldType::BooleanArg { name: other_name, value: other_value },
        ) => *name == *other_name && *value == *other_value,
        (
            FieldType::EnumArg { name, value, optional },
            FieldType::EnumArg { name: other_name, value: other_value, optional: other_optional },
        ) => *name == *other_name && *value == *other_value && same_texts(optional, other_optional),
        (
            FieldType::TriggerArg { name, value },
            FieldType::TriggerArg { name: other_name, value: other_value },
        ) => *name == *other_name && *value == *other_value,
        _ => false,
    }
}

fn same_declarations(one: &Vec<FieldType>, other: &Vec<FieldType>) -> (same: bool)
    ensures
        same == (declarations(one@) == declarations(other@)),
{
    if one.len() != other.len() {
        assert(declarations(one@).len() != declarations(other@).len());
        return false;
    }
    let mut i: usize = 0;
    while i < one.len()
        invariant
            i <= one@.len(),
            one@.len() == other@.len(),
            forall|j: int| 0 <= j < i ==> one@[j]@ == other@[j]@,
        decreases one@.len() - i,
    {
        if !same_declaration(&one[i], &other[i]) {
            assert(declarations(one@)[i as int] != declarations(other@)[i as int]);
            return false;
        }
        i = i + 1;
    }
    assert(declarations(one@) =~= declarations(other@));
    true
}

/// A guarded transition: where to go, and the guard that lets it fire.
#[derive(Debug, Clone, PartialEq)]
pub struct Condition {
    pub target: String,
    pub expression: String,
}

/// The mathematical value of a [`Condition`].
pub struct ConditionView {
    pub target: Seq<char>,
    pub expression: Seq<char>,
}

impl View for Condition {
    type V = ConditionView;

    open spec fn view(&self) -> ConditionView {
        ConditionView { target: self.target@, expression: self.expression@ }
    }
}

impl DeepView for Condition {
    type V = ConditionView;

    open spec fn deep_view(&self) -> ConditionView {
        self@
    }
}

impl Condition {
    /// A transition to `target` under the guard `expression`.
    pub fn new(target: String, expression: String) -> (condition: Self)
        ensures
            condition.target == target,
            condition.expression == expression,
    {
        Condition { target, expression }
    }
}

impl Same for Vec<Condition> {
    fn same(&self, other: &Self) -> (same: bool) {
        if self.len() != other.len() {
            assert(self.deep_view().len() != other.deep_view().len());
            return false;
        }
        let mut i: usize = 0;
        while i < self.len()
            invariant
                i <= self@.len(),
                self@.len() == other@.len(),
                forall|j: int| 0 <= j < i ==> self@[j]@ == other@[j]@,
            decreases self@.len() - i,
        {
            if !(self[i].target == other[i].target && self[i].expression == other[i].expression) {
                assert(self.deep_view()[i as int] != other.deep_view()[i as int]);
                return false;
            }
            i = i + 1;
        }
        assert(self.deep_view() =~= other.deep_view());
        true
    }
}

/// A substate: its default play name, and per play name the ordered list of
/// its guarded transitions. The list under the empty play name holds for
/// every play name.
#[derive(Debug, Clone)]
pub struct Substatus {
    default: String,
    content: Vec<Entry<Vec<Condition>>>,
}

/// The mathematical value of a [`Substatus`].
pub struct SubstatusView {
    pub default: Seq<char>,
    pub content: Map<Seq<char>, Seq<ConditionView>>,
}

impl View for Substatus {
    type V = SubstatusView;

    closed spec fn view(&self) -> SubstatusView {
        SubstatusView { default: self.default@, content: table(self.content@) }
    }
}

impl DeepView for Substatus {
    type V = SubstatusView;

    open spec fn deep_view(&self) -> SubstatusView {
        self@
    }
}

impl Same for Substatus {
    fn same(&self, other: &Self) -> (same: bool) {
        self.default == other.default && same_table(&self.content, &other.content)
    }
}

impl PartialEq for Substatus {
    /// Two substates are equal where they have the same default play name
    /// and list the same transitions under the same play names.
    fn eq(&self, other: &Self) -> (equal: bool) {
        self.same(other)
    }
}

impl vstd::std_specs::cmp::PartialEqSpecImpl for Substatus {
    open spec fn obeys_eq_spec() -> bool {
        true
    }

    open spec fn eq_spec(&self, other: &Self) -> bool {
        self@ == other@
    }
}

impl Default for Substatus {
    /// A substate without transitions whose default play name is empty.
    fn default() -> (substatus: Self)
        ensures
            substatus@.default == Seq::<char>::empty(),
            substatus@.content == Map::<Seq<char>, Seq<ConditionView>>::empty(),
    {
        Substatus::new(String::new())
    }
}

impl Substatus {
    /// A substate without transitions.
    pub fn new(default: String) -> (substatus: Self)
        ensures
            substatus@.default == default@,
            substatus@.content == Map::<Seq<char>, Seq<ConditionView>>::empty(),
    {
        Substatus { default, content: Vec::new() }
    }

    /// Puts a list of transitions under a play name, in place of the list
    /// that stood there.
    pub fn insert(&mut self, play_name: String, conditions: Vec<Condition>)
        ensures
            final(self)@.default == old(self)@.default,
            final(self)@.content == old(self)@.content.insert(play_name@, conditions.deep_view()),
    {
        insert(&mut self.content, play_name, conditions);
    }

    /// The default play name.
    pub fn default_play(&self) -> (name: &String)
        ensures
            name@ == self@.default,
    {
        &self.default
    }

    /// The transitions under a play name.
    pub fn conditions(&self, play_name: &String) -> (found: Option<&Vec<Condition>>)
        ensures
            match found {
                Some(list) => self@.content.contains_key(play_name@) && self@.content[play_name@]
                    == list.deep_view(),
                None => !self@.content.contains_key(play_name@),
            },
    {
        lookup(&self.content, play_name)
    }
}

/// A state machine definition.
#[derive(Debug, Clone)]
pub struct AnimationStateMachineData {
    name: String,
    args: Vec<FieldType>,
    default: String,
    substatus: Vec<Entry<Substatus>>,
}

/// The mathematical value of an [`AnimationStateMachineData`].
pub struct Definition {
    pub name: Seq<char>,
    pub args: Seq<Declaration>,
    pub default: Seq<char>,
    pub substatus: Map<Seq<char>, SubstatusView>,
}

impl View for AnimationStateMachineData {
    type V = Definition;

    closed spec fn view(&self) -> Definition {
        Definition {
            name: self.name@,
            args: declarations(self.args@),
            default: self.default@,
            substatus: table(self.substatus@),
        }
    }
}

impl PartialEq for AnimationStateMachineData {
    /// Two definitions are equal where they have the same names, declare the
    /// same variables in the same order and hold equal substates under the
    /// same names.
    fn eq(&self, other: &Self) -> (equal: bool) {
        self.name == other.name && self.default == other.default && same_declarations(
            &self.args,
            &other.args,
        ) && same_table(&self.substatus, &other.substatus)
    }
}

impl vstd::std_specs::cmp::PartialEqSpecImpl for AnimationStateMachineData {
    open spec fn obeys_eq_spec() -> bool {
        true
    }

    open spec fn eq_spec(&self, other: &Self) -> bool {
        self@ == other@
    }
}

impl Default for AnimationStateMachineData {
    /// A definition that holds nothing, under empty names.
    fn default() -> (data: Self)
        ensures
            data@.name == Seq::<char>::empty(),
            data@.default == Seq::<char>::empty(),
            data@.args == Seq::<Declaration>::empty(),
            data@.substatus == Map::<Seq<char>, SubstatusView>::empty(),
    {
        AnimationStateMachineData::new(String::new(), String::new())
    }
}

impl AnimationStateMachineData {
    /// A definition without variables and without substates.
    pub fn new(name: String, default: String) -> (data: Self)
        ensures
            data@.name == name@,
            data@.default == default@,
            data@.args == Seq::<Declaration>::empty(),
            data@.substatus == Map::<Seq<char>, SubstatusView>::empty(),
    {
        AnimationStateMachineData { name, args: Vec::new(), default, substatus: Vec::new() }
    }

    /// Declares a variable, after those declared so far.
    pub fn declare(&mut self, arg: FieldType)
        ensures
            final(self)@.args == old(self)@.args.push(arg@),
            final(self)@.name == old(self)@.name,
            final(self)@.default == old(self)@.default,
            final(self)@.substatus == old(self)@.substatus,
    {
        self.args.push(arg);
    }

    /// Puts a substate under a name, in place of the one that stood there.
    pub fn insert(&mut self, name: String, substatus: Substatus)
        ensures
            final(self)@.substatus == old(self)@.substatus.insert(name@, substatus@),
            final(self)@.name == old(self)@.name,
            final(self)@.default == old(self)@.default,
            final(self)@.args == old(self)@.args,
    {
        insert(&mut self.substatus, name, substatus);
    }

    /// The name of the definition.
    pub fn name(&self) -> (name: &String)
        ensures
            name@ == self@.name,
    {
        &self.name
    }

    /// The name of the substate that an interpreter starts in.
    pub fn default_substate(&self) -> (name: &String)
        ensures
            name@ == self@.default,
    {
        &self.default
    }

    /// The declared variables, in the order of their declaration.
    pub fn args(&self) -> (args: &Vec<FieldType>)
        ensures
            declarations(args@) == self@.args,
    {
        &self.args
    }

    /// Every trigger of a definition is declared with a boolean.
    pub proof fn law_triggers_declared_boolean(&self)
        ensures
            forall|i: int|
                0 <= i < self@.args.len() && (#[trigger] self@.args[i]).trigger
                    ==> self@.args[i].initial is Boolean,
    {
    }

    /// The substate of a name.
    pub fn substatus(&self, name: &String) -> (found: Option<&Substatus>)
        ensures
            match found {
                Some(substatus) => self@.substatus.contains_key(name@) && self@.substatus[name@]
                    == substatus@,
                None => !self@.substatus.contains_key(name@),
            },
    {
        lookup(&self.substatus, name)
    }
}

} // verus!
