//! The five schema entities and their spec-level models.
//!
//! `Type`, `ActionEvent`, `Argument`, `Action` and `Component` are the typed
//! values the conversion rules build. The named children of an entity live
//! in insertion-ordered lists: `ArgList` (name to `Argument`) and
//! `ActionList` (name to `Action`). Both are concrete counterparts of
//! `crate::assoc::AssocList` — Verus does not let a ground variant of a
//! recursive datatype instantiate a default generic parameter with the
//! recursive type, so the recursion runs through these concrete lists.
//!
//! Each entity has a spec-level counterpart (`ArgumentV`, `ActionV`, ...)
//! over `Seq` values, and a view function into that model; contracts and
//! laws are stated over the models.

use vstd::prelude::*;
use crate::assoc::{ArgList, ActionList};

verus! {

broadcast use {crate::assoc::lemma_arg_list_decreases_to_view, crate::assoc::lemma_action_list_decreases_to_view};

/// The closed set of kinds an argument may hold. The textual forms
/// "byte", "int", "float", "symbol" and "component" map to the first five
/// tags one-to-one; the text "ptr" also maps to `ComponentType`, so
/// `PtrType` is never produced by conversion.
#[derive(Debug, Clone, Copy, PartialEq, Eq, Structural)]
pub enum Type {
    ByteType,
    IntType,
    FloatType,
    SymbolType,
    ComponentType,
    PtrType,
}

/// A lifecycle hook on an action: absent, an inline code fragment to run,
/// or the name of another action to invoke.
#[derive(Debug, PartialEq, Eq)]
pub enum ActionEvent {
    NoEvent,
    EventCodeOn(String),
    EventNameTo(String),
}

/// A typed slot, optionally carrying nested named actions of its own.
#[derive(Debug)]
pub struct Argument {
    pub ty: Type,
    pub actions: ActionList,
}

/// A unit of behaviour: typed input and output arguments, nested named
/// actions, and two lifecycle hooks. Every field is always populated;
/// absence in the source document only ever means empty or `NoEvent`.
#[derive(Debug)]
pub struct Action {
    pub args_in: ArgList,
    pub args_out: ArgList,
    pub actions: ActionList,
    pub begin: ActionEvent,
    pub end: ActionEvent,
}

/// The root entity: identity fields plus one `Action` parsed from the same
/// source node as the identity fields themselves.
#[derive(Debug)]
pub struct Component {
    pub name: String,
    pub backend: String,
    pub main: Action,
}

/// Spec-level shape of a lifecycle hook.
pub enum ActionEventV {
    NoEvent,
    EventCodeOn(Seq<char>),
    EventNameTo(Seq<char>),
}

/// Spec-level shape of an argument.
pub struct ArgumentV {
    pub ty: Type,
    pub actions: Seq<(Seq<char>, ActionV)>,
}

/// Spec-level shape of an action.
pub struct ActionV {
    pub args_in: Seq<(Seq<char>, ArgumentV)>,
    pub args_out: Seq<(Seq<char>, ArgumentV)>,
    pub actions: Seq<(Seq<char>, ActionV)>,
    pub begin: ActionEventV,
    pub end: ActionEventV,
}

/// Spec-level shape of a component.
pub struct ComponentV {
    pub name: Seq<char>,
    pub backend: Seq<char>,
    pub main: ActionV,
}

/// Model of a lifecycle hook.
pub open spec fn event_v(e: ActionEvent) -> ActionEventV {
    match e {
        ActionEvent::NoEvent => ActionEventV::NoEvent,
        ActionEvent::EventCodeOn(s) => ActionEventV::EventCodeOn(s@),
        ActionEvent::EventNameTo(s) => ActionEventV::EventNameTo(s@),
    }
}

/// Model of an argument.
pub open spec fn argument_v(a: Argument) -> ArgumentV
    decreases a,
{
    ArgumentV { ty: a.ty, actions: acts_entries_v(a.actions@) }
}

/// Model of an action.
pub open spec fn action_v(a: Action) -> ActionV
    decreases a,
{
    ActionV {
        args_in: args_entries_v(a.args_in@),
        args_out: args_entries_v(a.args_out@),
        actions: acts_entries_v(a.actions@),
        begin: event_v(a.begin),
        end: event_v(a.end),
    }
}

/// Model of the pairs of a name-to-argument list, in order.
pub open spec fn args_entries_v(s: Seq<(String, Argument)>) -> Seq<(Seq<char>, ArgumentV)>
    decreases s,
{
    if s.len() == 0 {
        Seq::empty()
    } else {
        seq![(s[0].0@, argument_v(s[0].1))] + args_entries_v(s.drop_first())
    }
}

/// Model of the pairs of a name-to-action list, in order.
pub open spec fn acts_entries_v(s: Seq<(String, Action)>) -> Seq<(Seq<char>, ActionV)>
    decreases s,
{
    if s.len() == 0 {
        Seq::empty()
    } else {
        seq![(s[0].0@, action_v(s[0].1))] + acts_entries_v(s.drop_first())
    }
}

/// Appending a pair to an argument list appends its model to the model of
/// the list.
pub proof fn lemma_args_entries_push(s: Seq<(String, Argument)>, k: String, a: Argument)
    ensures
        args_entries_v(s.push((k, a))) == args_entries_v(s).push((k@, argument_v(a))),
    decreases s.len(),
{
    let t = s.push((k, a));
    if s.len() == 0 {
        reveal_with_fuel(args_entries_v, 2);
        assert(t.drop_first() =~= Seq::<(String, Argument)>::empty());
        assert(args_entries_v(t) =~= args_entries_v(s).push((k@, argument_v(a))));
    } else {
        let h = (s[0].0@, argument_v(s[0].1));
        let x = (k@, argument_v(a));
        assert(t[0] == s[0]);
        assert(t.drop_first() =~= s.drop_first().push((k, a)));
        lemma_args_entries_push(s.drop_first(), k, a);
        assert(args_entries_v(t) == seq![h] + args_entries_v(t.drop_first()));
        assert(args_entries_v(t.drop_first()) == args_entries_v(s.drop_first()).push(x));
        assert(args_entries_v(s) == seq![h] + args_entries_v(s.drop_first()));
        assert(seq![h] + args_entries_v(s.drop_first()).push(x) =~= (seq![h] + args_entries_v(
            s.drop_first(),
        )).push(x));
    }
}

/// Appending a pair to an action list appends its model to the model of
/// the list.
pub proof fn lemma_acts_entries_push(s: Seq<(String, Action)>, k: String, a: Action)
    ensures
        acts_entries_v(s.push((k, a))) == acts_entries_v(s).push((k@, action_v(a))),
    decreases s.len(),
{
    let t = s.push((k, a));
    if s.len() == 0 {
        reveal_with_fuel(acts_entries_v, 2);
        assert(t.drop_first() =~= Seq::<(String, Action)>::empty());
        assert(acts_entries_v(t) =~= acts_entries_v(s).push((k@, action_v(a))));
    } else {
        let h = (s[0].0@, action_v(s[0].1));
        let x = (k@, action_v(a));
        assert(t[0] == s[0]);
        assert(t.drop_first() =~= s.drop_first().push((k, a)));
        lemma_acts_entries_push(s.drop_first(), k, a);
        assert(acts_entries_v(t) == seq![h] + acts_entries_v(t.drop_first()));
        assert(acts_entries_v(t.drop_first()) == acts_entries_v(s.drop_first()).push(x));
        assert(acts_entries_v(s) == seq![h] + acts_entries_v(s.drop_first()));
        assert(seq![h] + acts_entries_v(s.drop_first()).push(x) =~= (seq![h] + acts_entries_v(
            s.drop_first(),
        )).push(x));
    }
}

/// Model of a component.
pub open spec fn component_v(c: Component) -> ComponentV {
    ComponentV { name: c.name@, backend: c.backend@, main: action_v(c.main) }
}

impl View for Type {
    type V = Type;

    open spec fn view(&self) -> Type {
        *self
    }
}

impl View for ActionEvent {
    type V = ActionEventV;

    open spec fn view(&self) -> ActionEventV {
        event_v(*self)
    }
}

impl View for Argument {
    type V = ArgumentV;

    open spec fn view(&self) -> ArgumentV {
        argument_v(*self)
    }
}

impl View for Action {
    type V = ActionV;

    open spec fn view(&self) -> ActionV {
        action_v(*self)
    }
}

impl View for Component {
    type V = ComponentV;

    open spec fn view(&self) -> ComponentV {
        component_v(*self)
    }
}

} // verus!
