//! The conversion rules as a mathematical model.
//!
//! Every rule of the schema is written here as a spec function from an
//! untyped `NodeV` to a spec-level entity or error. The executable
//! converters in `crate::convert` are proved to return exactly what these
//! functions say. The scans over a mapping's pairs are left-to-right folds
//! with unconditional overwrite, so a key that repeats is resolved
//! last-write-wins, and the first failing pair aborts the whole conversion.

use vstd::prelude::*;
use crate::node::{NodeV, ConvErrV, str_v, pairs_v};
use crate::schema::{Type, ActionEventV, ArgumentV, ActionV, ComponentV};

verus! {

/// The closed type table: which texts name which `Type`. Both "component"
/// and "ptr" yield `ComponentType`; any other text is invalid.
pub open spec fn type_of_text(s: Seq<char>) -> Result<Type, ConvErrV> {
    if s == "byte"@ {
        Ok(Type::ByteType)
    } else if s == "int"@ {
        Ok(Type::IntType)
    } else if s == "float"@ {
        Ok(Type::FloatType)
    } else if s == "symbol"@ {
        Ok(Type::SymbolType)
    } else if s == "component"@ {
        Ok(Type::ComponentType)
    } else if s == "ptr"@ {
        Ok(Type::ComponentType)
    } else {
        Err(ConvErrV::UnknownType)
    }
}

/// Conversion of a node into a `Type`: scalar text looked up in the table.
pub open spec fn type_v_of(n: NodeV) -> Result<Type, ConvErrV> {
    match str_v(n) {
        Ok(s) => type_of_text(s),
        Err(e) => Err(e),
    }
}

/// An action with every field at its default: empty containers and no
/// lifecycle hooks.
pub open spec fn default_action_v() -> ActionV {
    ActionV {
        args_in: Seq::empty(),
        args_out: Seq::empty(),
        actions: Seq::empty(),
        begin: ActionEventV::NoEvent,
        end: ActionEventV::NoEvent,
    }
}

/// Conversion of a node into name-to-argument entries: the node must be a
/// mapping; every key becomes text and every value an argument, in document
/// order, duplicates appended and never merged.
pub open spec fn args_map_v(n: NodeV) -> Result<Seq<(Seq<char>, ArgumentV)>, ConvErrV>
    decreases n,
{
    match n {
        NodeV::Mapping(ps) => args_map_fold(ps, Seq::empty()),
        _ => Err(ConvErrV::ExpectedMapping),
    }
}

/// The fold behind `args_map_v`: converts pairs left to right, appending
/// to `acc`; the first failing pair aborts.
pub open spec fn args_map_fold(
    ps: Seq<(NodeV, NodeV)>,
    acc: Seq<(Seq<char>, ArgumentV)>,
) -> Result<Seq<(Seq<char>, ArgumentV)>, ConvErrV>
    decreases ps,
{
    if ps.len() == 0 {
        Ok(acc)
    } else {
        match str_v(ps[0].0) {
            Err(e) => Err(e),
            Ok(k) => match argument_v_of(ps[0].1) {
                Err(e) => Err(e),
                Ok(a) => args_map_fold(ps.drop_first(), acc.push((k, a))),
            },
        }
    }
}

/// Conversion of a node into name-to-action entries, as `args_map_v`.
pub open spec fn acts_map_v(n: NodeV) -> Result<Seq<(Seq<char>, ActionV)>, ConvErrV>
    decreases n,
{
    match n {
        NodeV::Mapping(ps) => acts_map_fold(ps, Seq::empty()),
        _ => Err(ConvErrV::ExpectedMapping),
    }
}

/// The fold behind `acts_map_v`.
pub open spec fn acts_map_fold(
    ps: Seq<(NodeV, NodeV)>,
    acc: Seq<(Seq<char>, ActionV)>,
) -> Result<Seq<(Seq<char>, ActionV)>, ConvErrV>
    decreases ps,
{
    if ps.len() == 0 {
        Ok(acc)
    } else {
        match str_v(ps[0].0) {
            Err(e) => Err(e),
            Ok(k) => match action_v_of(ps[0].1) {
                Err(e) => Err(e),
                Ok(a) => acts_map_fold(ps.drop_first(), acc.push((k, a))),
            },
        }
    }
}

/// Conversion of a node into an argument. A scalar is read as a type name,
/// with no nested actions. A mapping yields `ComponentType` always — any
/// type information it may carry is ignored — and only its "actions" key is
/// honoured. A sequence is no argument at all.
pub open spec fn argument_v_of(n: NodeV) -> Result<ArgumentV, ConvErrV>
    decreases n,
{
    match n {
        NodeV::Scalar(s) => match type_of_text(s) {
            Ok(t) => Ok(ArgumentV { ty: t, actions: Seq::empty() }),
            Err(e) => Err(e),
        },
        NodeV::Mapping(ps) => match argument_fold(ps, Seq::empty()) {
            Ok(acts) => Ok(ArgumentV { ty: Type::ComponentType, actions: acts }),
            Err(e) => Err(e),
        },
        NodeV::Sequence(_) => Err(ConvErrV::InvalidArgumentShape),
    }
}

/// The scan behind a mapping-shaped argument: only the "actions" key is
/// recognised, and the later of two such keys wins.
pub open spec fn argument_fold(
    ps: Seq<(NodeV, NodeV)>,
    acts: Seq<(Seq<char>, ActionV)>,
) -> Result<Seq<(Seq<char>, ActionV)>, ConvErrV>
    decreases ps,
{
    if ps.len() == 0 {
        Ok(acts)
    } else {
        match str_v(ps[0].0) {
            Err(e) => Err(e),
            Ok(k) => if k == "actions"@ {
                match acts_map_v(ps[0].1) {
                    Err(e) => Err(e),
                    Ok(m) => argument_fold(ps.drop_first(), m),
                }
            } else {
                argument_fold(ps.drop_first(), acts)
            },
        }
    }
}

/// Conversion of a node into an action: the node must be a mapping; its
/// pairs are scanned once by `action_fold` starting from the defaults.
pub open spec fn action_v_of(n: NodeV) -> Result<ActionV, ConvErrV>
    decreases n,
{
    match n {
        NodeV::Mapping(ps) => action_fold(ps, default_action_v()),
        _ => Err(ConvErrV::ExpectedMapping),
    }
}

/// The scan behind an action: a left-to-right fold over the pairs with
/// unconditional overwrite of the addressed field, so a later key wins over
/// an earlier one; unrecognised keys are ignored; the first failing pair
/// aborts even where the field would have been optional when absent.
pub open spec fn action_fold(ps: Seq<(NodeV, NodeV)>, st: ActionV) -> Result<ActionV, ConvErrV>
    decreases ps,
{
    if ps.len() == 0 {
        Ok(st)
    } else {
        match str_v(ps[0].0) {
            Err(e) => Err(e),
            Ok(k) => {
                let step: Result<ActionV, ConvErrV> = if k == "args_in"@ {
                    match args_map_v(ps[0].1) {
                        Ok(m) => Ok(ActionV { args_in: m, ..st }),
                        Err(e) => Err(e),
                    }
                } else if k == "args_out"@ {
                    match args_map_v(ps[0].1) {
                        Ok(m) => Ok(ActionV { args_out: m, ..st }),
                        Err(e) => Err(e),
                    }
                } else if k == "actions"@ {
                    match acts_map_v(ps[0].1) {
                        Ok(m) => Ok(ActionV { actions: m, ..st }),
                        Err(e) => Err(e),
                    }
                } else if k == "on_begin"@ {
                    match str_v(ps[0].1) {
                        Ok(s) => Ok(ActionV { begin: ActionEventV::EventCodeOn(s), ..st }),
                        Err(e) => Err(e),
                    }
                } else if k == "on_end"@ {
                    match str_v(ps[0].1) {
                        Ok(s) => Ok(ActionV { end: ActionEventV::EventCodeOn(s), ..st }),
                        Err(e) => Err(e),
                    }
                } else if k == "to_begin"@ {
                    match str_v(ps[0].1) {
                        Ok(s) => Ok(ActionV { begin: ActionEventV::EventNameTo(s), ..st }),
                        Err(e) => Err(e),
                    }
                } else if k == "to_end"@ {
                    match str_v(ps[0].1) {
                        Ok(s) => Ok(ActionV { end: ActionEventV::EventNameTo(s), ..st }),
                        Err(e) => Err(e),
                    }
                } else {
                    Ok(st)
                };
                match step {
                    Err(e) => Err(e),
                    Ok(st2) => action_fold(ps.drop_first(), st2),
                }
            },
        }
    }
}

/// The scan behind a component's identity fields: only "component" and
/// "backend" are recognised; each starts as a missing-field error and is
/// overwritten by the conversion of every matching pair's value, so the
/// later of two matching keys wins. Only a failing key aborts the scan; a
/// failing value is carried in its slot.
pub open spec fn component_fold(
    ps: Seq<(NodeV, NodeV)>,
    name: Result<Seq<char>, ConvErrV>,
    backend: Result<Seq<char>, ConvErrV>,
) -> Result<(Result<Seq<char>, ConvErrV>, Result<Seq<char>, ConvErrV>), ConvErrV>
    decreases ps,
{
    if ps.len() == 0 {
        Ok((name, backend))
    } else {
        match str_v(ps[0].0) {
            Err(e) => Err(e),
            Ok(k) => if k == "component"@ {
                component_fold(ps.drop_first(), str_v(ps[0].1), backend)
            } else if k == "backend"@ {
                component_fold(ps.drop_first(), name, str_v(ps[0].1))
            } else {
                component_fold(ps.drop_first(), name, backend)
            },
        }
    }
}

/// Conversion of a node into a component: the identity scan first, then
/// the name slot is resolved, then the backend slot, and finally the same
/// node — not a sub-node — is converted once more through the action rule
/// to populate `main`. The action rule ignores "component" and "backend"
/// since they are not in its dispatch table, so the two passes are two
/// independent views of one shared field set.
pub open spec fn component_v_of(n: NodeV) -> Result<ComponentV, ConvErrV> {
    match pairs_v(n) {
        Err(e) => Err(e),
        Ok(ps) => match component_fold(
            ps,
            Err(ConvErrV::MissingRequiredField("component"@)),
            Err(ConvErrV::MissingRequiredField("backend"@)),
        ) {
            Err(e) => Err(e),
            Ok(nb) => match nb.0 {
                Err(e) => Err(e),
                Ok(nm) => match nb.1 {
                    Err(e) => Err(e),
                    Ok(bk) => match action_v_of(n) {
                        Err(e) => Err(e),
                        Ok(main) => Ok(ComponentV { name: nm, backend: bk, main }),
                    },
                },
            },
        },
    }
}

} // verus!
