//! General properties of the conversion rules, stated and proved once for
//! every document.
//!
//! The scans of `crate::model` are folds; the lemmas here resolve each fold
//! into a direct description — which pair decides a field, which error wins
//! — and the named laws follow from those descriptions.

use vstd::prelude::*;
use crate::node::{NodeV, ConvErrV, str_v, pairs_v};
use crate::schema::{Type, ActionEventV, ArgumentV, ActionV, ComponentV};
use crate::model::{argument_v_of, action_v_of, component_v_of, args_map_v,
    acts_map_v, args_map_fold, acts_map_fold, argument_fold, action_fold, component_fold,
    default_action_v};

verus! {

/// The error of the first pair whose key is not scalar text, if any.
pub open spec fn first_key_err(ps: Seq<(NodeV, NodeV)>) -> Option<ConvErrV>
    decreases ps,
{
    if ps.len() == 0 {
        None
    } else {
        match str_v(ps[0].0) {
            Err(e) => Some(e),
            Ok(_) => first_key_err(ps.drop_first()),
        }
    }
}

/// The value of the last pair whose key is exactly the scalar `k`, if any.
pub open spec fn last_value_for(ps: Seq<(NodeV, NodeV)>, k: Seq<char>) -> Option<NodeV>
    decreases ps,
{
    if ps.len() == 0 {
        None
    } else {
        let rest = last_value_for(ps.drop_first(), k);
        if rest is Some {
            rest
        } else if ps[0].0 == NodeV::Scalar(k) {
            Some(ps[0].1)
        } else {
            None
        }
    }
}

/// The identity scan resolved: it fails with the first bad key, and
/// otherwise each slot holds the text conversion of the last matching
/// pair's value, or its starting value where no pair ever matched.
pub proof fn lemma_component_fold_resolves(
    ps: Seq<(NodeV, NodeV)>,
    nm: Result<Seq<char>, ConvErrV>,
    bk: Result<Seq<char>, ConvErrV>,
)
    ensures
        match first_key_err(ps) {
            Some(e) => component_fold(ps, nm, bk) == Err::<
                (Result<Seq<char>, ConvErrV>, Result<Seq<char>, ConvErrV>),
                ConvErrV,
            >(e),
            None => component_fold(ps, nm, bk) == Ok::<
                (Result<Seq<char>, ConvErrV>, Result<Seq<char>, ConvErrV>),
                ConvErrV,
            >(
                (
                    match last_value_for(ps, "component"@) {
                        Some(v) => str_v(v),
                        None => nm,
                    },
                    match last_value_for(ps, "backend"@) {
                        Some(v) => str_v(v),
                        None => bk,
                    },
                ),
            ),
        },
    decreases ps,
{
    reveal_strlit("component");
    reveal_strlit("backend");
    assert("component"@.len() == 9);
    assert("backend"@.len() == 7);
    if ps.len() > 0 {
        match str_v(ps[0].0) {
            Err(_) => {},
            Ok(k) => {
                let nm2 = if k == "component"@ {
                    str_v(ps[0].1)
                } else {
                    nm
                };
                let bk2 = if k == "backend"@ {
                    str_v(ps[0].1)
                } else {
                    bk
                };
                lemma_component_fold_resolves(ps.drop_first(), nm2, bk2);
                assert(str_v(ps[0].0) == Ok::<Seq<char>, ConvErrV>(k));
                assert("component"@ != "backend"@);
                if k == "component"@ {
                    assert(component_fold(ps, nm, bk) == component_fold(
                        ps.drop_first(),
                        str_v(ps[0].1),
                        bk,
                    ));
                } else if k == "backend"@ {
                    assert(component_fold(ps, nm, bk) == component_fold(
                        ps.drop_first(),
                        nm,
                        str_v(ps[0].1),
                    ));
                } else {
                    assert(component_fold(ps, nm, bk) == component_fold(ps.drop_first(), nm, bk));
                }
                assert(component_fold(ps, nm, bk) == component_fold(ps.drop_first(), nm2, bk2));
                assert(first_key_err(ps) == first_key_err(ps.drop_first()));
                assert(last_value_for(ps, "component"@) == (
                    if last_value_for(ps.drop_first(), "component"@) is Some {
                        last_value_for(ps.drop_first(), "component"@)
                    } else if ps[0].0 == NodeV::Scalar("component"@) {
                        Some(ps[0].1)
                    } else {
                        None
                    }
                ));
                assert(last_value_for(ps, "backend"@) == (
                    if last_value_for(ps.drop_first(), "backend"@) is Some {
                        last_value_for(ps.drop_first(), "backend"@)
                    } else if ps[0].0 == NodeV::Scalar("backend"@) {
                        Some(ps[0].1)
                    } else {
                        None
                    }
                ));
            },
        }
    }
}

/// Every well-formed document that carries both identity keys converts,
/// and the component's name and backend are the verbatim texts of the
/// last-written values of "component" and "backend".
pub proof fn lemma_component_success(
    n: NodeV,
    ps: Seq<(NodeV, NodeV)>,
    nm: Seq<char>,
    bk: Seq<char>,
    main: ActionV,
)
    requires
        pairs_v(n) == Ok::<Seq<(NodeV, NodeV)>, ConvErrV>(ps),
        first_key_err(ps) is None,
        match last_value_for(ps, "component"@) {
            Some(v) => str_v(v) == Ok::<Seq<char>, ConvErrV>(nm),
            None => false,
        },
        match last_value_for(ps, "backend"@) {
            Some(v) => str_v(v) == Ok::<Seq<char>, ConvErrV>(bk),
            None => false,
        },
        action_v_of(n) == Ok::<ActionV, ConvErrV>(main),
    ensures
        component_v_of(n) == Ok::<ComponentV, ConvErrV>(
            ComponentV { name: nm, backend: bk, main: main },
        ),
{
    lemma_component_fold_resolves(
        ps,
        Err(ConvErrV::MissingRequiredField("component"@)),
        Err(ConvErrV::MissingRequiredField("backend"@)),
    );
}

/// A document that never writes "component", or never writes "backend",
/// fails to convert, whatever else it holds; and where every key is
/// well-formed the error is exactly the missing-field error of the first
/// absent slot.
pub proof fn lemma_component_missing_field_fails(n: NodeV, ps: Seq<(NodeV, NodeV)>)
    requires
        pairs_v(n) == Ok::<Seq<(NodeV, NodeV)>, ConvErrV>(ps),
        last_value_for(ps, "component"@) is None || last_value_for(ps, "backend"@) is None,
    ensures
        component_v_of(n) is Err,
        first_key_err(ps) is None && last_value_for(ps, "component"@) is None
            ==> component_v_of(n) == Err::<ComponentV, ConvErrV>(
            ConvErrV::MissingRequiredField("component"@),
        ),
        first_key_err(ps) is None && last_value_for(ps, "component"@) is Some && last_value_for(
            ps,
            "backend"@,
        ) is None && (match last_value_for(ps, "component"@) {
            Some(v) => str_v(v) is Ok,
            None => true,
        }) ==> component_v_of(n) == Err::<ComponentV, ConvErrV>(
            ConvErrV::MissingRequiredField("backend"@),
        ),
{
    lemma_component_fold_resolves(
        ps,
        Err(ConvErrV::MissingRequiredField("component"@)),
        Err(ConvErrV::MissingRequiredField("backend"@)),
    );
}

/// The error of the first pair a mapping-shaped argument scan trips on: a
/// key that is not text, or an "actions" value that does not convert.
pub open spec fn first_arg_err(ps: Seq<(NodeV, NodeV)>) -> Option<ConvErrV>
    decreases ps,
{
    if ps.len() == 0 {
        None
    } else {
        match str_v(ps[0].0) {
            Err(e) => Some(e),
            Ok(k) => if k == "actions"@ {
                match acts_map_v(ps[0].1) {
                    Err(e) => Some(e),
                    Ok(_) => first_arg_err(ps.drop_first()),
                }
            } else {
                first_arg_err(ps.drop_first())
            },
        }
    }
}

/// The argument scan resolved: it fails with its first error, and
/// otherwise yields the conversion of the last "actions" value, or the
/// starting entries where no pair was so keyed.
pub proof fn lemma_argument_fold_resolves(ps: Seq<(NodeV, NodeV)>, acc: Seq<(Seq<char>, ActionV)>)
    ensures
        match first_arg_err(ps) {
            Some(e) => argument_fold(ps, acc) == Err::<Seq<(Seq<char>, ActionV)>, ConvErrV>(e),
            None => argument_fold(ps, acc) == (match last_value_for(ps, "actions"@) {
                Some(v) => acts_map_v(v),
                None => Ok::<Seq<(Seq<char>, ActionV)>, ConvErrV>(acc),
            }),
        },
    decreases ps,
{
    if ps.len() > 0 {
        match str_v(ps[0].0) {
            Err(_) => {},
            Ok(k) => {
                if k == "actions"@ {
                    match acts_map_v(ps[0].1) {
                        Err(_) => {},
                        Ok(m) => {
                            lemma_argument_fold_resolves(ps.drop_first(), m);
                        },
                    }
                } else {
                    lemma_argument_fold_resolves(ps.drop_first(), acc);
                }
            },
        }
    }
}

/// The scalar type table, row by row: each recognised text yields an
/// argument of the matching type with no nested actions, and "component"
/// and "ptr" both yield `ComponentType`.
pub proof fn lemma_scalar_type_table()
    ensures
        argument_v_of(NodeV::Scalar("byte"@)) == Ok::<ArgumentV, ConvErrV>(
            ArgumentV { ty: Type::ByteType, actions: Seq::empty() },
        ),
        argument_v_of(NodeV::Scalar("int"@)) == Ok::<ArgumentV, ConvErrV>(
            ArgumentV { ty: Type::IntType, actions: Seq::empty() },
        ),
        argument_v_of(NodeV::Scalar("float"@)) == Ok::<ArgumentV, ConvErrV>(
            ArgumentV { ty: Type::FloatType, actions: Seq::empty() },
        ),
        argument_v_of(NodeV::Scalar("symbol"@)) == Ok::<ArgumentV, ConvErrV>(
            ArgumentV { ty: Type::SymbolType, actions: Seq::empty() },
        ),
        argument_v_of(NodeV::Scalar("component"@)) == Ok::<ArgumentV, ConvErrV>(
            ArgumentV { ty: Type::ComponentType, actions: Seq::empty() },
        ),
        argument_v_of(NodeV::Scalar("ptr"@)) == Ok::<ArgumentV, ConvErrV>(
            ArgumentV { ty: Type::ComponentType, actions: Seq::empty() },
        ),
{
    reveal_strlit("byte");
    reveal_strlit("int");
    reveal_strlit("float");
    reveal_strlit("symbol");
    reveal_strlit("component");
    reveal_strlit("ptr");
    assert("byte"@.len() == 4);
    assert("int"@.len() == 3);
    assert("float"@.len() == 5);
    assert("symbol"@.len() == 6);
    assert("component"@.len() == 9);
    assert("ptr"@.len() == 3);
    assert("int"@[0] == 'i');
    assert("ptr"@[0] == 'p');
}

/// A mapping-shaped argument resolved: whatever other keys it carries,
/// success always yields `ComponentType`, with the conversion of the last
/// "actions" value for its nested actions, or none where no pair was so
/// keyed; and any scan error is the argument's error.
pub proof fn lemma_argument_mapping(ps: Seq<(NodeV, NodeV)>)
    ensures
        match (first_arg_err(ps), last_value_for(ps, "actions"@)) {
            (Some(e), _) => argument_v_of(NodeV::Mapping(ps)) == Err::<ArgumentV, ConvErrV>(e),
            (None, Some(v)) => acts_map_v(v) is Ok && argument_v_of(NodeV::Mapping(ps)) == (
                match acts_map_v(v) {
                    Ok(m) => Ok::<ArgumentV, ConvErrV>(
                        ArgumentV { ty: Type::ComponentType, actions: m },
                    ),
                    Err(e) => Err::<ArgumentV, ConvErrV>(e),
                }
            ),
            (None, None) => argument_v_of(NodeV::Mapping(ps)) == Ok::<ArgumentV, ConvErrV>(
                ArgumentV { ty: Type::ComponentType, actions: Seq::empty() },
            ),
        },
{
    lemma_argument_fold_resolves(ps, Seq::empty());
    if first_arg_err(ps) is None {
        lemma_no_error_actions_ok(ps);
    }
}

/// Where the argument scan meets no error, every "actions" value — in
/// particular the last — converts.
proof fn lemma_no_error_actions_ok(ps: Seq<(NodeV, NodeV)>)
    requires
        first_arg_err(ps) is None,
    ensures
        match last_value_for(ps, "actions"@) {
            Some(v) => acts_map_v(v) is Ok,
            None => true,
        },
    decreases ps,
{
    if ps.len() > 0 {
        match str_v(ps[0].0) {
            Err(_) => {},
            Ok(k) => {
                lemma_no_error_actions_ok(ps.drop_first());
            },
        }
    }
}

/// The error of the first pair an action scan trips on: a key that is not
/// text, or a recognised key whose value does not convert.
pub open spec fn first_action_err(ps: Seq<(NodeV, NodeV)>) -> Option<ConvErrV>
    decreases ps,
{
    if ps.len() == 0 {
        None
    } else {
        match str_v(ps[0].0) {
            Err(e) => Some(e),
            Ok(k) => {
                let fe: Option<ConvErrV> = if k == "args_in"@ || k == "args_out"@ {
                    match args_map_v(ps[0].1) {
                        Err(e) => Some(e),
                        Ok(_) => None,
                    }
                } else if k == "actions"@ {
                    match acts_map_v(ps[0].1) {
                        Err(e) => Some(e),
                        Ok(_) => None,
                    }
                } else if k == "on_begin"@ || k == "on_end"@ || k == "to_begin"@ || k
                    == "to_end"@ {
                    match str_v(ps[0].1) {
                        Err(e) => Some(e),
                        Ok(_) => None,
                    }
                } else {
                    None
                };
                match fe {
                    Some(e) => Some(e),
                    None => first_action_err(ps.drop_first()),
                }
            },
        }
    }
}

/// The begin hook written by the last pair keyed "on_begin" or
/// "to_begin" whose value is scalar text, if any.
pub open spec fn last_begin_event(ps: Seq<(NodeV, NodeV)>) -> Option<ActionEventV>
    decreases ps,
{
    if ps.len() == 0 {
        None
    } else {
        let rest = last_begin_event(ps.drop_first());
        if rest is Some {
            rest
        } else if ps[0].0 == NodeV::Scalar("on_begin"@) {
            match str_v(ps[0].1) {
                Ok(s) => Some(ActionEventV::EventCodeOn(s)),
                Err(_) => None,
            }
        } else if ps[0].0 == NodeV::Scalar("to_begin"@) {
            match str_v(ps[0].1) {
                Ok(s) => Some(ActionEventV::EventNameTo(s)),
                Err(_) => None,
            }
        } else {
            None
        }
    }
}

/// The end hook written by the last pair keyed "on_end" or "to_end" whose
/// value is scalar text, if any.
pub open spec fn last_end_event(ps: Seq<(NodeV, NodeV)>) -> Option<ActionEventV>
    decreases ps,
{
    if ps.len() == 0 {
        None
    } else {
        let rest = last_end_event(ps.drop_first());
        if rest is Some {
            rest
        } else if ps[0].0 == NodeV::Scalar("on_end"@) {
            match str_v(ps[0].1) {
                Ok(s) => Some(ActionEventV::EventCodeOn(s)),
                Err(_) => None,
            }
        } else if ps[0].0 == NodeV::Scalar("to_end"@) {
            match str_v(ps[0].1) {
                Ok(s) => Some(ActionEventV::EventNameTo(s)),
                Err(_) => None,
            }
        } else {
            None
        }
    }
}

/// Reveals the seven dispatch keys of the action scan and pins enough of
/// each literal that the solver can tell them all apart.
proof fn reveal_action_keys()
    ensures
        "args_in"@.len() == 7,
        "args_out"@.len() == 8,
        "actions"@.len() == 7,
        "on_begin"@.len() == 8,
        "on_end"@.len() == 6,
        "to_begin"@.len() == 8,
        "to_end"@.len() == 6,
        "args_in"@[1] == 'r',
        "actions"@[1] == 'c',
        "args_out"@[0] == 'a',
        "on_begin"@[0] == 'o',
        "to_begin"@[0] == 't',
        "on_end"@[0] == 'o',
        "to_end"@[0] == 't',
{
    reveal_strlit("args_in");
    reveal_strlit("args_out");
    reveal_strlit("actions");
    reveal_strlit("on_begin");
    reveal_strlit("on_end");
    reveal_strlit("to_begin");
    reveal_strlit("to_end");
}

/// The action scan resolved: it fails with its first error, and otherwise
/// each field holds the conversion of the last pair that addressed it, or
/// its starting value where no pair ever did.
#[verifier::rlimit(100)]
pub proof fn lemma_action_fold_resolves(ps: Seq<(NodeV, NodeV)>, st: ActionV)
    ensures
        first_action_err(ps) matches Some(e) ==> action_fold(ps, st) == Err::<ActionV, ConvErrV>(
            e,
        ),
        first_action_err(ps) is None ==> action_fold(ps, st) is Ok,
        first_action_err(ps) is None ==> (last_value_for(ps, "args_in"@) matches Some(v)
            ==> args_map_v(v) is Ok),
        first_action_err(ps) is None ==> (last_value_for(ps, "args_out"@) matches Some(v)
            ==> args_map_v(v) is Ok),
        first_action_err(ps) is None ==> (last_value_for(ps, "actions"@) matches Some(v)
            ==> acts_map_v(v) is Ok),
        first_action_err(ps) is None ==> action_fold(ps, st)->Ok_0.args_in == (
        match last_value_for(ps, "args_in"@) {
            Some(v) => args_map_v(v)->Ok_0,
            None => st.args_in,
        }),
        first_action_err(ps) is None ==> action_fold(ps, st)->Ok_0.args_out == (
        match last_value_for(ps, "args_out"@) {
            Some(v) => args_map_v(v)->Ok_0,
            None => st.args_out,
        }),
        first_action_err(ps) is None ==> action_fold(ps, st)->Ok_0.actions == (
        match last_value_for(ps, "actions"@) {
            Some(v) => acts_map_v(v)->Ok_0,
            None => st.actions,
        }),
        first_action_err(ps) is None ==> action_fold(ps, st)->Ok_0.begin == (
        match last_begin_event(ps) {
            Some(ev) => ev,
            None => st.begin,
        }),
        first_action_err(ps) is None ==> action_fold(ps, st)->Ok_0.end == (
        match last_end_event(ps) {
            Some(ev) => ev,
            None => st.end,
        }),
    decreases ps,
{
    reveal_action_keys();
    if ps.len() > 0 {
        let d = ps.drop_first();
        match str_v(ps[0].0) {
            Err(_) => {},
            Ok(k) => {
                assert(ps[0].0 == NodeV::Scalar(k));
                assert(last_value_for(ps, "args_in"@) == (if last_value_for(d, "args_in"@)
                    is Some {
                    last_value_for(d, "args_in"@)
                } else if ps[0].0 == NodeV::Scalar("args_in"@) {
                    Some(ps[0].1)
                } else {
                    None
                }));
                assert(last_value_for(ps, "args_out"@) == (if last_value_for(d, "args_out"@)
                    is Some {
                    last_value_for(d, "args_out"@)
                } else if ps[0].0 == NodeV::Scalar("args_out"@) {
                    Some(ps[0].1)
                } else {
                    None
                }));
                assert(last_value_for(ps, "actions"@) == (if last_value_for(d, "actions"@)
                    is Some {
                    last_value_for(d, "actions"@)
                } else if ps[0].0 == NodeV::Scalar("actions"@) {
                    Some(ps[0].1)
                } else {
                    None
                }));
                assert(last_begin_event(ps) == (if last_begin_event(d) is Some {
                    last_begin_event(d)
                } else if ps[0].0 == NodeV::Scalar("on_begin"@) {
                    match str_v(ps[0].1) {
                        Ok(s) => Some(ActionEventV::EventCodeOn(s)),
                        Err(_) => None,
                    }
                } else if ps[0].0 == NodeV::Scalar("to_begin"@) {
                    match str_v(ps[0].1) {
                        Ok(s) => Some(ActionEventV::EventNameTo(s)),
                        Err(_) => None,
                    }
                } else {
                    None
                }));
                assert(last_end_event(ps) == (if last_end_event(d) is Some {
                    last_end_event(d)
                } else if ps[0].0 == NodeV::Scalar("on_end"@) {
                    match str_v(ps[0].1) {
                        Ok(s) => Some(ActionEventV::EventCodeOn(s)),
                        Err(_) => None,
                    }
                } else if ps[0].0 == NodeV::Scalar("to_end"@) {
                    match str_v(ps[0].1) {
                        Ok(s) => Some(ActionEventV::EventNameTo(s)),
                        Err(_) => None,
                    }
                } else {
                    None
                }));
                if k == "args_in"@ {
                    match args_map_v(ps[0].1) {
                        Err(_) => {},
                        Ok(m) => {
                            let st2 = ActionV { args_in: m, ..st };
                            lemma_action_fold_resolves(d, st2);
                            assert(action_fold(ps, st) == action_fold(d, st2));
                            assert(first_action_err(ps) == first_action_err(d));
                        },
                    }
                } else if k == "args_out"@ {
                    match args_map_v(ps[0].1) {
                        Err(_) => {},
                        Ok(m) => {
                            let st2 = ActionV { args_out: m, ..st };
                            lemma_action_fold_resolves(d, st2);
                            assert(action_fold(ps, st) == action_fold(d, st2));
                            assert(first_action_err(ps) == first_action_err(d));
                        },
                    }
                } else if k == "actions"@ {
                    match acts_map_v(ps[0].1) {
                        Err(_) => {},
                        Ok(m) => {
                            let st2 = ActionV { actions: m, ..st };
                            lemma_action_fold_resolves(d, st2);
                            assert(action_fold(ps, st) == action_fold(d, st2));
                            assert(first_action_err(ps) == first_action_err(d));
                        },
                    }
                } else if k == "on_begin"@ {
                    match str_v(ps[0].1) {
                        Err(_) => {},
                        Ok(s) => {
                            let st2 = ActionV { begin: ActionEventV::EventCodeOn(s), ..st };
                            lemma_action_fold_resolves(d, st2);
                            assert(action_fold(ps, st) == action_fold(d, st2));
                            assert(first_action_err(ps) == first_action_err(d));
                        },
                    }
                } else if k == "on_end"@ {
                    match str_v(ps[0].1) {
                        Err(_) => {},
                        Ok(s) => {
                            let st2 = ActionV { end: ActionEventV::EventCodeOn(s), ..st };
                            lemma_action_fold_resolves(d, st2);
                            assert(action_fold(ps, st) == action_fold(d, st2));
                            assert(first_action_err(ps) == first_action_err(d));
                        },
                    }
                } else if k == "to_begin"@ {
                    match str_v(ps[0].1) {
                        Err(_) => {},
                        Ok(s) => {
                            let st2 = ActionV { begin: ActionEventV::EventNameTo(s), ..st };
                            lemma_action_fold_resolves(d, st2);
                            assert(action_fold(ps, st) == action_fold(d, st2));
                            assert(first_action_err(ps) == first_action_err(d));
                        },
                    }
                } else if k == "to_end"@ {
                    match str_v(ps[0].1) {
                        Err(_) => {},
                        Ok(s) => {
                            let st2 = ActionV { end: ActionEventV::EventNameTo(s), ..st };
                            lemma_action_fold_resolves(d, st2);
                            assert(action_fold(ps, st) == action_fold(d, st2));
                            assert(first_action_err(ps) == first_action_err(d));
                        },
                    }
                } else {
                    lemma_action_fold_resolves(d, st);
                    assert(action_fold(ps, st) == action_fold(d, st));
                    assert(first_action_err(ps) == first_action_err(d));
                }
            },
        }
    }
}

/// Fields of an action that no pair addressed keep exactly their
/// defaults: empty containers for the three lists, no hook for either
/// event slot.
pub proof fn lemma_action_defaults(ps: Seq<(NodeV, NodeV)>)
    ensures
        match action_v_of(NodeV::Mapping(ps)) {
            Ok(a) => {
                &&& (last_value_for(ps, "args_in"@) is None ==> a.args_in == Seq::<
                    (Seq<char>, ArgumentV),
                >::empty())
                &&& (last_value_for(ps, "args_out"@) is None ==> a.args_out == Seq::<
                    (Seq<char>, ArgumentV),
                >::empty())
                &&& (last_value_for(ps, "actions"@) is None ==> a.actions == Seq::<
                    (Seq<char>, ActionV),
                >::empty())
                &&& (last_begin_event(ps) is None ==> a.begin == ActionEventV::NoEvent)
                &&& (last_end_event(ps) is None ==> a.end == ActionEventV::NoEvent)
            },
            Err(e) => first_action_err(ps) == Some(e),
        },
{
    lemma_action_fold_resolves(ps, default_action_v());
}

/// A pair's key addresses the begin slot.
pub open spec fn is_begin_key(k: NodeV) -> bool {
    k == NodeV::Scalar("on_begin"@) || k == NodeV::Scalar("to_begin"@)
}

/// With no begin-keyed pair at all, no begin hook is ever written.
proof fn lemma_no_begin_none(ps: Seq<(NodeV, NodeV)>)
    requires
        forall|l: int| 0 <= l < ps.len() ==> !(#[trigger] is_begin_key(ps[l].0)),
    ensures
        last_begin_event(ps) is None,
    decreases ps,
{
    if ps.len() > 0 {
        assert(!is_begin_key(ps[0].0));
        assert forall|l: int|
            0 <= l < ps.drop_first().len() implies !(#[trigger] is_begin_key(
            ps.drop_first()[l].0,
        )) by {
            assert(ps.drop_first()[l] == ps[l + 1]);
            assert(!is_begin_key(ps[l + 1].0));
        }
        lemma_no_begin_none(ps.drop_first());
    }
}

/// Where the scan meets no error, the begin hook is decided by the last
/// begin-keyed pair alone, and that pair's value is scalar text.
proof fn lemma_last_begin_at(ps: Seq<(NodeV, NodeV)>, j: int)
    requires
        first_action_err(ps) is None,
        0 <= j < ps.len(),
        is_begin_key(ps[j].0),
        forall|l: int| j < l < ps.len() ==> !(#[trigger] is_begin_key(ps[l].0)),
    ensures
        str_v(ps[j].1) is Ok,
        last_begin_event(ps) == (match str_v(ps[j].1) {
            Ok(s) => if ps[j].0 == NodeV::Scalar("on_begin"@) {
                Some(ActionEventV::EventCodeOn(s))
            } else {
                Some(ActionEventV::EventNameTo(s))
            },
            Err(_) => None::<ActionEventV>,
        }),
    decreases ps,
{
    reveal_action_keys();
    if j == 0 {
        assert forall|l: int|
            0 <= l < ps.drop_first().len() implies !(#[trigger] is_begin_key(
            ps.drop_first()[l].0,
        )) by {
            assert(ps.drop_first()[l] == ps[l + 1]);
            assert(!is_begin_key(ps[l + 1].0));
        }
        lemma_no_begin_none(ps.drop_first());
    } else {
        assert forall|l: int|
            j - 1 < l < ps.drop_first().len() implies !(#[trigger] is_begin_key(
            ps.drop_first()[l].0,
        )) by {
            assert(ps.drop_first()[l] == ps[l + 1]);
            assert(!is_begin_key(ps[l + 1].0));
        }
        assert(ps.drop_first()[j - 1] == ps[j]);
        lemma_last_begin_at(ps.drop_first(), j - 1);
    }
}

/// Last write wins for the begin hook: whichever of "on_begin" and
/// "to_begin" stands last in document order decides both the hook's kind
/// and its text.
pub proof fn lemma_begin_last_write(ps: Seq<(NodeV, NodeV)>, j: int)
    requires
        action_v_of(NodeV::Mapping(ps)) is Ok,
        0 <= j < ps.len(),
        is_begin_key(ps[j].0),
        forall|l: int| j < l < ps.len() ==> !(#[trigger] is_begin_key(ps[l].0)),
    ensures
        match (action_v_of(NodeV::Mapping(ps)), str_v(ps[j].1)) {
            (Ok(a), Ok(s)) => a.begin == (if ps[j].0 == NodeV::Scalar("on_begin"@) {
                ActionEventV::EventCodeOn(s)
            } else {
                ActionEventV::EventNameTo(s)
            }),
            _ => false,
        },
{
    lemma_action_fold_resolves(ps, default_action_v());
    lemma_last_begin_at(ps, j);
}

/// Conversion of a mapping into entries keeps every pair at its own
/// position: the result extends the accumulator by exactly one converted
/// entry per pair, in document order, duplicates included and never
/// merged.
pub proof fn lemma_args_map_order(ps: Seq<(NodeV, NodeV)>, acc: Seq<(Seq<char>, ArgumentV)>)
    ensures
        match args_map_fold(ps, acc) {
            Ok(m) => {
                &&& m.len() == acc.len() + ps.len()
                &&& (forall|i: int| 0 <= i < acc.len() ==> #[trigger] m[i] == acc[i])
                &&& (forall|i: int|
                    0 <= i < ps.len() ==> str_v(#[trigger] ps[i].0) == Ok::<Seq<char>, ConvErrV>(
                        m[acc.len() + i].0,
                    ) && argument_v_of(ps[i].1) == Ok::<ArgumentV, ConvErrV>(m[acc.len() + i].1))
            },
            Err(_) => true,
        },
    decreases ps,
{
    if ps.len() > 0 {
        match str_v(ps[0].0) {
            Err(_) => {},
            Ok(k) => {
                match argument_v_of(ps[0].1) {
                    Err(_) => {},
                    Ok(a) => {
                        let m0 = acc.push((k, a));
                        lemma_args_map_order(ps.drop_first(), m0);
                        assert(args_map_fold(ps, acc) == args_map_fold(ps.drop_first(), m0));
                        match args_map_fold(ps.drop_first(), m0) {
                            Err(_) => {},
                            Ok(m) => {
                                assert forall|i: int| 0 <= i < acc.len() implies #[trigger] m[i]
                                    == acc[i] by {
                                    assert(m[i] == m0[i]);
                                    assert(m0[i] == acc[i]);
                                }
                                assert forall|i: int|
                                    0 <= i < ps.len() implies str_v(#[trigger] ps[i].0) == Ok::<
                                    Seq<char>,
                                    ConvErrV,
                                >(m[acc.len() + i].0) && argument_v_of(ps[i].1) == Ok::<
                                    ArgumentV,
                                    ConvErrV,
                                >(m[acc.len() + i].1) by {
                                    if i == 0 {
                                        assert(m[acc.len() as int] == m0[acc.len() as int]);
                                        assert(m0[acc.len() as int] == (k, a));
                                    } else {
                                        assert(ps.drop_first()[i - 1] == ps[i]);
                                        assert(str_v(ps.drop_first()[i - 1].0) == Ok::<
                                            Seq<char>,
                                            ConvErrV,
                                        >(m[m0.len() + (i - 1)].0));
                                        assert(m0.len() + (i - 1) == acc.len() + i);
                                    }
                                }
                            },
                        }
                    },
                }
            },
        }
    }
}

/// As `lemma_args_map_order`, for name-to-action entries.
pub proof fn lemma_acts_map_order(ps: Seq<(NodeV, NodeV)>, acc: Seq<(Seq<char>, ActionV)>)
    ensures
        match acts_map_fold(ps, acc) {
            Ok(m) => {
                &&& m.len() == acc.len() + ps.len()
                &&& (forall|i: int| 0 <= i < acc.len() ==> #[trigger] m[i] == acc[i])
                &&& (forall|i: int|
                    0 <= i < ps.len() ==> str_v(#[trigger] ps[i].0) == Ok::<Seq<char>, ConvErrV>(
                        m[acc.len() + i].0,
                    ) && action_v_of(ps[i].1) == Ok::<ActionV, ConvErrV>(m[acc.len() + i].1))
            },
            Err(_) => true,
        },
    decreases ps,
{
    if ps.len() > 0 {
        match str_v(ps[0].0) {
            Err(_) => {},
            Ok(k) => {
                match action_v_of(ps[0].1) {
                    Err(_) => {},
                    Ok(a) => {
                        let m0 = acc.push((k, a));
                        lemma_acts_map_order(ps.drop_first(), m0);
                        assert(acts_map_fold(ps, acc) == acts_map_fold(ps.drop_first(), m0));
                        match acts_map_fold(ps.drop_first(), m0) {
                            Err(_) => {},
                            Ok(m) => {
                                assert forall|i: int| 0 <= i < acc.len() implies #[trigger] m[i]
                                    == acc[i] by {
                                    assert(m[i] == m0[i]);
                                    assert(m0[i] == acc[i]);
                                }
                                assert forall|i: int|
                                    0 <= i < ps.len() implies str_v(#[trigger] ps[i].0) == Ok::<
                                    Seq<char>,
                                    ConvErrV,
                                >(m[acc.len() + i].0) && action_v_of(ps[i].1) == Ok::<
                                    ActionV,
                                    ConvErrV,
                                >(m[acc.len() + i].1) by {
                                    if i == 0 {
                                        assert(m[acc.len() as int] == m0[acc.len() as int]);
                                        assert(m0[acc.len() as int] == (k, a));
                                    } else {
                                        assert(ps.drop_first()[i - 1] == ps[i]);
                                        assert(str_v(ps.drop_first()[i - 1].0) == Ok::<
                                            Seq<char>,
                                            ConvErrV,
                                        >(m[m0.len() + (i - 1)].0));
                                        assert(m0.len() + (i - 1) == acc.len() + i);
                                    }
                                }
                            },
                        }
                    },
                }
            },
        }
    }
}

} // verus!
