//! The executable conversion rules, one per entity.
//!
//! Each converter takes an untyped document node and returns the typed
//! entity or the first error the descent meets. Every contract says that
//! the result, seen through the entity's view, is exactly what the
//! corresponding spec function of `crate::model` computes on the node's
//! model.

use vstd::prelude::*;
use crate::node::{Node, NodeV, ConvError, ConvErrV, node_str, node_pairs, str_eq, res_v, pairs_v,
    pairs_view, node_view, lemma_pairs_view_props};
use crate::schema::{Type, ActionEvent, Argument, Action, Component, ArgumentV, ActionV,
    action_v, args_entries_v, acts_entries_v, lemma_args_entries_push, lemma_acts_entries_push};
use crate::model::{type_v_of, argument_v_of, action_v_of, component_v_of, args_map_v, acts_map_v,
    args_map_fold, acts_map_fold, argument_fold, action_fold, component_fold, default_action_v};
use crate::assoc::{ArgList, ActionList};

verus! {

impl Type {
    /// Reads a scalar type name through the closed table; any other text
    /// fails with `UnknownType`, any other shape with `ExpectedScalar`.
    pub fn from_node(n: &Node) -> (r: Result<Type, ConvError>)
        ensures
            res_v(r) == type_v_of(n@),
    {
        let s = match node_str(n) {
            Ok(s) => s,
            Err(e) => {
                return Err(e);
            },
        };
        if str_eq(s, "byte") {
            Ok(Type::ByteType)
        } else if str_eq(s, "int") {
            Ok(Type::IntType)
        } else if str_eq(s, "float") {
            Ok(Type::FloatType)
        } else if str_eq(s, "symbol") {
            Ok(Type::SymbolType)
        } else if str_eq(s, "component") {
            Ok(Type::ComponentType)
        } else if str_eq(s, "ptr") {
            Ok(Type::ComponentType)
        } else {
            Err(ConvError::UnknownType)
        }
    }
}

impl ArgList {
    /// Converts a mapping into named arguments, pair by pair in document
    /// order, appending and never merging; the first failing pair aborts.
    #[verifier::loop_isolation(false)]
    pub fn from_node(n: &Node) -> (r: Result<ArgList, ConvError>)
        ensures
            match r {
                Ok(m) => args_map_v(n@) == Ok::<Seq<(Seq<char>, ArgumentV)>, ConvErrV>(
                    args_entries_v(m@),
                ),
                Err(e) => args_map_v(n@) == Err::<Seq<(Seq<char>, ArgumentV)>, ConvErrV>(e@),
            },
        decreases *n,
    {
        let pairs: &Vec<(Node, Node)> = match n {
            Node::Mapping(ps) => ps,
            _ => {
                return Err(ConvError::ExpectedMapping);
            },
        };
        let ghost psv = pairs_view(pairs@);
        proof {
            lemma_pairs_view_props(pairs@);
            assert(n@ == NodeV::Mapping(psv));
            assert(psv.subrange(0, psv.len() as int) =~= psv);
            assert(args_entries_v(Seq::<(String, Argument)>::empty())
                =~= Seq::<(Seq<char>, ArgumentV)>::empty());
        }
        let mut m = ArgList::new();
        let len: usize = pairs.len();
        let mut i: usize = 0;
        while i < len
            invariant
                len == pairs@.len(),
                i <= len,
                psv == pairs_view(pairs@),
                psv.len() == pairs@.len(),
                forall|j: int|
                    0 <= j < psv.len() ==> #[trigger] psv[j] == (
                        node_view(pairs@[j].0),
                        node_view(pairs@[j].1),
                    ),
                n@ == NodeV::Mapping(psv),
                args_map_fold(psv.subrange(i as int, psv.len() as int), args_entries_v(m@))
                    == args_map_v(n@),
            decreases len - i,
        {
            let ghost suf = psv.subrange(i as int, psv.len() as int);
            proof {
                assert(suf[0] == psv[i as int]);
                assert(suf.drop_first() =~= psv.subrange(i as int + 1, psv.len() as int));
                assert(decreases_to!(*n => *pairs));
                assert(decreases_to!(*pairs => pairs@[i as int]));
                assert(decreases_to!(*n => pairs@[i as int].1));
            }
            let k = match node_str(&pairs[i].0) {
                Ok(s) => s.clone(),
                Err(e) => {
                    return Err(e);
                },
            };
            let v = match Argument::from_node(&pairs[i].1) {
                Ok(a) => a,
                Err(e) => {
                    return Err(e);
                },
            };
            let ghost m0 = m@;
            proof {
                lemma_args_entries_push(m0, k, v);
            }
            m.insert(k, v);
            i = i + 1;
        }
        proof {
            assert(psv.subrange(len as int, psv.len() as int) =~= Seq::<(NodeV, NodeV)>::empty());
        }
        Ok(m)
    }
}

impl ActionList {
    /// Converts a mapping into named actions, pair by pair in document
    /// order, appending and never merging; the first failing pair aborts.
    #[verifier::loop_isolation(false)]
    pub fn from_node(n: &Node) -> (r: Result<ActionList, ConvError>)
        ensures
            match r {
                Ok(m) => acts_map_v(n@) == Ok::<Seq<(Seq<char>, ActionV)>, ConvErrV>(
                    acts_entries_v(m@),
                ),
                Err(e) => acts_map_v(n@) == Err::<Seq<(Seq<char>, ActionV)>, ConvErrV>(e@),
            },
        decreases *n,
    {
        let pairs: &Vec<(Node, Node)> = match n {
            Node::Mapping(ps) => ps,
            _ => {
                return Err(ConvError::ExpectedMapping);
            },
        };
        let ghost psv = pairs_view(pairs@);
        proof {
            lemma_pairs_view_props(pairs@);
            assert(n@ == NodeV::Mapping(psv));
            assert(psv.subrange(0, psv.len() as int) =~= psv);
            assert(acts_entries_v(Seq::<(String, Action)>::empty())
                =~= Seq::<(Seq<char>, ActionV)>::empty());
        }
        let mut m = ActionList::new();
        let len: usize = pairs.len();
        let mut i: usize = 0;
        while i < len
            invariant
                len == pairs@.len(),
                i <= len,
                psv == pairs_view(pairs@),
                psv.len() == pairs@.len(),
                forall|j: int|
                    0 <= j < psv.len() ==> #[trigger] psv[j] == (
                        node_view(pairs@[j].0),
                        node_view(pairs@[j].1),
                    ),
                n@ == NodeV::Mapping(psv),
                acts_map_fold(psv.subrange(i as int, psv.len() as int), acts_entries_v(m@))
                    == acts_map_v(n@),
            decreases len - i,
        {
            let ghost suf = psv.subrange(i as int, psv.len() as int);
            proof {
                assert(suf[0] == psv[i as int]);
                assert(suf.drop_first() =~= psv.subrange(i as int + 1, psv.len() as int));
                assert(decreases_to!(*n => *pairs));
                assert(decreases_to!(*pairs => pairs@[i as int]));
                assert(decreases_to!(*n => pairs@[i as int].1));
            }
            let k = match node_str(&pairs[i].0) {
                Ok(s) => s.clone(),
                Err(e) => {
                    return Err(e);
                },
            };
            let v = match Action::from_node(&pairs[i].1) {
                Ok(a) => a,
                Err(e) => {
                    return Err(e);
                },
            };
            let ghost m0 = m@;
            proof {
                lemma_acts_entries_push(m0, k, v);
            }
            m.insert(k, v);
            i = i + 1;
        }
        proof {
            assert(psv.subrange(len as int, psv.len() as int) =~= Seq::<(NodeV, NodeV)>::empty());
        }
        Ok(m)
    }
}

impl Argument {
    /// Converts a node into an argument: scalar text is read as a type
    /// name with no nested actions; a mapping always yields
    /// `ComponentType` — any type information it carries is ignored — and
    /// honours only its "actions" key, the later of two such keys winning;
    /// any other shape is no argument at all.
    #[verifier::loop_isolation(false)]
    pub fn from_node(n: &Node) -> (r: Result<Argument, ConvError>)
        ensures
            res_v(r) == argument_v_of(n@),
        decreases *n,
    {
        match n {
            Node::Scalar(_) => {
                let ty = match Type::from_node(n) {
                    Ok(t) => t,
                    Err(e) => {
                        return Err(e);
                    },
                };
                let a = Argument { ty: ty, actions: ActionList::new() };
                proof {
                    assert(acts_entries_v(a.actions@) =~= Seq::<(Seq<char>, ActionV)>::empty());
                }
                Ok(a)
            },
            Node::Mapping(pairs) => {
                let ghost psv = pairs_view(pairs@);
                proof {
                    lemma_pairs_view_props(pairs@);
                    assert(n@ == NodeV::Mapping(psv));
                    assert(psv.subrange(0, psv.len() as int) =~= psv);
                    assert(acts_entries_v(Seq::<(String, Action)>::empty())
                        =~= Seq::<(Seq<char>, ActionV)>::empty());
                }
                let mut acts = ActionList::new();
                let len: usize = pairs.len();
                let mut i: usize = 0;
                while i < len
                    invariant
                        len == pairs@.len(),
                        i <= len,
                        psv == pairs_view(pairs@),
                        psv.len() == pairs@.len(),
                        forall|j: int|
                            0 <= j < psv.len() ==> #[trigger] psv[j] == (
                                node_view(pairs@[j].0),
                                node_view(pairs@[j].1),
                            ),
                        n@ == NodeV::Mapping(psv),
                        argument_fold(psv.subrange(i as int, psv.len() as int), acts_entries_v(acts@))
                            == argument_fold(psv, Seq::empty()),
                    decreases len - i,
                {
                    let ghost suf = psv.subrange(i as int, psv.len() as int);
                    proof {
                        assert(suf[0] == psv[i as int]);
                        assert(suf.drop_first() =~= psv.subrange(i as int + 1, psv.len() as int));
                        assert(decreases_to!(*n => *pairs));
                        assert(decreases_to!(*pairs => pairs@[i as int]));
                        assert(decreases_to!(*n => pairs@[i as int].1));
                    }
                    let k = match node_str(&pairs[i].0) {
                        Ok(s) => s,
                        Err(e) => {
                            return Err(e);
                        },
                    };
                    if str_eq(k, "actions") {
                        acts = match ActionList::from_node(&pairs[i].1) {
                            Ok(m2) => m2,
                            Err(e) => {
                                return Err(e);
                            },
                        };
                    }
                    i = i + 1;
                }
                proof {
                    assert(psv.subrange(len as int, psv.len() as int)
                        =~= Seq::<(NodeV, NodeV)>::empty());
                }
                Ok(Argument { ty: Type::ComponentType, actions: acts })
            },
            Node::Sequence(_) => Err(ConvError::InvalidArgumentShape),
        }
    }
}

impl Action {
    /// Converts a mapping into an action by one left-to-right scan with
    /// unconditional overwrite, so the later of two keys addressing one
    /// slot wins; unrecognised keys are ignored; fields no pair addressed
    /// keep their defaults; the first failing pair aborts, even where the
    /// field would have been optional when absent.
    #[verifier::loop_isolation(false)]
    pub fn from_node(n: &Node) -> (r: Result<Action, ConvError>)
        ensures
            res_v(r) == action_v_of(n@),
        decreases *n,
    {
        let pairs: &Vec<(Node, Node)> = match n {
            Node::Mapping(ps) => ps,
            _ => {
                return Err(ConvError::ExpectedMapping);
            },
        };
        let ghost psv = pairs_view(pairs@);
        proof {
            lemma_pairs_view_props(pairs@);
            assert(n@ == NodeV::Mapping(psv));
            assert(psv.subrange(0, psv.len() as int) =~= psv);
        }
        let mut act = Action {
            args_in: ArgList::new(),
            args_out: ArgList::new(),
            actions: ActionList::new(),
            begin: ActionEvent::NoEvent,
            end: ActionEvent::NoEvent,
        };
        proof {
            assert(args_entries_v(Seq::<(String, Argument)>::empty())
                =~= Seq::<(Seq<char>, ArgumentV)>::empty());
            assert(acts_entries_v(Seq::<(String, Action)>::empty())
                =~= Seq::<(Seq<char>, ActionV)>::empty());
            assert(action_v(act) == default_action_v());
        }
        let len: usize = pairs.len();
        let mut i: usize = 0;
        while i < len
            invariant
                len == pairs@.len(),
                i <= len,
                psv == pairs_view(pairs@),
                psv.len() == pairs@.len(),
                forall|j: int|
                    0 <= j < psv.len() ==> #[trigger] psv[j] == (
                        node_view(pairs@[j].0),
                        node_view(pairs@[j].1),
                    ),
                n@ == NodeV::Mapping(psv),
                action_fold(psv.subrange(i as int, psv.len() as int), action_v(act))
                    == action_fold(psv, default_action_v()),
            decreases len - i,
        {
            let ghost suf = psv.subrange(i as int, psv.len() as int);
            let ghost prev = action_v(act);
            proof {
                assert(suf[0] == psv[i as int]);
                assert(suf.drop_first() =~= psv.subrange(i as int + 1, psv.len() as int));
                assert(decreases_to!(*n => *pairs));
                assert(decreases_to!(*pairs => pairs@[i as int]));
                assert(decreases_to!(*n => pairs@[i as int].1));
            }
            let k = match node_str(&pairs[i].0) {
                Ok(s) => s,
                Err(e) => {
                    return Err(e);
                },
            };
            if str_eq(k, "args_in") {
                match ArgList::from_node(&pairs[i].1) {
                    Ok(m) => {
                        act.args_in = m;
                    },
                    Err(e) => {
                        return Err(e);
                    },
                }
            } else if str_eq(k, "args_out") {
                match ArgList::from_node(&pairs[i].1) {
                    Ok(m) => {
                        act.args_out = m;
                    },
                    Err(e) => {
                        return Err(e);
                    },
                }
            } else if str_eq(k, "actions") {
                match ActionList::from_node(&pairs[i].1) {
                    Ok(m) => {
                        act.actions = m;
                    },
                    Err(e) => {
                        return Err(e);
                    },
                }
            } else if str_eq(k, "on_begin") {
                match node_str(&pairs[i].1) {
                    Ok(s) => {
                        act.begin = ActionEvent::EventCodeOn(s.clone());
                    },
                    Err(e) => {
                        return Err(e);
                    },
                }
            } else if str_eq(k, "on_end") {
                match node_str(&pairs[i].1) {
                    Ok(s) => {
                        act.end = ActionEvent::EventCodeOn(s.clone());
                    },
                    Err(e) => {
                        return Err(e);
                    },
                }
            } else if str_eq(k, "to_begin") {
                match node_str(&pairs[i].1) {
                    Ok(s) => {
                        act.begin = ActionEvent::EventNameTo(s.clone());
                    },
                    Err(e) => {
                        return Err(e);
                    },
                }
            } else if str_eq(k, "to_end") {
                match node_str(&pairs[i].1) {
                    Ok(s) => {
                        act.end = ActionEvent::EventNameTo(s.clone());
                    },
                    Err(e) => {
                        return Err(e);
                    },
                }
            }
            proof {
                assert(action_fold(suf, prev) == action_fold(suf.drop_first(), action_v(act)));
            }
            i = i + 1;
        }
        proof {
            assert(psv.subrange(len as int, psv.len() as int) =~= Seq::<(NodeV, NodeV)>::empty());
        }
        Ok(act)
    }
}

impl Component {
    /// Converts the root mapping into a component: one scan of the pairs
    /// for the identity fields, where the later of two matching keys wins
    /// and a key that never matches leaves its missing-field error in
    /// place; then the name slot is resolved, then the backend slot, and
    /// finally the same node — not a sub-node — is converted once more
    /// through the action rule to populate `main`.
    #[verifier::loop_isolation(false)]
    pub fn from_node(n: &Node) -> (r: Result<Component, ConvError>)
        ensures
            res_v(r) == component_v_of(n@),
    {
        let pairs = match node_pairs(n) {
            Ok(ps) => ps,
            Err(e) => {
                return Err(e);
            },
        };
        let ghost psv = pairs_view(pairs@);
        proof {
            lemma_pairs_view_props(pairs@);
            assert(psv.subrange(0, psv.len() as int) =~= psv);
        }
        let mut name: Result<String, ConvError> = Err(
            ConvError::MissingRequiredField("component".to_owned()),
        );
        let mut backend: Result<String, ConvError> = Err(
            ConvError::MissingRequiredField("backend".to_owned()),
        );
        let len: usize = pairs.len();
        let mut i: usize = 0;
        while i < len
            invariant
                len == pairs@.len(),
                i <= len,
                psv == pairs_view(pairs@),
                psv.len() == pairs@.len(),
                forall|j: int|
                    0 <= j < psv.len() ==> #[trigger] psv[j] == (
                        node_view(pairs@[j].0),
                        node_view(pairs@[j].1),
                    ),
                pairs_v(n@) == Ok::<Seq<(NodeV, NodeV)>, ConvErrV>(psv),
                component_fold(psv.subrange(i as int, psv.len() as int), res_v(name), res_v(backend))
                    == component_fold(
                    psv,
                    Err(ConvErrV::MissingRequiredField("component"@)),
                    Err(ConvErrV::MissingRequiredField("backend"@)),
                ),
            decreases len - i,
        {
            let ghost suf = psv.subrange(i as int, psv.len() as int);
            proof {
                assert(suf[0] == psv[i as int]);
                assert(suf.drop_first() =~= psv.subrange(i as int + 1, psv.len() as int));
            }
            let k = match node_str(&pairs[i].0) {
                Ok(s) => s,
                Err(e) => {
                    return Err(e);
                },
            };
            if str_eq(k, "component") {
                name = match node_str(&pairs[i].1) {
                    Ok(s) => Ok(s.clone()),
                    Err(e) => Err(e),
                };
            } else if str_eq(k, "backend") {
                backend = match node_str(&pairs[i].1) {
                    Ok(s) => Ok(s.clone()),
                    Err(e) => Err(e),
                };
            }
            i = i + 1;
        }
        proof {
            assert(psv.subrange(len as int, psv.len() as int) =~= Seq::<(NodeV, NodeV)>::empty());
        }
        let name_s = match name {
            Ok(s) => s,
            Err(e) => {
                return Err(e);
            },
        };
        let backend_s = match backend {
            Ok(s) => s,
            Err(e) => {
                return Err(e);
            },
        };
        let main = match Action::from_node(n) {
            Ok(a) => a,
            Err(e) => {
                return Err(e);
            },
        };
        Ok(Component { name: name_s, backend: backend_s, main: main })
    }
}

} // verus!
