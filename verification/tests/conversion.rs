use specfile::node::{Node, ConvError};
use specfile::schema::{Type, ActionEvent, Argument, Action, Component};

fn s(t: &str) -> Node {
    Node::Scalar(t.to_string())
}

#[test]
fn test_component_end_to_end() {
    let doc = Node::Mapping(vec![
        (s("component"), s("servo")),
        (s("backend"), s("can")),
        (s("args_in"), Node::Mapping(vec![(s("speed"), s("int"))])),
        (s("on_begin"), s("init()")),
    ]);
    let c = Component::from_node(&doc).unwrap();
    assert_eq!(c.name, "servo");
    assert_eq!(c.backend, "can");
    assert_eq!(c.main.args_in.len(), 1);
    let (k, a) = &c.main.args_in.as_slice()[0];
    assert_eq!(k, "speed");
    assert_eq!(a.ty, Type::IntType);
    assert_eq!(a.actions.len(), 0);
    assert_eq!(c.main.begin, ActionEvent::EventCodeOn("init()".to_string()));
    assert_eq!(c.main.end, ActionEvent::NoEvent);
    assert_eq!(c.main.args_out.len(), 0);
    assert_eq!(c.main.actions.len(), 0);
}

#[test]
fn test_missing_component_fails() {
    let doc = Node::Mapping(vec![(s("backend"), s("can"))]);
    let e = Component::from_node(&doc).unwrap_err();
    assert_eq!(e, ConvError::MissingRequiredField("component".to_string()));
}

#[test]
fn test_missing_backend_fails() {
    let doc = Node::Mapping(vec![(s("component"), s("servo"))]);
    let e = Component::from_node(&doc).unwrap_err();
    assert_eq!(e, ConvError::MissingRequiredField("backend".to_string()));
}

#[test]
fn test_malformed_optional_field_fails() {
    let doc = Node::Mapping(vec![
        (s("component"), s("x")),
        (s("backend"), s("y")),
        (s("args_in"), Node::Sequence(vec![s("1"), s("2")])),
    ]);
    assert_eq!(Component::from_node(&doc).unwrap_err(), ConvError::ExpectedMapping);
}

#[test]
fn test_scalar_type_table() {
    let rows = [
        ("byte", Type::ByteType),
        ("int", Type::IntType),
        ("float", Type::FloatType),
        ("symbol", Type::SymbolType),
        ("component", Type::ComponentType),
        ("ptr", Type::ComponentType),
    ];
    for (txt, ty) in rows {
        let a = Argument::from_node(&s(txt)).unwrap();
        assert_eq!(a.ty, ty);
        assert_eq!(a.actions.len(), 0);
    }
    assert_eq!(Type::from_node(&s("word")).unwrap_err(), ConvError::UnknownType);
    assert_eq!(
        Type::from_node(&Node::Mapping(vec![])).unwrap_err(),
        ConvError::ExpectedScalar,
    );
}

#[test]
fn test_mapping_argument_forces_component() {
    let doc = Node::Mapping(vec![
        (s("type"), s("int")),
        (
            s("actions"),
            Node::Mapping(vec![
                (s("go"), Node::Mapping(vec![(s("on_begin"), s("run()"))])),
            ]),
        ),
    ]);
    let a = Argument::from_node(&doc).unwrap();
    assert_eq!(a.ty, Type::ComponentType);
    assert_eq!(a.actions.len(), 1);
    let (k, act) = &a.actions.as_slice()[0];
    assert_eq!(k, "go");
    assert_eq!(act.begin, ActionEvent::EventCodeOn("run()".to_string()));
}

#[test]
fn test_mapping_argument_without_actions_is_empty() {
    let doc = Node::Mapping(vec![(s("whatever"), s("int"))]);
    let a = Argument::from_node(&doc).unwrap();
    assert_eq!(a.ty, Type::ComponentType);
    assert_eq!(a.actions.len(), 0);
}

#[test]
fn test_sequence_argument_fails() {
    let doc = Node::Sequence(vec![]);
    assert_eq!(Argument::from_node(&doc).unwrap_err(), ConvError::InvalidArgumentShape);
}

#[test]
fn test_action_defaults() {
    let a = Action::from_node(&Node::Mapping(vec![])).unwrap();
    assert_eq!(a.args_in.len(), 0);
    assert_eq!(a.args_out.len(), 0);
    assert_eq!(a.actions.len(), 0);
    assert_eq!(a.begin, ActionEvent::NoEvent);
    assert_eq!(a.end, ActionEvent::NoEvent);
}

#[test]
fn test_last_write_wins_begin() {
    let d1 = Node::Mapping(vec![(s("on_begin"), s("x")), (s("to_begin"), s("y"))]);
    assert_eq!(
        Action::from_node(&d1).unwrap().begin,
        ActionEvent::EventNameTo("y".to_string()),
    );
    let d2 = Node::Mapping(vec![(s("to_begin"), s("y")), (s("on_begin"), s("x"))]);
    assert_eq!(
        Action::from_node(&d2).unwrap().begin,
        ActionEvent::EventCodeOn("x".to_string()),
    );
}

#[test]
fn test_end_events() {
    let d = Node::Mapping(vec![(s("on_end"), s("halt()")), (s("to_end"), s("cleanup"))]);
    let a = Action::from_node(&d).unwrap();
    assert_eq!(a.end, ActionEvent::EventNameTo("cleanup".to_string()));
    assert_eq!(a.begin, ActionEvent::NoEvent);
}

#[test]
fn test_duplicate_keys_kept_in_order() {
    let doc = Node::Mapping(vec![
        (s("a"), s("int")),
        (s("b"), s("byte")),
        (s("a"), s("float")),
    ]);
    let args = specfile::assoc::ArgList::from_node(&doc).unwrap();
    assert_eq!(args.len(), 3);
    let sl = args.as_slice();
    assert_eq!(sl[0].0, "a");
    assert_eq!(sl[0].1.ty, Type::IntType);
    assert_eq!(sl[1].0, "b");
    assert_eq!(sl[1].1.ty, Type::ByteType);
    assert_eq!(sl[2].0, "a");
    assert_eq!(sl[2].1.ty, Type::FloatType);
    assert_eq!(args.find_str("a").unwrap().ty, Type::IntType);
}

#[test]
fn test_nested_actions() {
    let doc = Node::Mapping(vec![
        (s("component"), s("arm")),
        (s("backend"), s("sim")),
        (
            s("actions"),
            Node::Mapping(vec![
                (
                    s("wave"),
                    Node::Mapping(vec![
                        (s("to_end"), s("stop")),
                        (s("args_out"), Node::Mapping(vec![(s("angle"), s("float"))])),
                    ]),
                ),
            ]),
        ),
    ]);
    let c = Component::from_node(&doc).unwrap();
    assert_eq!(c.main.actions.len(), 1);
    let w = c.main.actions.find_str("wave").unwrap();
    assert_eq!(w.end, ActionEvent::EventNameTo("stop".to_string()));
    assert_eq!(w.args_out.find_str("angle").unwrap().ty, Type::FloatType);
    assert_eq!(w.begin, ActionEvent::NoEvent);
}

#[test]
fn test_root_must_be_mapping() {
    assert_eq!(Component::from_node(&s("hello")).unwrap_err(), ConvError::ExpectedMapping);
}

#[test]
fn test_non_text_key_fails() {
    let doc = Node::Mapping(vec![(Node::Mapping(vec![]), s("x"))]);
    assert_eq!(Component::from_node(&doc).unwrap_err(), ConvError::ExpectedScalar);
}

#[test]
fn test_event_value_must_be_text() {
    let doc = Node::Mapping(vec![
        (s("component"), s("x")),
        (s("backend"), s("y")),
        (s("on_end"), Node::Sequence(vec![])),
    ]);
    assert_eq!(Component::from_node(&doc).unwrap_err(), ConvError::ExpectedScalar);
}

#[test]
fn test_unknown_type_in_args_fails() {
    let doc = Node::Mapping(vec![
        (s("component"), s("x")),
        (s("backend"), s("y")),
        (s("args_in"), Node::Mapping(vec![(s("speed"), s("furlongs"))])),
    ]);
    assert_eq!(Component::from_node(&doc).unwrap_err(), ConvError::UnknownType);
}

#[test]
fn test_component_last_write_wins_name() {
    let doc = Node::Mapping(vec![
        (s("component"), s("first")),
        (s("backend"), s("b")),
        (s("component"), s("second")),
    ]);
    let c = Component::from_node(&doc).unwrap();
    assert_eq!(c.name, "second");
}

#[test]
fn test_bad_identity_value_overwritten() {
    let doc = Node::Mapping(vec![
        (s("component"), Node::Sequence(vec![])),
        (s("component"), s("ok")),
        (s("backend"), s("b")),
    ]);
    let c = Component::from_node(&doc).unwrap();
    assert_eq!(c.name, "ok");
}

#[test]
fn test_bad_identity_value_last_fails() {
    let doc = Node::Mapping(vec![
        (s("component"), s("ok")),
        (s("component"), Node::Sequence(vec![])),
        (s("backend"), s("b")),
    ]);
    assert_eq!(Component::from_node(&doc).unwrap_err(), ConvError::ExpectedScalar);
}

#[test]
fn test_unrecognised_keys_ignored() {
    let doc = Node::Mapping(vec![
        (s("component"), s("c")),
        (s("backend"), s("b")),
        (s("color"), Node::Sequence(vec![s("red")])),
    ]);
    let c = Component::from_node(&doc).unwrap();
    assert_eq!(c.name, "c");
    assert_eq!(c.backend, "b");
    assert_eq!(c.main.actions.len(), 0);
}
