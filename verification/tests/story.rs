use fabula::model::{Instruction, Node, Operand, Operands, Program, Value, ValueError, ValueKind};
use fabula::runner::EvaluationStack;
use fabula::story::{AmbiguityReason, Builder, BuilderError};
use fabula::variables::{MapVariableStore, VariableStore};

fn named_node(name: &str) -> (String, Node) {
    (
        name.to_string(),
        Node { name: name.to_string(), instructions: vec![], labels: vec![] },
    )
}

#[test]
fn merging_disjoint_programs_succeeds() {
    let a = Program {
        nodes: vec![named_node("A")],
        initial_values: vec![("$x".to_string(), Value::BoolValue(true))],
    };
    let b = Program {
        nodes: vec![named_node("B")],
        initial_values: vec![("$y".to_string(), Value::BoolValue(false))],
    };
    let story = Builder::new().add_program(a).add_program(b).build().expect("no conflicts");
    assert!(story.node("A").is_some());
    assert!(story.node("B").is_some());
    assert!(story.node("C").is_none());
    assert_eq!(story.initial_value("$x"), Some(&Value::BoolValue(true)));
    assert_eq!(story.initial_value("$y"), Some(&Value::BoolValue(false)));
    assert_eq!(story.initial_value("$z"), None);
}

#[test]
fn duplicate_node_names_are_ambiguous() {
    let a = Program { nodes: vec![named_node("A")], initial_values: vec![] };
    let b = Program { nodes: vec![named_node("A")], initial_values: vec![] };
    let err = Builder::new().add_program(a).add_program(b).build().expect_err("conflict");
    assert_eq!(
        err,
        BuilderError::Ambiguity(AmbiguityReason::NodeName, "A".to_string())
    );
}

#[test]
fn duplicate_initial_values_are_ambiguous() {
    let a = Program {
        nodes: vec![],
        initial_values: vec![("$x".to_string(), Value::BoolValue(true))],
    };
    let b = Program {
        nodes: vec![],
        initial_values: vec![("$x".to_string(), Value::BoolValue(false))],
    };
    let err = Builder::new().add_program(a).add_program(b).build().expect_err("conflict");
    assert_eq!(
        err,
        BuilderError::Ambiguity(AmbiguityReason::InitialValueName, "$x".to_string())
    );
}

#[test]
fn checkpoint_at_requires_existing_node() {
    let a = Program { nodes: vec![named_node("A")], initial_values: vec![] };
    let story = Builder::new().add_program(a).build().expect("merges");
    assert!(story.checkpoint_at("A").is_some());
    assert!(story.checkpoint_at("missing").is_none());
}

#[test]
fn resolve_label_finds_offset() {
    let node = Node {
        name: "N".to_string(),
        instructions: vec![Instruction { opcode: 15, operands: vec![] }],
        labels: vec![("end".to_string(), 7)],
    };
    assert_eq!(node.resolve_label("end").expect("label exists"), 7);
    match node.resolve_label("gone") {
        Err(fabula::model::NodeError::InvalidLabel(name)) => assert_eq!(name, "gone"),
        other => panic!("expected an invalid label, got {:?}", other),
    }
}

#[test]
fn operands_access_is_typed() {
    let ops: Vec<Operand> = vec![
        Operand { value: Some(Value::StringValue("a".to_string())) },
        Operand { value: None },
    ];
    let text: Result<String, ValueError> = ops.at(0);
    assert_eq!(text, Ok("a".to_string()));
    let missing: Result<String, ValueError> = ops.at(1);
    assert_eq!(missing, Err(ValueError::Missing));
    let off_end: Result<String, ValueError> = ops.at(2);
    assert_eq!(off_end, Err(ValueError::Missing));
    let wrong: Result<bool, ValueError> = ops.at(0);
    assert_eq!(
        wrong,
        Err(ValueError::UnexpectedType(
            ValueKind::Boolean,
            Value::StringValue("a".to_string())
        ))
    );
}

#[test]
fn variable_store_returns_previous_value() {
    let mut vars = MapVariableStore::new();
    assert_eq!(vars.get("$x"), None);
    assert_eq!(vars.set("$x", Value::BoolValue(true)), None);
    assert_eq!(vars.get("$x"), Some(&Value::BoolValue(true)));
    assert_eq!(
        vars.set("$x", Value::BoolValue(false)),
        Some(Value::BoolValue(true))
    );
    assert_eq!(vars.get("$x"), Some(&Value::BoolValue(false)));
}

#[test]
fn evaluation_stack_peeks_the_top() {
    let mut stack = EvaluationStack::new();
    stack.push(Value::StringValue("bottom".to_string()));
    stack.push(Value::StringValue("top".to_string()));
    let peeked = stack.peek_any().expect("stack is not empty");
    assert_eq!(peeked, Value::StringValue("top".to_string()));
    let popped = stack.pop_any().expect("stack is not empty");
    assert_eq!(popped, Value::StringValue("top".to_string()));
    let next = stack.pop_any().expect("one value left");
    assert_eq!(next, Value::StringValue("bottom".to_string()));
    assert!(stack.pop_any().is_err());
    assert!(stack.peek_any().is_err());
}
