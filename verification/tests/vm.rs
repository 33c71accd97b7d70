use fabula::function::Library;
use fabula::model::{Instruction, Node, Operand, Program, Value};
use fabula::runner::{ControlFlow, EvaluationStack, InstructionError, StoryEvent, StoryRunner};
use fabula::story::Builder;
use fabula::variables::{MapVariableStore, VariableStore};

fn op_str(v: &str) -> Operand {
    Operand { value: Some(Value::StringValue(v.to_string())) }
}

fn op_num(x: f32) -> Operand {
    Operand { value: Some(Value::NumberValue(x.to_bits())) }
}

fn op_bool(b: bool) -> Operand {
    Operand { value: Some(Value::BoolValue(b)) }
}

fn instr(opcode: i32, operands: Vec<Operand>) -> Instruction {
    Instruction { opcode, operands }
}

const JUMP_TO: i32 = 0;
const JUMP: i32 = 1;
const RUN_LINE: i32 = 2;
const RUN_COMMAND: i32 = 3;
const ADD_OPTION: i32 = 4;
const SHOW_OPTIONS: i32 = 5;
const PUSH_STRING: i32 = 6;
const PUSH_FLOAT: i32 = 7;
const PUSH_BOOL: i32 = 8;
const PUSH_NULL: i32 = 9;
const JUMP_IF_FALSE: i32 = 10;
const CALL_FUNC: i32 = 12;
const PUSH_VARIABLE: i32 = 13;
const STORE_VARIABLE: i32 = 14;
const STOP: i32 = 15;
const RUN_NODE: i32 = 16;

fn single_node_story(instructions: Vec<Instruction>, labels: Vec<(String, usize)>) -> fabula::story::Story {
    let node = Node { name: "Start".to_string(), instructions, labels };
    let program = Program { nodes: vec![("Start".to_string(), node)], initial_values: vec![] };
    Builder::new().add_program(program).build().expect("program must merge")
}

#[test]
fn linear_line_then_stop() {
    let story = single_node_story(
        vec![
            instr(PUSH_STRING, vec![op_str("x")]),
            instr(RUN_LINE, vec![op_str("greet"), op_num(1.0)]),
            instr(STOP, vec![]),
        ],
        vec![],
    );
    let runner = StoryRunner::new(Library::builtins());
    let mut vars = MapVariableStore::new();
    let cp = story.checkpoint_at("Start").expect("start node exists");

    let (cp, event) = runner.step(&story, cp, &mut vars).expect("first step");
    assert_eq!(
        event,
        StoryEvent::ShowLine { key: "greet".to_string(), substitutions: vec!["x".to_string()] }
    );
    let (_, event) = runner.step(&story, cp, &mut vars).expect("second step");
    assert_eq!(event, StoryEvent::Complete);
}

#[test]
fn conditional_false_skips_line_and_leaves_condition() {
    // The condition is only peeked, so it survives the jump; a line after
    // the stop can still pop it, which makes the leftover observable.
    let story = single_node_story(
        vec![
            instr(PUSH_BOOL, vec![op_bool(false)]),
            instr(JUMP_IF_FALSE, vec![op_str("end")]),
            instr(RUN_LINE, vec![op_str("skip"), op_num(0.0)]),
            instr(STOP, vec![]),
            instr(RUN_LINE, vec![op_str("after"), op_num(1.0)]),
        ],
        vec![("end".to_string(), 3)],
    );
    let runner = StoryRunner::new(Library::builtins());
    let mut vars = MapVariableStore::new();
    let cp = story.checkpoint_at("Start").expect("start node exists");

    let (cp, event) = runner.step(&story, cp, &mut vars).expect("step to stop");
    assert_eq!(event, StoryEvent::Complete);

    let (_, event) = runner.step(&story, cp, &mut vars).expect("step after stop");
    assert_eq!(
        event,
        StoryEvent::ShowLine {
            key: "after".to_string(),
            substitutions: vec!["false".to_string()],
        }
    );
}

#[test]
fn option_flow_selects_target() {
    let story = single_node_story(
        vec![
            instr(ADD_OPTION, vec![op_str("k1"), op_str("A")]),
            instr(ADD_OPTION, vec![op_str("k2"), op_str("B")]),
            instr(SHOW_OPTIONS, vec![]),
            instr(JUMP, vec![]),
            instr(RUN_LINE, vec![op_str("lineA"), op_num(0.0)]),
            instr(STOP, vec![]),
            instr(RUN_LINE, vec![op_str("lineB"), op_num(0.0)]),
            instr(STOP, vec![]),
        ],
        vec![("A".to_string(), 4), ("B".to_string(), 6)],
    );
    let runner = StoryRunner::new(Library::builtins());
    let mut vars = MapVariableStore::new();
    let cp = story.checkpoint_at("Start").expect("start node exists");

    let (cp, event) = runner.step(&story, cp, &mut vars).expect("first option");
    assert_eq!(
        event,
        StoryEvent::AddOption {
            enabled: true,
            key: "k1".to_string(),
            substitutions: vec![],
            target: "A".to_string(),
        }
    );
    let (cp, event) = runner.step(&story, cp, &mut vars).expect("second option");
    assert_eq!(
        event,
        StoryEvent::AddOption {
            enabled: true,
            key: "k2".to_string(),
            substitutions: vec![],
            target: "B".to_string(),
        }
    );
    let (mut cp, event) = runner.step(&story, cp, &mut vars).expect("hand-off");
    assert_eq!(event, StoryEvent::ShowOptions);

    cp.select_option("B".to_string());
    let (_, event) = runner.step(&story, cp, &mut vars).expect("resume at choice");
    assert_eq!(
        event,
        StoryEvent::ShowLine { key: "lineB".to_string(), substitutions: vec![] }
    );
}

#[test]
fn command_substitution_replaces_indices() {
    let story = single_node_story(
        vec![
            instr(PUSH_STRING, vec![op_str("2")]),
            instr(PUSH_STRING, vec![op_str("slow")]),
            instr(RUN_COMMAND, vec![op_str("wait {0} {1}"), op_num(2.0)]),
            instr(STOP, vec![]),
        ],
        vec![],
    );
    let runner = StoryRunner::new(Library::builtins());
    let mut vars = MapVariableStore::new();
    let cp = story.checkpoint_at("Start").expect("start node exists");

    let (_, event) = runner.step(&story, cp, &mut vars).expect("command step");
    assert_eq!(event, StoryEvent::Command("wait 2 slow".to_string()));
}

#[test]
fn command_substitution_replaces_every_occurrence() {
    let story = single_node_story(
        vec![
            instr(PUSH_STRING, vec![op_str("x")]),
            instr(RUN_COMMAND, vec![op_str("mark {0} and {0}"), op_num(1.0)]),
            instr(STOP, vec![]),
        ],
        vec![],
    );
    let runner = StoryRunner::new(Library::builtins());
    let mut vars = MapVariableStore::new();
    let cp = story.checkpoint_at("Start").expect("start node exists");

    let (_, event) = runner.step(&story, cp, &mut vars).expect("command step");
    assert_eq!(event, StoryEvent::Command("mark x and x".to_string()));
}

#[test]
fn function_call_adds_numbers() {
    let story = single_node_story(
        vec![
            instr(PUSH_FLOAT, vec![op_num(3.0)]),
            instr(PUSH_FLOAT, vec![op_num(4.0)]),
            instr(PUSH_FLOAT, vec![op_num(2.0)]),
            instr(CALL_FUNC, vec![op_str("Number.Add")]),
            instr(RUN_LINE, vec![op_str("sum"), op_num(1.0)]),
            instr(STOP, vec![]),
        ],
        vec![],
    );
    let runner = StoryRunner::new(Library::builtins());
    let mut vars = MapVariableStore::new();
    let cp = story.checkpoint_at("Start").expect("start node exists");

    // The line pops the call's result as its one substitution, so the
    // stack's top after the call is observable as text.
    let (_, event) = runner.step(&story, cp, &mut vars).expect("call step");
    assert_eq!(
        event,
        StoryEvent::ShowLine { key: "sum".to_string(), substitutions: vec!["7".to_string()] }
    );
}

#[test]
fn visit_count_reads_internal_variable() {
    let story = single_node_story(
        vec![
            instr(PUSH_STRING, vec![op_str("Intro")]),
            instr(PUSH_FLOAT, vec![op_num(1.0)]),
            instr(CALL_FUNC, vec![op_str("visited_count")]),
            instr(RUN_LINE, vec![op_str("count"), op_num(1.0)]),
            instr(STOP, vec![]),
        ],
        vec![],
    );
    let runner = StoryRunner::new(Library::builtins());
    let mut vars = MapVariableStore::new();
    vars.set(
        "$Yarn.Internal.Visiting.Intro",
        Value::NumberValue(2.0f32.to_bits()),
    );
    let cp = story.checkpoint_at("Start").expect("start node exists");

    let (_, event) = runner.step(&story, cp, &mut vars).expect("call step");
    assert_eq!(
        event,
        StoryEvent::ShowLine { key: "count".to_string(), substitutions: vec!["2".to_string()] }
    );
}

#[test]
fn visited_reports_positive_count() {
    let story = single_node_story(
        vec![
            instr(PUSH_STRING, vec![op_str("Intro")]),
            instr(PUSH_FLOAT, vec![op_num(1.0)]),
            instr(CALL_FUNC, vec![op_str("visited")]),
            instr(RUN_LINE, vec![op_str("seen"), op_num(1.0)]),
            instr(STOP, vec![]),
        ],
        vec![],
    );
    let runner = StoryRunner::new(Library::builtins());
    let mut vars = MapVariableStore::new();
    vars.set(
        "$Yarn.Internal.Visiting.Intro",
        Value::NumberValue(2.0f32.to_bits()),
    );
    let cp = story.checkpoint_at("Start").expect("start node exists");

    let (_, event) = runner.step(&story, cp, &mut vars).expect("call step");
    assert_eq!(
        event,
        StoryEvent::ShowLine { key: "seen".to_string(), substitutions: vec!["true".to_string()] }
    );
}

#[test]
fn checkpoint_clone_is_pure() {
    // Stepping a clone of a checkpoint must not disturb the original:
    // both runs see the same events.
    let story = single_node_story(
        vec![
            instr(PUSH_STRING, vec![op_str("x")]),
            instr(STORE_VARIABLE, vec![op_str("$v")]),
            instr(RUN_LINE, vec![op_str("first"), op_num(1.0)]),
            instr(RUN_LINE, vec![op_str("second"), op_num(0.0)]),
            instr(STOP, vec![]),
        ],
        vec![],
    );
    let runner = StoryRunner::new(Library::builtins());
    let cp = story.checkpoint_at("Start").expect("start node exists");
    let clone = cp.clone();

    let mut vars_clone = MapVariableStore::new();
    let (clone_cp, clone_event) = runner.step(&story, clone, &mut vars_clone).expect("clone step");

    let mut vars_orig = MapVariableStore::new();
    let (orig_cp, orig_event) = runner.step(&story, cp, &mut vars_orig).expect("original step");

    assert_eq!(clone_event, orig_event);

    let (_, clone_next) = runner.step(&story, clone_cp, &mut vars_clone).expect("clone next");
    let (_, orig_next) = runner.step(&story, orig_cp, &mut vars_orig).expect("original next");
    assert_eq!(clone_next, orig_next);
    assert_eq!(vars_clone.get("$v"), vars_orig.get("$v"));
}

#[test]
fn variable_fallback_uses_initial_value() {
    let node = Node {
        name: "Start".to_string(),
        instructions: vec![
            instr(PUSH_VARIABLE, vec![op_str("$pet")]),
            instr(RUN_LINE, vec![op_str("line"), op_num(1.0)]),
            instr(STOP, vec![]),
        ],
        labels: vec![],
    };
    let program = Program {
        nodes: vec![("Start".to_string(), node)],
        initial_values: vec![("$pet".to_string(), Value::StringValue("cat".to_string()))],
    };
    let story = Builder::new().add_program(program).build().expect("program must merge");
    let runner = StoryRunner::new(Library::builtins());
    let mut vars = MapVariableStore::new();
    let cp = story.checkpoint_at("Start").expect("start node exists");

    let (_, event) = runner.step(&story, cp, &mut vars).expect("fallback step");
    assert_eq!(
        event,
        StoryEvent::ShowLine { key: "line".to_string(), substitutions: vec!["cat".to_string()] }
    );

    // A set variable shadows the initial value.
    let mut vars = MapVariableStore::new();
    vars.set("$pet", Value::StringValue("dog".to_string()));
    let cp = story.checkpoint_at("Start").expect("start node exists");
    let (_, event) = runner.step(&story, cp, &mut vars).expect("shadowed step");
    assert_eq!(
        event,
        StoryEvent::ShowLine { key: "line".to_string(), substitutions: vec!["dog".to_string()] }
    );
}

#[test]
fn missing_variable_fails_with_context() {
    let story = single_node_story(
        vec![instr(PUSH_VARIABLE, vec![op_str("$ghost")]), instr(STOP, vec![])],
        vec![],
    );
    let runner = StoryRunner::new(Library::builtins());
    let mut vars = MapVariableStore::new();
    let cp = story.checkpoint_at("Start").expect("start node exists");

    let err = runner.step(&story, cp, &mut vars).expect_err("variable is missing");
    assert_eq!(err.node, "Start");
    assert_eq!(err.pc, 0);
    assert_eq!(
        err.instruction,
        Some(instr(PUSH_VARIABLE, vec![op_str("$ghost")]))
    );
    assert!(matches!(
        err.source,
        InstructionError::Evaluation(fabula::model::ValueError::Missing)
    ));
}

#[test]
fn unknown_opcode_is_invalid_instruction() {
    let story = single_node_story(vec![instr(99, vec![])], vec![]);
    let runner = StoryRunner::new(Library::builtins());
    let mut vars = MapVariableStore::new();
    let cp = story.checkpoint_at("Start").expect("start node exists");

    let err = runner.step(&story, cp, &mut vars).expect_err("opcode is unknown");
    assert!(matches!(err.source, InstructionError::InvalidInstruction(99)));
}

#[test]
fn push_null_is_unsupported() {
    let story = single_node_story(vec![instr(PUSH_NULL, vec![])], vec![]);
    let runner = StoryRunner::new(Library::builtins());
    let mut vars = MapVariableStore::new();
    let cp = story.checkpoint_at("Start").expect("start node exists");

    let err = runner.step(&story, cp, &mut vars).expect_err("push-null is unsupported");
    assert!(matches!(
        err.source,
        InstructionError::UnsupportedInstruction(fabula::model::OpCode::PushNull)
    ));
}

#[test]
fn unknown_label_is_bad_node() {
    let story = single_node_story(
        vec![instr(JUMP_TO, vec![op_str("nowhere")]), instr(STOP, vec![])],
        vec![],
    );
    let runner = StoryRunner::new(Library::builtins());
    let mut vars = MapVariableStore::new();
    let cp = story.checkpoint_at("Start").expect("start node exists");

    let err = runner.step(&story, cp, &mut vars).expect_err("label is unknown");
    match err.source {
        InstructionError::BadNode(fabula::model::NodeError::InvalidLabel(name)) => {
            assert_eq!(name, "nowhere");
        }
        other => panic!("expected a label error, got {:?}", other),
    }
}

#[test]
fn run_node_jumps_to_another_node() {
    let start = Node {
        name: "Start".to_string(),
        instructions: vec![
            instr(PUSH_STRING, vec![op_str("Other")]),
            instr(RUN_NODE, vec![]),
        ],
        labels: vec![],
    };
    let other = Node {
        name: "Other".to_string(),
        instructions: vec![
            instr(RUN_LINE, vec![op_str("there"), op_num(0.0)]),
            instr(STOP, vec![]),
        ],
        labels: vec![],
    };
    let program = Program {
        nodes: vec![
            ("Start".to_string(), start),
            ("Other".to_string(), other),
        ],
        initial_values: vec![],
    };
    let story = Builder::new().add_program(program).build().expect("program must merge");
    let runner = StoryRunner::new(Library::builtins());
    let mut vars = MapVariableStore::new();
    let cp = story.checkpoint_at("Start").expect("start node exists");

    let (_, event) = runner.step(&story, cp, &mut vars).expect("cross-node step");
    assert_eq!(
        event,
        StoryEvent::ShowLine { key: "there".to_string(), substitutions: vec![] }
    );
}

#[test]
fn missing_run_node_target_is_bad_node() {
    let story = single_node_story(
        vec![
            instr(PUSH_STRING, vec![op_str("Nowhere")]),
            instr(RUN_NODE, vec![]),
        ],
        vec![],
    );
    let runner = StoryRunner::new(Library::builtins());
    let mut vars = MapVariableStore::new();
    let cp = story.checkpoint_at("Start").expect("start node exists");

    let err = runner.step(&story, cp, &mut vars).expect_err("target node is missing");
    match err.source {
        InstructionError::BadNode(fabula::model::NodeError::InvalidLabel(name)) => {
            assert_eq!(name, "Nowhere");
        }
        other => panic!("expected a node resolution error, got {:?}", other),
    }
}

#[test]
fn option_substitutions_are_popped_in_push_order() {
    let story = single_node_story(
        vec![
            instr(PUSH_STRING, vec![op_str("first")]),
            instr(PUSH_STRING, vec![op_str("second")]),
            instr(
                ADD_OPTION,
                vec![op_str("k"), op_str("T"), op_num(2.0)],
            ),
            instr(STOP, vec![]),
        ],
        vec![],
    );
    let runner = StoryRunner::new(Library::builtins());
    let mut vars = MapVariableStore::new();
    let cp = story.checkpoint_at("Start").expect("start node exists");

    let (_, event) = runner.step(&story, cp, &mut vars).expect("option step");
    assert_eq!(
        event,
        StoryEvent::AddOption {
            enabled: true,
            key: "k".to_string(),
            substitutions: vec!["first".to_string(), "second".to_string()],
            target: "T".to_string(),
        }
    );
}

#[test]
fn unknown_function_fails_the_call_step() {
    let story = single_node_story(
        vec![
            instr(PUSH_FLOAT, vec![op_num(0.0)]),
            instr(CALL_FUNC, vec![op_str("gone")]),
            instr(STOP, vec![]),
        ],
        vec![],
    );
    let runner = StoryRunner::new(Library::builtins());
    let mut vars = MapVariableStore::new();
    let cp = story.checkpoint_at("Start").expect("start node exists");

    let err = runner.step(&story, cp, &mut vars).expect_err("function is unknown");
    assert_eq!(err.pc, 1);
    match err.source {
        InstructionError::FunctionCall(fabula::function::CallError::UnknownFunction(name)) => {
            assert_eq!(name, "gone");
        }
        other => panic!("expected an unknown function error, got {:?}", other),
    }
}

#[test]
fn execute_push_and_pop_round_trip() {
    let story = single_node_story(vec![instr(STOP, vec![])], vec![]);
    let node = story.node("Start").expect("start node exists");
    let runner = StoryRunner::new(Library::builtins());
    let mut vars = MapVariableStore::new();
    let mut stack = EvaluationStack::new();

    let operands = vec![op_str("hello")];
    let outcome = runner
        .execute(&story, node, fabula::model::OpCode::PushString, &operands, &mut stack, &mut vars)
        .expect("push executes");
    assert!(matches!(outcome, (ControlFlow::Next, None)));
    let top = stack.pop_any().expect("pushed value is there");
    assert_eq!(top, Value::StringValue("hello".to_string()));
}

#[test]
fn disabled_option_pops_flag() {
    let story = single_node_story(
        vec![
            instr(PUSH_BOOL, vec![op_bool(false)]),
            instr(
                ADD_OPTION,
                vec![op_str("k"), op_str("T"), op_num(0.0), op_bool(true)],
            ),
            instr(STOP, vec![]),
        ],
        vec![],
    );
    let runner = StoryRunner::new(Library::builtins());
    let mut vars = MapVariableStore::new();
    let cp = story.checkpoint_at("Start").expect("start node exists");

    let (_, event) = runner.step(&story, cp, &mut vars).expect("option step");
    assert_eq!(
        event,
        StoryEvent::AddOption {
            enabled: false,
            key: "k".to_string(),
            substitutions: vec![],
            target: "T".to_string(),
        }
    );
}
