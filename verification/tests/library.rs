use fabula::function::{
    CallContext, CallError, Library, UntypedFunction,
};
use fabula::function::builtins::{visit_count_var_name, visited, visited_count};
use fabula::model::{Value, ValueKind};
use fabula::variables::{MapVariableStore, VariableStore};

struct Doubler;

impl UntypedFunction for Doubler {
    fn call(&self, _context: CallContext<'_>, args: Vec<Value>) -> Result<Value, CallError> {
        match args.as_slice() {
            [Value::NumberValue(bits)] => {
                let x = f32::from_bits(*bits);
                Ok(Value::NumberValue((x * 2.0).to_bits()))
            }
            [other] => Err(CallError::InvalidArguments(ValueKind::Number, other.clone())),
            _ => Err(CallError::InvalidArgumentCount(1, args.len())),
        }
    }
}

fn context_story() -> fabula::story::Story {
    let program = fabula::model::Program { nodes: vec![], initial_values: vec![] };
    fabula::story::Builder::new().add_program(program).build().expect("empty program merges")
}

fn call(
    library: &Library,
    name: &str,
    vars: &mut MapVariableStore,
    args: Vec<Value>,
) -> Result<Value, CallError> {
    let story = context_story();
    let node = fabula::model::Node {
        name: "ctx".to_string(),
        instructions: vec![],
        labels: vec![],
    };
    let context = CallContext { node: &node, story: &story };
    library.call(name.to_string(), context, vars, args)
}

#[test]
fn unknown_function_is_reported() {
    let library = Library::builtins();
    let mut vars = MapVariableStore::new();
    let r = call(&library, "no.such.function", &mut vars, vec![]);
    assert_eq!(
        r,
        Err(CallError::UnknownFunction("no.such.function".to_string()))
    );
}

#[test]
fn registered_function_is_dispatched() {
    let mut library = Library::builtins();
    library.register("double".to_string(), Doubler);
    let mut vars = MapVariableStore::new();
    let r = call(
        &library,
        "double",
        &mut vars,
        vec![Value::NumberValue(21.0f32.to_bits())],
    );
    assert_eq!(r, Ok(Value::NumberValue(42.0f32.to_bits())));
}

#[test]
fn registration_shadows_builtin() {
    let mut library = Library::builtins();
    library.register("Number.Add".to_string(), Doubler);
    let mut vars = MapVariableStore::new();
    let r = call(
        &library,
        "Number.Add",
        &mut vars,
        vec![Value::NumberValue(5.0f32.to_bits())],
    );
    assert_eq!(r, Ok(Value::NumberValue(10.0f32.to_bits())));
}

#[test]
fn builtin_add_checks_arity() {
    let library = Library::builtins();
    let mut vars = MapVariableStore::new();
    let r = call(
        &library,
        "Number.Add",
        &mut vars,
        vec![Value::NumberValue(1.0f32.to_bits())],
    );
    assert_eq!(r, Err(CallError::InvalidArgumentCount(2, 1)));
}

#[test]
fn builtin_add_checks_argument_kind() {
    let library = Library::builtins();
    let mut vars = MapVariableStore::new();
    let r = call(
        &library,
        "Number.Add",
        &mut vars,
        vec![Value::NumberValue(1.0f32.to_bits()), Value::BoolValue(true)],
    );
    assert_eq!(
        r,
        Err(CallError::InvalidArguments(ValueKind::Number, Value::BoolValue(true)))
    );
}

#[test]
fn builtin_booleans_behave() {
    let library = Library::builtins();
    let mut vars = MapVariableStore::new();
    let t = Value::BoolValue(true);
    let f = Value::BoolValue(false);
    assert_eq!(
        call(&library, "Bool.EqualTo", &mut vars, vec![t.clone(), f.clone()]),
        Ok(Value::BoolValue(false))
    );
    assert_eq!(
        call(&library, "Bool.EqualTo", &mut vars, vec![f.clone(), f.clone()]),
        Ok(Value::BoolValue(true))
    );
    assert_eq!(
        call(&library, "Bool.Not", &mut vars, vec![t.clone()]),
        Ok(Value::BoolValue(false))
    );
    assert_eq!(
        call(&library, "Bool.And", &mut vars, vec![t.clone(), f.clone()]),
        Ok(Value::BoolValue(false))
    );
    assert_eq!(
        call(&library, "Bool.And", &mut vars, vec![t.clone(), t.clone()]),
        Ok(Value::BoolValue(true))
    );
}

#[test]
fn builtin_add_matches_native_addition() {
    let library = Library::builtins();
    let mut vars = MapVariableStore::new();
    for (a, b) in [(3.0f32, 4.0f32), (0.1, 0.2), (-1.5, 0.25), (1e30, 1e30)] {
        let r = call(
            &library,
            "Number.Add",
            &mut vars,
            vec![
                Value::NumberValue(a.to_bits()),
                Value::NumberValue(b.to_bits()),
            ],
        );
        assert_eq!(r, Ok(Value::NumberValue((a + b).to_bits())));
    }
}

#[test]
fn builtin_rounding_matches_native_rounding() {
    let library = Library::builtins();
    let mut vars = MapVariableStore::new();
    for x in [1.5f32, -1.5, 2.0, -2.0, 0.3, -0.3] {
        let floored = call(&library, "floor", &mut vars, vec![Value::NumberValue(x.to_bits())]);
        assert_eq!(floored, Ok(Value::NumberValue(x.floor().to_bits())));
        let ceiled = call(&library, "ceil", &mut vars, vec![Value::NumberValue(x.to_bits())]);
        assert_eq!(ceiled, Ok(Value::NumberValue(x.ceil().to_bits())));
    }
}

#[test]
fn builtin_rounding_behaves() {
    let library = Library::builtins();
    let mut vars = MapVariableStore::new();
    assert_eq!(
        call(&library, "floor", &mut vars, vec![Value::NumberValue(1.7f32.to_bits())]),
        Ok(Value::NumberValue(1.0f32.to_bits()))
    );
    assert_eq!(
        call(&library, "ceil", &mut vars, vec![Value::NumberValue(1.2f32.to_bits())]),
        Ok(Value::NumberValue(2.0f32.to_bits()))
    );
    assert_eq!(
        call(&library, "floor", &mut vars, vec![Value::NumberValue((-1.2f32).to_bits())]),
        Ok(Value::NumberValue((-2.0f32).to_bits()))
    );
}

#[test]
fn visit_variable_name_is_prefixed() {
    assert_eq!(visit_count_var_name("Intro"), "$Yarn.Internal.Visiting.Intro");
}

#[test]
fn visited_count_defaults_to_zero() {
    let vars = MapVariableStore::new();
    assert_eq!(visited_count(&vars, "Intro"), 0);
    assert!(!visited(&vars, "Intro"));
}

#[test]
fn visited_sees_recorded_count() {
    let mut vars = MapVariableStore::new();
    vars.set(
        "$Yarn.Internal.Visiting.Intro",
        Value::NumberValue(2.0f32.to_bits()),
    );
    assert_eq!(f32::from_bits(visited_count(&vars, "Intro")), 2.0);
    assert!(visited(&vars, "Intro"));
    assert!(!visited(&vars, "Other"));
}
