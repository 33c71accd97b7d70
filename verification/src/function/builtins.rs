use vstd::prelude::*;

use crate::function::{Builtin, CallContext, CallError, CallErrV};
use crate::model::{values_view, FromValue, Value, ValueKind, ValueV};
use crate::num::{
    add_numbers, ceil_number, floor_number, number_ceil, number_floor, number_positive, number_sum,
    number_is_positive,
};
use crate::variables::VariableStore;

verus! {

/// The name of the visit-count variable for a node: the node's name under
/// a reserved prefix.
pub open spec fn visit_variable(node_name: Seq<char>) -> Seq<char> {
    "$Yarn.Internal.Visiting."@ + node_name
}

/// The name of the variable holding the visit count of the named node.
pub fn visit_count_var_name(node_name: &str) -> (r: String)
    ensures
        r@ == visit_variable(node_name@),
{
    let prefix = String::from_str("$Yarn.Internal.Visiting.");
    prefix.concat(node_name)
}

/// The visit count recorded for a node: the number bound to its
/// visit-count variable, or zero when the variable is unset or not a
/// number.
pub open spec fn visit_count_of<V: VariableStore>(store: V, node_name: Seq<char>) -> u32 {
    match store.lookup(visit_variable(node_name)) {
        Some(ValueV::VNumber(bits)) => bits,
        _ => 0,
    }
}

/// Get the number of times the node named by `name` has been visited, as
/// the bit pattern of a single-precision count.
pub fn visited_count<V: VariableStore>(variables: &V, name: &str) -> (r: u32)
    ensures
        r == visit_count_of(*variables, name@),
{
    let var_name = visit_count_var_name(name);
    match variables.get(var_name.as_str()) {
        Some(Value::NumberValue(bits)) => *bits,
        _ => 0,
    }
}

/// Check whether the node named by `name` has been visited before: its
/// visit count is strictly positive.
pub fn visited<V: VariableStore>(variables: &V, name: &str) -> (r: bool)
    ensures
        r == number_positive(visit_count_of(*variables, name@)),
{
    let count = visited_count(variables, name);
    number_is_positive(count)
}

/// What each built-in returns for a given argument list and variable
/// state: arity is checked first, then each argument's tag in order, and
/// the result is the built-in's value.  No built-in changes a variable.
pub open spec fn builtin_result<V: VariableStore>(
    b: Builtin,
    store: V,
    args: Seq<ValueV>,
) -> Result<ValueV, CallErrV> {
    match b {
        Builtin::Visited => if args.len() != 1 {
            Err(CallErrV::EInvalidArgumentCount(1, args.len() as int))
        } else {
            Ok(
                ValueV::VBool(
                    number_positive(
                        visit_count_of(store, <String as FromValue>::converted(args[0])),
                    ),
                ),
            )
        },
        Builtin::VisitedCount => if args.len() != 1 {
            Err(CallErrV::EInvalidArgumentCount(1, args.len() as int))
        } else {
            Ok(ValueV::VNumber(visit_count_of(store, <String as FromValue>::converted(args[0]))))
        },
        Builtin::Floor => if args.len() != 1 {
            Err(CallErrV::EInvalidArgumentCount(1, args.len() as int))
        } else if !(args[0] is VNumber) {
            Err(CallErrV::EInvalidArguments(ValueKind::Number, args[0]))
        } else {
            Ok(ValueV::VNumber(number_floor(args[0]->VNumber_0)))
        },
        Builtin::Ceil => if args.len() != 1 {
            Err(CallErrV::EInvalidArgumentCount(1, args.len() as int))
        } else if !(args[0] is VNumber) {
            Err(CallErrV::EInvalidArguments(ValueKind::Number, args[0]))
        } else {
            Ok(ValueV::VNumber(number_ceil(args[0]->VNumber_0)))
        },
        Builtin::BoolEqualTo => if args.len() != 2 {
            Err(CallErrV::EInvalidArgumentCount(2, args.len() as int))
        } else if !(args[0] is VBool) {
            Err(CallErrV::EInvalidArguments(ValueKind::Boolean, args[0]))
        } else if !(args[1] is VBool) {
            Err(CallErrV::EInvalidArguments(ValueKind::Boolean, args[1]))
        } else {
            Ok(ValueV::VBool(args[0]->VBool_0 == args[1]->VBool_0))
        },
        Builtin::BoolNot => if args.len() != 1 {
            Err(CallErrV::EInvalidArgumentCount(1, args.len() as int))
        } else if !(args[0] is VBool) {
            Err(CallErrV::EInvalidArguments(ValueKind::Boolean, args[0]))
        } else {
            Ok(ValueV::VBool(!(args[0]->VBool_0)))
        },
        Builtin::BoolAnd => if args.len() != 2 {
            Err(CallErrV::EInvalidArgumentCount(2, args.len() as int))
        } else if !(args[0] is VBool) {
            Err(CallErrV::EInvalidArguments(ValueKind::Boolean, args[0]))
        } else if !(args[1] is VBool) {
            Err(CallErrV::EInvalidArguments(ValueKind::Boolean, args[1]))
        } else {
            Ok(ValueV::VBool(args[0]->VBool_0 && args[1]->VBool_0))
        },
        Builtin::NumberAdd => if args.len() != 2 {
            Err(CallErrV::EInvalidArgumentCount(2, args.len() as int))
        } else if !(args[0] is VNumber) {
            Err(CallErrV::EInvalidArguments(ValueKind::Number, args[0]))
        } else if !(args[1] is VNumber) {
            Err(CallErrV::EInvalidArguments(ValueKind::Number, args[1]))
        } else {
            Ok(ValueV::VNumber(number_sum(args[0]->VNumber_0, args[1]->VNumber_0)))
        },
    }
}

/// Run a built-in on an argument list, leaving the variables unchanged
/// and returning exactly what its specification says.
pub fn call_builtin<V: VariableStore>(
    b: Builtin,
    context: CallContext<'_>,
    variables: &mut V,
    args: Vec<Value>,
) -> (r: Result<Value, CallError>)
    ensures
        forall|k: Seq<char>| #[trigger] final(variables).lookup(k) == old(variables).lookup(k),
        crate::function::call_result_view(r) == builtin_result(
            b,
            *old(variables),
            values_view(args@),
        ),
{
    let n = args.len();
    let mut args = args;
    match b {
        Builtin::Visited => {
            if n != 1 {
                return Err(CallError::InvalidArgumentCount(1, n));
            }
            // Conversion to text is total, so the failing arm cannot be
            // reached.
            let name = match String::from_value(args.remove(0)) {
                Ok(s) => s,
                Err(_) => {
                    proof {
                        assert(false);
                    }
                    return Err(CallError::InvalidArgumentCount(1, n));
                },
            };
            let result = visited(variables, name.as_str());
            Ok(Value::BoolValue(result))
        },
        Builtin::VisitedCount => {
            if n != 1 {
                return Err(CallError::InvalidArgumentCount(1, n));
            }
            // Conversion to text is total, so the failing arm cannot be
            // reached.
            let name = match String::from_value(args.remove(0)) {
                Ok(s) => s,
                Err(_) => {
                    proof {
                        assert(false);
                    }
                    return Err(CallError::InvalidArgumentCount(1, n));
                },
            };
            let count = visited_count(variables, name.as_str());
            Ok(Value::NumberValue(count))
        },
        Builtin::Floor => {
            if n != 1 {
                return Err(CallError::InvalidArgumentCount(1, n));
            }
            match args.remove(0) {
                Value::NumberValue(bits) => Ok(Value::NumberValue(floor_number(bits))),
                other => Err(CallError::InvalidArguments(ValueKind::Number, other)),
            }
        },
        Builtin::Ceil => {
            if n != 1 {
                return Err(CallError::InvalidArgumentCount(1, n));
            }
            match args.remove(0) {
                Value::NumberValue(bits) => Ok(Value::NumberValue(ceil_number(bits))),
                other => Err(CallError::InvalidArguments(ValueKind::Number, other)),
            }
        },
        Builtin::BoolEqualTo => {
            if n != 2 {
                return Err(CallError::InvalidArgumentCount(2, n));
            }
            let first = args.remove(0);
            let second = args.remove(0);
            match (first, second) {
                (Value::BoolValue(a), Value::BoolValue(c)) => Ok(Value::BoolValue(a == c)),
                (Value::BoolValue(_), other) => Err(
                    CallError::InvalidArguments(ValueKind::Boolean, other),
                ),
                (other, _) => Err(CallError::InvalidArguments(ValueKind::Boolean, other)),
            }
        },
        Builtin::BoolNot => {
            if n != 1 {
                return Err(CallError::InvalidArgumentCount(1, n));
            }
            match args.remove(0) {
                Value::BoolValue(a) => Ok(Value::BoolValue(!a)),
                other => Err(CallError::InvalidArguments(ValueKind::Boolean, other)),
            }
        },
        Builtin::BoolAnd => {
            if n != 2 {
                return Err(CallError::InvalidArgumentCount(2, n));
            }
            let first = args.remove(0);
            let second = args.remove(0);
            match (first, second) {
                (Value::BoolValue(a), Value::BoolValue(c)) => Ok(Value::BoolValue(a && c)),
                (Value::BoolValue(_), other) => Err(
                    CallError::InvalidArguments(ValueKind::Boolean, other),
                ),
                (other, _) => Err(CallError::InvalidArguments(ValueKind::Boolean, other)),
            }
        },
        Builtin::NumberAdd => {
            if n != 2 {
                return Err(CallError::InvalidArgumentCount(2, n));
            }
            let first = args.remove(0);
            let second = args.remove(0);
            match (first, second) {
                (Value::NumberValue(a), Value::NumberValue(c)) => Ok(
                    Value::NumberValue(add_numbers(a, c)),
                ),
                (Value::NumberValue(_), other) => Err(
                    CallError::InvalidArguments(ValueKind::Number, other),
                ),
                (other, _) => Err(CallError::InvalidArguments(ValueKind::Number, other)),
            }
        },
    }
}

} // verus!
