use vstd::prelude::*;

use crate::model::{assoc, assoc_find, pair_seq_view, Node, Value, ValueKind, ValueV};
use crate::story::Story;
use crate::variables::VariableStore;

pub mod builtins;

use builtins::{builtin_result, call_builtin};

verus! {

/// What a host function may consult while it runs: the node being
/// executed and the story it belongs to.  Variable access stays with the
/// verified built-ins, as the verifier cannot pass a mutable store
/// through a trait object.
pub struct CallContext<'r> {
    pub node: &'r Node,
    pub story: &'r Story,
}

/// Failure of a function call dispatched by the bytecode.
#[derive(Debug, PartialEq)]
pub enum CallError {
    /// No function of this name is registered.
    UnknownFunction(String),
    /// An argument's tag did not match the parameter's kind; carries the
    /// expected kind and the offending value.
    InvalidArguments(ValueKind, Value),
    /// The call supplied the wrong number of arguments; carries the
    /// expected and the actual count.
    InvalidArgumentCount(usize, usize),
}

pub enum CallErrV {
    EUnknownFunction(Seq<char>),
    EInvalidArguments(ValueKind, ValueV),
    EInvalidArgumentCount(int, int),
}

impl View for CallError {
    type V = CallErrV;

    open spec fn view(&self) -> CallErrV {
        match self {
            CallError::UnknownFunction(s) => CallErrV::EUnknownFunction(s@),
            CallError::InvalidArguments(k, v) => CallErrV::EInvalidArguments(*k, v@),
            CallError::InvalidArgumentCount(e, a) => CallErrV::EInvalidArgumentCount(
                *e as int,
                *a as int,
            ),
        }
    }
}

/// The view of a call's outcome.
pub open spec fn call_result_view(r: Result<Value, CallError>) -> Result<ValueV, CallErrV> {
    match r {
        Ok(v) => Ok(v@),
        Err(e) => Err(e@),
    }
}

/// A function that can be registered with and called by scripts running
/// in the runtime.  Implementations destructure the argument list
/// themselves and surface typed errors.
///
/// A host function sees the node and the story but not the variable
/// store: the verifier cannot pass a mutable store through a trait
/// object, so reading and writing variables is reserved to the verified
/// built-ins.
pub trait UntypedFunction {
    fn call(&self, context: CallContext<'_>, args: Vec<Value>) -> Result<Value, CallError>;
}

/// The functions the runtime itself provides; each carries an exact,
/// verified contract.
#[derive(Clone, Copy, PartialEq, Eq, Structural, Debug)]
pub enum Builtin {
    Visited,
    VisitedCount,
    Floor,
    Ceil,
    BoolEqualTo,
    BoolNot,
    BoolAnd,
    NumberAdd,
}

/// A registered callable: a built-in of the runtime, or a host function
/// behind a trait object.
pub enum FunctionHandle {
    Builtin(Builtin),
    Host(Box<dyn UntypedFunction>),
}

/// The mathematical shape of a handle; host functions are opaque.
pub enum HandleV {
    HBuiltin(Builtin),
    HHost,
}

impl View for FunctionHandle {
    type V = HandleV;

    open spec fn view(&self) -> HandleV {
        match self {
            FunctionHandle::Builtin(b) => HandleV::HBuiltin(*b),
            FunctionHandle::Host(_) => HandleV::HHost,
        }
    }
}

/// Relies on Rust's unsizing coercion from a concrete function type to a
/// trait object, which the verifier cannot follow.
#[verifier::external_body]
fn host_handle<F: UntypedFunction + 'static>(function: F) -> (h: FunctionHandle)
    ensures
        h@ == HandleV::HHost,
{
    FunctionHandle::Host(Box::new(function))
}

/// The binding each name receives from [`Library::builtins`].
pub open spec fn builtin_binding(name: Seq<char>) -> Option<HandleV> {
    if name == "visited"@ {
        Some(HandleV::HBuiltin(Builtin::Visited))
    } else if name == "visited_count"@ {
        Some(HandleV::HBuiltin(Builtin::VisitedCount))
    } else if name == "floor"@ {
        Some(HandleV::HBuiltin(Builtin::Floor))
    } else if name == "ceil"@ {
        Some(HandleV::HBuiltin(Builtin::Ceil))
    } else if name == "Bool.EqualTo"@ {
        Some(HandleV::HBuiltin(Builtin::BoolEqualTo))
    } else if name == "Bool.Not"@ {
        Some(HandleV::HBuiltin(Builtin::BoolNot))
    } else if name == "Bool.And"@ {
        Some(HandleV::HBuiltin(Builtin::BoolAnd))
    } else if name == "Number.Add"@ {
        Some(HandleV::HBuiltin(Builtin::NumberAdd))
    } else {
        None
    }
}

/// A registry mapping names to callables; the bytecode's `CallFunc`
/// dispatches through it.  Registration is the extension surface for
/// embedders.
pub struct Library {
    functions: Vec<(String, FunctionHandle)>,
}

impl Default for Library {
    /// The default registry is the built-in set.
    fn default() -> (r: Self)
        ensures
            forall|k: Seq<char>| #[trigger] r.lookup(k) == builtin_binding(k),
    {
        Library::builtins()
    }
}

impl Library {
    /// The handle a name is bound to, if any.
    pub closed spec fn lookup(&self, name: Seq<char>) -> Option<HandleV> {
        assoc(pair_seq_view(self.functions@), name)
    }

    /// An empty registry.
    pub fn new() -> (r: Self)
        ensures
            forall|k: Seq<char>| #[trigger] r.lookup(k) is None,
    {
        let lib = Library { functions: Vec::new() };
        proof {
            assert(pair_seq_view(lib.functions@) =~= Seq::<(Seq<char>, HandleV)>::empty());
        }
        lib
    }

    /// Bind a name to a handle; the newest binding for a name wins.
    fn insert_handle(&mut self, name: String, handle: FunctionHandle)
        ensures
            forall|k: Seq<char>|
                #[trigger] final(self).lookup(k) == if k == name@ {
                    Some(handle@)
                } else {
                    old(self).lookup(k)
                },
    {
        let ghost h = handle@;
        self.functions.insert(0, (name, handle));
        proof {
            assert(pair_seq_view(self.functions@).drop_first() =~= pair_seq_view(
                old(self).functions@,
            ));
            assert(pair_seq_view(self.functions@)[0].1 == h);
        }
    }

    /// Register a host function under a name; a later registration of the
    /// same name replaces it.
    pub fn register<F: UntypedFunction + 'static>(&mut self, name: String, function: F)
        ensures
            forall|k: Seq<char>|
                #[trigger] final(self).lookup(k) == if k == name@ {
                    Some(HandleV::HHost)
                } else {
                    old(self).lookup(k)
                },
    {
        let handle = host_handle(function);
        self.insert_handle(name, handle);
    }

    /// A registry seeded with the mandatory built-ins: visit queries,
    /// rounding, boolean operators and numeric addition.
    pub fn builtins() -> (r: Self)
        ensures
            forall|k: Seq<char>| #[trigger] r.lookup(k) == builtin_binding(k),
    {
        let mut library = Library::new();
        library.insert_handle(
            String::from_str("visited"),
            FunctionHandle::Builtin(Builtin::Visited),
        );
        library.insert_handle(
            String::from_str("visited_count"),
            FunctionHandle::Builtin(Builtin::VisitedCount),
        );
        library.insert_handle(String::from_str("floor"), FunctionHandle::Builtin(Builtin::Floor));
        library.insert_handle(String::from_str("ceil"), FunctionHandle::Builtin(Builtin::Ceil));
        library.insert_handle(
            String::from_str("Bool.EqualTo"),
            FunctionHandle::Builtin(Builtin::BoolEqualTo),
        );
        library.insert_handle(
            String::from_str("Bool.Not"),
            FunctionHandle::Builtin(Builtin::BoolNot),
        );
        library.insert_handle(
            String::from_str("Bool.And"),
            FunctionHandle::Builtin(Builtin::BoolAnd),
        );
        library.insert_handle(
            String::from_str("Number.Add"),
            FunctionHandle::Builtin(Builtin::NumberAdd),
        );
        proof {
            reveal_strlit("visited");
            reveal_strlit("visited_count");
            reveal_strlit("floor");
            reveal_strlit("ceil");
            reveal_strlit("Bool.EqualTo");
            reveal_strlit("Bool.Not");
            reveal_strlit("Bool.And");
            reveal_strlit("Number.Add");
            assert(("visited"@).len() == 7);
            assert(("visited_count"@).len() == 13);
            assert(("floor"@).len() == 5);
            assert(("ceil"@).len() == 4);
            assert(("Bool.EqualTo"@).len() == 12);
            assert(("Bool.Not"@).len() == 8);
            assert(("Bool.And"@).len() == 8);
            assert(("Number.Add"@).len() == 10);
            assert("visited"@ != "visited_count"@);
            assert("visited"@ != "floor"@);
            assert("visited"@ != "ceil"@);
            assert("visited"@ != "Bool.EqualTo"@);
            assert("visited"@ != "Bool.Not"@);
            assert("visited"@ != "Bool.And"@);
            assert("visited"@ != "Number.Add"@);
            assert("visited_count"@ != "floor"@);
            assert("visited_count"@ != "ceil"@);
            assert("visited_count"@ != "Bool.EqualTo"@);
            assert("visited_count"@ != "Bool.Not"@);
            assert("visited_count"@ != "Bool.And"@);
            assert("visited_count"@ != "Number.Add"@);
            assert("floor"@ != "ceil"@);
            assert("floor"@ != "Bool.EqualTo"@);
            assert("floor"@ != "Bool.Not"@);
            assert("floor"@ != "Bool.And"@);
            assert("floor"@ != "Number.Add"@);
            assert("ceil"@ != "Bool.EqualTo"@);
            assert("ceil"@ != "Bool.Not"@);
            assert("ceil"@ != "Bool.And"@);
            assert("ceil"@ != "Number.Add"@);
            assert("Bool.EqualTo"@ != "Bool.Not"@);
            assert("Bool.EqualTo"@ != "Bool.And"@);
            assert("Bool.EqualTo"@ != "Number.Add"@);
            assert(("Bool.Not"@)[5] != ("Bool.And"@)[5]);
            assert("Bool.Not"@ != "Bool.And"@);
            assert("Bool.Not"@ != "Number.Add"@);
            assert("Bool.And"@ != "Number.Add"@);
        }
        library
    }

    /// Call the function registered under `name` with the given argument
    /// list.  Fails `UnknownFunction` exactly when the name is not
    /// registered; a built-in behaves as its specification says and
    /// leaves the variables unchanged; a host function's result is its
    /// own.
    pub fn call<V: VariableStore>(
        &self,
        name: String,
        context: CallContext<'_>,
        variables: &mut V,
        args: Vec<Value>,
    ) -> (r: Result<Value, CallError>)
        ensures
            forall|k: Seq<char>|
                #[trigger] final(variables).lookup(k) == old(variables).lookup(k),
            match self.lookup(name@) {
                None => (r matches Err(e) && e@ == CallErrV::EUnknownFunction(name@)),
                Some(h) => h matches HandleV::HBuiltin(b) ==> call_result_view(r)
                    == builtin_result(b, *old(variables), crate::model::values_view(args@)),
            },
    {
        match assoc_find(&self.functions, &name) {
            None => Err(CallError::UnknownFunction(name)),
            Some(handle) => match handle {
                FunctionHandle::Builtin(b) => call_builtin(*b, context, variables, args),
                FunctionHandle::Host(f) => f.call(context, args),
            },
        }
    }
}

} // verus!
