use vstd::prelude::*;

use crate::function::builtins::builtin_result;
use crate::function::{CallContext, CallError, CallErrV, HandleV, Library};
use crate::model::{
    assoc, opcode_from, FromValue, Instruction, IntoValue, Node, NodeError, NodeV, OpCode,
    Operand, Operands, ProgramV, Value, ValueError, ValueErrorV, ValueV,
};
use crate::story::Story;
use crate::variables::VariableStore;

verus! {

/// An event generated by stepping through instructions, informing the
/// embedder how the narrative is unfolding.
#[derive(Debug, PartialEq)]
pub enum StoryEvent {
    Started,
    AddOption { enabled: bool, key: String, substitutions: Vec<String>, target: String },
    ShowOptions,
    ShowLine { key: String, substitutions: Vec<String> },
    Command(String),
    Complete,
}

/// The mathematical shape of a [`StoryEvent`].
pub enum EventV {
    EStarted,
    EAddOption { enabled: bool, key: Seq<char>, substitutions: Seq<Seq<char>>, target: Seq<char> },
    EShowOptions,
    EShowLine { key: Seq<char>, substitutions: Seq<Seq<char>> },
    ECommand(Seq<char>),
    EComplete,
}

/// The views of a list of substitution strings.
pub open spec fn strings_view(s: Seq<String>) -> Seq<Seq<char>> {
    Seq::new(s.len(), |i: int| s[i]@)
}

impl View for StoryEvent {
    type V = EventV;

    open spec fn view(&self) -> EventV {
        match self {
            StoryEvent::Started => EventV::EStarted,
            StoryEvent::AddOption { enabled, key, substitutions, target } => EventV::EAddOption {
                enabled: *enabled,
                key: key@,
                substitutions: strings_view(substitutions@),
                target: target@,
            },
            StoryEvent::ShowOptions => EventV::EShowOptions,
            StoryEvent::ShowLine { key, substitutions } => EventV::EShowLine {
                key: key@,
                substitutions: strings_view(substitutions@),
            },
            StoryEvent::Command(s) => EventV::ECommand(s@),
            StoryEvent::Complete => EventV::EComplete,
        }
    }
}

/// The value stack: a LIFO of values whose view indexes the bottom at
/// zero, so the top is the last element.
#[derive(Debug)]
pub struct EvaluationStack {
    values: Vec<Value>,
}

impl View for EvaluationStack {
    type V = Seq<ValueV>;

    closed spec fn view(&self) -> Seq<ValueV> {
        Seq::new(self.values@.len(), |i: int| self.values@[i]@)
    }
}

impl EvaluationStack {
    /// An empty stack.
    pub fn new() -> (r: Self)
        ensures
            r@ =~= Seq::<ValueV>::empty(),
    {
        EvaluationStack { values: Vec::new() }
    }

    /// Remove and return the top value; fails `Missing` on an empty stack.
    pub fn pop_any(&mut self) -> (r: Result<Value, ValueError>)
        ensures
            old(self)@.len() == 0 ==> (r matches Err(e) && e@ == ValueErrorV::EMissing
                && final(self)@ == old(self)@),
            old(self)@.len() > 0 ==> (r matches Ok(v) && v@ == old(self)@.last() && final(self)@
                =~= old(self)@.drop_last()),
    {
        match self.values.pop() {
            Some(v) => {
                proof {
                    assert(final(self)@ =~= old(self)@.drop_last());
                    assert(v@ == old(self)@.last());
                }
                Ok(v)
            },
            None => Err(ValueError::Missing),
        }
    }

    /// Observe the top value without consuming it; fails `Missing` on an
    /// empty stack.
    pub fn peek_any(&mut self) -> (r: Result<Value, ValueError>)
        ensures
            final(self)@ == old(self)@,
            old(self)@.len() == 0 ==> (r matches Err(e) && e@ == ValueErrorV::EMissing),
            old(self)@.len() > 0 ==> (r matches Ok(v) && v@ == old(self)@.last()),
    {
        let n = self.values.len();
        if n == 0 {
            Err(ValueError::Missing)
        } else {
            Ok(self.values[n - 1].clone())
        }
    }

    /// Observe the top value as a `T` without consuming it.
    pub fn peek<T: FromValue>(&mut self) -> (r: Result<T, ValueError>)
        ensures
            final(self)@ == old(self)@,
            old(self)@.len() == 0 ==> (r matches Err(e) && e@ == ValueErrorV::EMissing),
            old(self)@.len() > 0 ==> {
                let v = old(self)@.last();
                &&& T::accepts(v) ==> (r matches Ok(x) && x@ == T::converted(v))
                &&& !T::accepts(v) ==> (r matches Err(e) && e@ == ValueErrorV::EUnexpectedType(
                    T::kind(),
                    v,
                ))
            },
    {
        let n = self.values.len();
        if n == 0 {
            Err(ValueError::Missing)
        } else {
            T::from_value(self.values[n - 1].clone())
        }
    }

    /// Remove the top value and return it as a `T`.  On an empty stack it
    /// fails `Missing`; on a tag mismatch the value is consumed and the
    /// conversion's error is surfaced.
    pub fn pop<T: FromValue>(&mut self) -> (r: Result<T, ValueError>)
        ensures
            old(self)@.len() == 0 ==> (r matches Err(e) && e@ == ValueErrorV::EMissing
                && final(self)@ == old(self)@),
            old(self)@.len() > 0 ==> {
                let v = old(self)@.last();
                &&& final(self)@ =~= old(self)@.drop_last()
                &&& T::accepts(v) ==> (r matches Ok(x) && x@ == T::converted(v))
                &&& !T::accepts(v) ==> (r matches Err(e) && e@ == ValueErrorV::EUnexpectedType(
                    T::kind(),
                    v,
                ))
            },
    {
        match self.values.pop() {
            Some(v) => {
                proof {
                    assert(final(self)@ =~= old(self)@.drop_last());
                    assert(v@ == old(self)@.last());
                }
                T::from_value(v)
            },
            None => Err(ValueError::Missing),
        }
    }

    /// Push a value onto the stack.
    pub fn push<T: IntoValue>(&mut self, value: T)
        ensures
            final(self)@ =~= old(self)@.push(T::wrapped(value@)),
    {
        let v = value.into_value();
        self.values.push(v);
        proof {
            assert(final(self)@ =~= old(self)@.push(T::wrapped(value@)));
        }
    }
}

/// Clone the values of a stack, preserving its view.
fn clone_stack(src: &EvaluationStack) -> (r: EvaluationStack)
    ensures
        r@ == src@,
{
    let mut values: Vec<Value> = Vec::new();
    let n = src.values.len();
    let mut i: usize = 0;
    while i < n
        invariant
            n == src.values.len(),
            i <= n,
            values@.len() == i,
            forall|j: int| 0 <= j < i ==> (#[trigger] values@[j])@ == src.values@[j]@,
        decreases n - i,
    {
        values.push(src.values[i].clone());
        i += 1;
    }
    let r = EvaluationStack { values };
    proof {
        assert(r@ =~= src@);
    }
    r
}

impl Clone for EvaluationStack {
    fn clone(&self) -> (r: Self)
        ensures
            r@ == self@,
    {
        clone_stack(self)
    }
}

/// An addressable point in a story: the current node, the offset of the
/// next instruction within it, and the value stack at that point.  It can
/// be saved and later resumed.
#[derive(Debug)]
pub struct StoryCheckpoint<'r> {
    node: &'r Node,
    node_instruction_offset: usize,
    stack: EvaluationStack,
}

/// The mathematical shape of a checkpoint.
pub struct CheckpointV {
    pub node: NodeV,
    pub offset: nat,
    pub stack: Seq<ValueV>,
}

impl<'r> View for StoryCheckpoint<'r> {
    type V = CheckpointV;

    closed spec fn view(&self) -> CheckpointV {
        CheckpointV {
            node: self.node@,
            offset: self.node_instruction_offset as nat,
            stack: self.stack@,
        }
    }
}

impl<'r> StoryCheckpoint<'r> {
    /// A checkpoint inside a node, carrying a stack.
    fn at(node: &'r Node, pc: usize, stack: EvaluationStack) -> (r: Self)
        ensures
            r@.node == node@,
            r@.offset == pc as nat,
            r@.stack == stack@,
    {
        StoryCheckpoint { node, node_instruction_offset: pc, stack }
    }

    /// A fresh checkpoint at the start of a node, with an empty stack.
    pub fn new(node: &'r Node) -> (r: StoryCheckpoint<'r>)
        ensures
            r@.node == node@,
            r@.offset == 0,
            r@.stack =~= Seq::<ValueV>::empty(),
    {
        StoryCheckpoint { node, node_instruction_offset: 0, stack: EvaluationStack::new() }
    }

    /// Communicate a chosen option to the interpreter by pushing its
    /// target name onto the resumable stack; the jump that follows a
    /// `ShowOptions` hand-off consumes it.
    pub fn select_option(&mut self, name: String)
        ensures
            final(self)@.node == old(self)@.node,
            final(self)@.offset == old(self)@.offset,
            final(self)@.stack =~= old(self)@.stack.push(ValueV::VString(name@)),
    {
        self.stack.push(name);
    }
}

impl<'r> Clone for StoryCheckpoint<'r> {
    fn clone(&self) -> (r: Self)
        ensures
            r@ == self@,
    {
        StoryCheckpoint {
            node: self.node,
            node_instruction_offset: self.node_instruction_offset,
            stack: self.stack.clone(),
        }
    }
}

// ---------------------------------------------------------------------
// Errors of a step
// ---------------------------------------------------------------------

/// An error that occurred while interpreting one instruction.
#[derive(Debug, PartialEq)]
pub enum InstructionError {
    /// Label or node resolution failed.
    BadNode(NodeError),
    /// The instruction's integer opcode is not one the machine knows.
    InvalidInstruction(i32),
    /// A known opcode the machine deliberately does not implement.
    UnsupportedInstruction(OpCode),
    /// Dispatching a function call failed.
    FunctionCall(CallError),
    /// A stack, operand or variable access failed.
    Evaluation(ValueError),
}

/// The mathematical shape of an instruction error.
pub enum InstrErrV {
    VBadNode(Seq<char>),
    VInvalidInstruction(int),
    VUnsupportedInstruction(OpCode),
    VFunctionCall(CallErrV),
    VEvaluation(ValueErrorV),
}

impl View for InstructionError {
    type V = InstrErrV;

    open spec fn view(&self) -> InstrErrV {
        match self {
            InstructionError::BadNode(NodeError::InvalidLabel(s)) => InstrErrV::VBadNode(s@),
            InstructionError::InvalidInstruction(c) => InstrErrV::VInvalidInstruction(*c as int),
            InstructionError::UnsupportedInstruction(op) => InstrErrV::VUnsupportedInstruction(
                *op,
            ),
            InstructionError::FunctionCall(e) => InstrErrV::VFunctionCall(e@),
            InstructionError::Evaluation(e) => InstrErrV::VEvaluation(e@),
        }
    }
}

/// An error of a whole step, wrapped with the offending position: the
/// node's name, the instruction offset, and the instruction itself, which
/// is absent exactly when the offset had run past the end of the node.
#[derive(Debug)]
pub struct StoryRunnerError {
    pub source: InstructionError,
    pub node: String,
    pub pc: usize,
    pub instruction: Option<Instruction>,
}

// ---------------------------------------------------------------------
// The meaning of one instruction
// ---------------------------------------------------------------------

/// Where execution continues after an instruction: the next offset in the
/// same node, or a given offset in a given node.
pub enum ControlFlow<'a> {
    Next,
    Jump(&'a Node, usize),
}

/// The mathematical shape of a control-flow decision.
pub enum FlowV {
    Next,
    Jump(NodeV, int),
}

/// The operand at `index`, read as a `T`, as the operand list's typed
/// accessor reads it.
pub open spec fn operand_as<T: FromValue>(opv: Seq<Option<ValueV>>, index: int) -> Result<
    T::V,
    ValueErrorV,
> {
    if index >= opv.len() || opv[index] is None {
        Err(ValueErrorV::EMissing)
    } else if T::accepts(opv[index]->0) {
        Ok(T::converted(opv[index]->0))
    } else {
        Err(ValueErrorV::EUnexpectedType(T::kind(), opv[index]->0))
    }
}

/// The top of the stack read as a `T`, together with the remaining stack.
pub open spec fn stack_pop_as<T: FromValue>(stack: Seq<ValueV>) -> Result<
    (T::V, Seq<ValueV>),
    ValueErrorV,
> {
    if stack.len() == 0 {
        Err(ValueErrorV::EMissing)
    } else if T::accepts(stack.last()) {
        Ok((T::converted(stack.last()), stack.drop_last()))
    } else {
        Err(ValueErrorV::EUnexpectedType(T::kind(), stack.last()))
    }
}

/// Pop `n` strings off the stack; the result lists them deepest first,
/// restoring the order in which they were pushed.
pub open spec fn pop_strings(stack: Seq<ValueV>, n: nat) -> Result<
    (Seq<Seq<char>>, Seq<ValueV>),
    ValueErrorV,
>
    decreases n,
{
    if n == 0 {
        Ok((Seq::empty(), stack))
    } else {
        match stack_pop_as::<String>(stack) {
            Err(e) => Err(e),
            Ok((s, rest)) => match pop_strings(rest, (n - 1) as nat) {
                Err(e) => Err(e),
                Ok((ss, rest2)) => Ok((ss.push(s), rest2)),
            },
        }
    }
}

/// Pop `n` values off the stack; the result lists them deepest first,
/// restoring call order.
pub open spec fn pop_values(stack: Seq<ValueV>, n: nat) -> Result<
    (Seq<ValueV>, Seq<ValueV>),
    ValueErrorV,
>
    decreases n,
{
    if n == 0 {
        Ok((Seq::empty(), stack))
    } else if stack.len() == 0 {
        Err(ValueErrorV::EMissing)
    } else {
        match pop_values(stack.drop_last(), (n - 1) as nat) {
            Err(e) => Err(e),
            Ok((vs, rest2)) => Ok((vs.push(stack.last()), rest2)),
        }
    }
}

/// The decimal digits of a number, most significant first.
pub open spec fn dec_rep(n: nat) -> Seq<char>
    decreases n,
{
    if n < 10 {
        seq![digit_char(n)]
    } else {
        dec_rep(n / 10).push(digit_char(n % 10))
    }
}

/// The character for one decimal digit.
pub open spec fn digit_char(d: nat) -> char {
    if d == 0 {
        '0'
    } else if d == 1 {
        '1'
    } else if d == 2 {
        '2'
    } else if d == 3 {
        '3'
    } else if d == 4 {
        '4'
    } else if d == 5 {
        '5'
    } else if d == 6 {
        '6'
    } else if d == 7 {
        '7'
    } else if d == 8 {
        '8'
    } else {
        '9'
    }
}

/// The placeholder a command template writes for argument `k`: the
/// decimal index between braces.
pub open spec fn placeholder(k: nat) -> Seq<char> {
    seq!['{'] + dec_rep(k) + seq!['}']
}

/// Replace every occurrence of `pat` in `text` with `rep`, left to right
/// and without overlap, as the standard string replacement does.
pub open spec fn replace_all(text: Seq<char>, pat: Seq<char>, rep: Seq<char>) -> Seq<char>
    decreases text.len(),
    when pat.len() > 0
{
    if text.len() < pat.len() {
        text
    } else if text.take(pat.len() as int) == pat {
        rep + replace_all(text.skip(pat.len() as int), pat, rep)
    } else {
        seq![text[0]] + replace_all(text.drop_first(), pat, rep)
    }
}

/// Pop one command argument for each index from `i - 1` down to zero and
/// substitute it for the index's placeholder in the command text.
pub open spec fn run_command(text: Seq<char>, stack: Seq<ValueV>, i: nat) -> Result<
    (Seq<char>, Seq<ValueV>),
    ValueErrorV,
>
    decreases i,
{
    if i == 0 {
        Ok((text, stack))
    } else {
        match stack_pop_as::<String>(stack) {
            Err(e) => Err(e),
            Ok((s, rest)) => run_command(
                replace_all(text, placeholder((i - 1) as nat), s),
                rest,
                (i - 1) as nat,
            ),
        }
    }
}

// ---------------------------------------------------------------------
// The per-opcode transition relation
// ---------------------------------------------------------------------

/// Two variable states agree on every name.
pub open spec fn vars_same<V: VariableStore>(a: V, b: V) -> bool {
    forall|k: Seq<char>| #[trigger] b.lookup(k) == a.lookup(k)
}

/// The second variable state is the first with one name bound to a value.
pub open spec fn vars_set<V: VariableStore>(a: V, b: V, name: Seq<char>, v: ValueV) -> bool {
    forall|k: Seq<char>|
        #[trigger] b.lookup(k) == if k == name {
            Some(v)
        } else {
            a.lookup(k)
        }
}

/// What one instruction does, per opcode: how the outcome, the stack
/// after, and the variables after relate to the state before.  An error
/// aborts the step, so the checkpoint is not advanced; the variables are
/// never changed by a failing instruction, and the stack after a failure
/// is still pinned: reads that pop nothing leave it unchanged, a typed
/// pop that mismatches consumes the one value, and a failing bulk pop has
/// consumed everything.
pub open spec fn execute_rel<V: VariableStore>(
    story: ProgramV,
    node: NodeV,
    op: OpCode,
    opv: Seq<Option<ValueV>>,
    lib: Library,
    vars0: V,
    vars1: V,
    stack0: Seq<ValueV>,
    stack1: Seq<ValueV>,
    r: Result<(FlowV, Option<EventV>), InstrErrV>,
) -> bool {
    &&& (r is Err ==> vars_same(vars0, vars1))
    &&& match op {
        OpCode::JumpTo => {
            &&& vars_same(vars0, vars1)
            &&& match operand_as::<String>(opv, 0) {
                Err(e) => r == Err::<(FlowV, Option<EventV>), _>(InstrErrV::VEvaluation(e))
                    && stack1 == stack0,
                Ok(label) => match assoc(node.labels, label) {
                    Some(pc) => r == Ok::<_, InstrErrV>(
                        (FlowV::Jump(node, pc as int), None::<EventV>),
                    ) && stack1 == stack0,
                    None => r == Err::<(FlowV, Option<EventV>), _>(InstrErrV::VBadNode(label))
                        && stack1 == stack0,
                },
            }
        },
        OpCode::Jump => {
            &&& vars_same(vars0, vars1)
            &&& match stack_pop_as::<String>(stack0) {
                Err(e) => r == Err::<(FlowV, Option<EventV>), _>(InstrErrV::VEvaluation(e))
                    && stack1 == stack0,
                Ok((label, rest)) => match assoc(node.labels, label) {
                    Some(pc) => r == Ok::<_, InstrErrV>(
                        (FlowV::Jump(node, pc as int), None::<EventV>),
                    ) && stack1 == rest,
                    None => r == Err::<(FlowV, Option<EventV>), _>(InstrErrV::VBadNode(label))
                        && stack1 == rest,
                },
            }
        },
        OpCode::RunLine => {
            &&& vars_same(vars0, vars1)
            &&& match operand_as::<String>(opv, 0) {
                Err(e) => r == Err::<(FlowV, Option<EventV>), _>(InstrErrV::VEvaluation(e))
                    && stack1 == stack0,
                Ok(key) => if opv.len() > 1 {
                    match operand_as::<u32>(opv, 1) {
                        Err(e) => r == Err::<(FlowV, Option<EventV>), _>(
                            InstrErrV::VEvaluation(e),
                        ) && stack1 == stack0,
                        Ok(bits) => match pop_strings(stack0, crate::num::number_count(bits)) {
                            Err(e) => r == Err::<(FlowV, Option<EventV>), _>(
                                InstrErrV::VEvaluation(e),
                            ) && stack1 == Seq::<ValueV>::empty(),
                            Ok((subs, rest)) => r == Ok::<_, InstrErrV>(
                                (
                                    FlowV::Next,
                                    Some(EventV::EShowLine { key, substitutions: subs }),
                                ),
                            ) && stack1 == rest,
                        },
                    }
                } else {
                    r == Ok::<_, InstrErrV>(
                        (
                            FlowV::Next,
                            Some(
                                EventV::EShowLine {
                                    key,
                                    substitutions: Seq::<Seq<char>>::empty(),
                                },
                            ),
                        ),
                    ) && stack1 == stack0
                },
            }
        },
        OpCode::RunCommand => {
            &&& vars_same(vars0, vars1)
            &&& match operand_as::<String>(opv, 0) {
                Err(e) => r == Err::<(FlowV, Option<EventV>), _>(InstrErrV::VEvaluation(e))
                    && stack1 == stack0,
                Ok(text) => if opv.len() > 1 {
                    match operand_as::<u32>(opv, 1) {
                        Err(e) => r == Err::<(FlowV, Option<EventV>), _>(
                            InstrErrV::VEvaluation(e),
                        ) && stack1 == stack0,
                        Ok(bits) => match run_command(
                            text,
                            stack0,
                            crate::num::number_count(bits),
                        ) {
                            Err(e) => r == Err::<(FlowV, Option<EventV>), _>(
                                InstrErrV::VEvaluation(e),
                            ) && stack1 == Seq::<ValueV>::empty(),
                            Ok((out, rest)) => r == Ok::<_, InstrErrV>(
                                (FlowV::Next, Some(EventV::ECommand(out))),
                            ) && stack1 == rest,
                        },
                    }
                } else {
                    r == Ok::<_, InstrErrV>((FlowV::Next, Some(EventV::ECommand(text))))
                        && stack1 == stack0
                },
            }
        },
        OpCode::AddOption => {
            &&& vars_same(vars0, vars1)
            &&& match operand_as::<String>(opv, 0) {
                Err(e) => r == Err::<(FlowV, Option<EventV>), _>(InstrErrV::VEvaluation(e))
                    && stack1 == stack0,
                Ok(key) => match operand_as::<String>(opv, 1) {
                    Err(e) => r == Err::<(FlowV, Option<EventV>), _>(InstrErrV::VEvaluation(e))
                        && stack1 == stack0,
                    Ok(target) => add_option_rel(opv, stack0, stack1, r, key, target),
                },
            }
        },
        OpCode::ShowOptions => {
            &&& vars_same(vars0, vars1)
            &&& r == Ok::<_, InstrErrV>((FlowV::Next, Some(EventV::EShowOptions)))
            &&& stack1 == stack0
        },
        OpCode::PushString => {
            &&& vars_same(vars0, vars1)
            &&& match operand_as::<String>(opv, 0) {
                Err(e) => r == Err::<(FlowV, Option<EventV>), _>(InstrErrV::VEvaluation(e))
                    && stack1 == stack0,
                Ok(text) => r == Ok::<_, InstrErrV>((FlowV::Next, None::<EventV>)) && stack1
                    == stack0.push(ValueV::VString(text)),
            }
        },
        OpCode::PushFloat => {
            &&& vars_same(vars0, vars1)
            &&& match operand_as::<u32>(opv, 0) {
                Err(e) => r == Err::<(FlowV, Option<EventV>), _>(InstrErrV::VEvaluation(e))
                    && stack1 == stack0,
                Ok(bits) => r == Ok::<_, InstrErrV>((FlowV::Next, None::<EventV>)) && stack1
                    == stack0.push(ValueV::VNumber(bits)),
            }
        },
        OpCode::PushBool => {
            &&& vars_same(vars0, vars1)
            &&& match operand_as::<bool>(opv, 0) {
                Err(e) => r == Err::<(FlowV, Option<EventV>), _>(InstrErrV::VEvaluation(e))
                    && stack1 == stack0,
                Ok(b) => r == Ok::<_, InstrErrV>((FlowV::Next, None::<EventV>)) && stack1
                    == stack0.push(ValueV::VBool(b)),
            }
        },
        OpCode::PushNull => {
            &&& vars_same(vars0, vars1)
            &&& r == Err::<(FlowV, Option<EventV>), _>(
                InstrErrV::VUnsupportedInstruction(OpCode::PushNull),
            )
            &&& stack1 == stack0
        },
        OpCode::JumpIfFalse => {
            &&& vars_same(vars0, vars1)
            &&& if stack0.len() == 0 {
                r == Err::<(FlowV, Option<EventV>), _>(
                    InstrErrV::VEvaluation(ValueErrorV::EMissing),
                ) && stack1 == stack0
            } else if !(stack0.last() is VBool) {
                r == Err::<(FlowV, Option<EventV>), _>(
                    InstrErrV::VEvaluation(
                        ValueErrorV::EUnexpectedType(
                            crate::model::ValueKind::Boolean,
                            stack0.last(),
                        ),
                    ),
                ) && stack1 == stack0
            } else if stack0.last()->VBool_0 {
                r == Ok::<_, InstrErrV>((FlowV::Next, None::<EventV>)) && stack1 == stack0
            } else {
                match operand_as::<String>(opv, 0) {
                    Err(e) => r == Err::<(FlowV, Option<EventV>), _>(
                        InstrErrV::VEvaluation(e),
                    ) && stack1 == stack0,
                    Ok(label) => match assoc(node.labels, label) {
                        Some(pc) => r == Ok::<_, InstrErrV>(
                            (FlowV::Jump(node, pc as int), None::<EventV>),
                        ) && stack1 == stack0,
                        None => r == Err::<(FlowV, Option<EventV>), _>(
                            InstrErrV::VBadNode(label),
                        ) && stack1 == stack0,
                    },
                }
            }
        },
        OpCode::Pop => {
            &&& vars_same(vars0, vars1)
            &&& if stack0.len() == 0 {
                r == Err::<(FlowV, Option<EventV>), _>(
                    InstrErrV::VEvaluation(ValueErrorV::EMissing),
                ) && stack1 == stack0
            } else {
                r == Ok::<_, InstrErrV>((FlowV::Next, None::<EventV>)) && stack1
                    == stack0.drop_last()
            }
        },
        OpCode::CallFunc => {
            match operand_as::<String>(opv, 0) {
                Err(e) => r == Err::<(FlowV, Option<EventV>), _>(InstrErrV::VEvaluation(e))
                    && vars_same(vars0, vars1) && stack1 == stack0,
                Ok(name) => match stack_pop_as::<u32>(stack0) {
                    Err(e) => r == Err::<(FlowV, Option<EventV>), _>(InstrErrV::VEvaluation(e))
                        && vars_same(vars0, vars1) && stack1 == (if e is EMissing {
                        stack0
                    } else {
                        stack0.drop_last()
                    }),
                    Ok((bits, s1)) => match pop_values(s1, crate::num::number_count(bits)) {
                        Err(e) => r == Err::<(FlowV, Option<EventV>), _>(
                            InstrErrV::VEvaluation(e),
                        ) && vars_same(vars0, vars1) && stack1 == Seq::<ValueV>::empty(),
                        Ok((args, s2)) => {
                            &&& vars_same(vars0, vars1)
                            &&& match lib.lookup(name) {
                                None => r == Err::<(FlowV, Option<EventV>), _>(
                                    InstrErrV::VFunctionCall(CallErrV::EUnknownFunction(name)),
                                ) && stack1 == s2,
                                Some(HandleV::HBuiltin(b)) => match builtin_result(
                                    b,
                                    vars0,
                                    args,
                                ) {
                                    Ok(v) => r == Ok::<_, InstrErrV>(
                                        (FlowV::Next, None::<EventV>),
                                    ) && stack1 == s2.push(v),
                                    Err(ce) => r == Err::<(FlowV, Option<EventV>), _>(
                                        InstrErrV::VFunctionCall(ce),
                                    ) && stack1 == s2,
                                },
                                Some(HandleV::HHost) => (r matches Err(e) && e is VFunctionCall
                                    && stack1 == s2) || (r == Ok::<_, InstrErrV>(
                                    (FlowV::Next, None::<EventV>),
                                ) && (exists|v: ValueV| stack1 == s2.push(v))),
                            }
                        },
                    },
                },
            }
        },
        OpCode::PushVariable => {
            &&& vars_same(vars0, vars1)
            &&& match operand_as::<String>(opv, 0) {
                Err(e) => r == Err::<(FlowV, Option<EventV>), _>(InstrErrV::VEvaluation(e))
                    && stack1 == stack0,
                Ok(name) => match vars0.lookup(name) {
                    Some(v) => r == Ok::<_, InstrErrV>((FlowV::Next, None::<EventV>)) && stack1
                        == stack0.push(v),
                    None => match assoc(story.initial_values, name) {
                        Some(v) => r == Ok::<_, InstrErrV>((FlowV::Next, None::<EventV>))
                            && stack1 == stack0.push(v),
                        None => r == Err::<(FlowV, Option<EventV>), _>(
                            InstrErrV::VEvaluation(ValueErrorV::EMissing),
                        ) && stack1 == stack0,
                    },
                },
            }
        },
        OpCode::StoreVariable => {
            if stack0.len() == 0 {
                &&& r == Err::<(FlowV, Option<EventV>), _>(
                    InstrErrV::VEvaluation(ValueErrorV::EMissing),
                )
                &&& stack1 == stack0
                &&& vars_same(vars0, vars1)
            } else {
                match operand_as::<String>(opv, 0) {
                    Err(e) => r == Err::<(FlowV, Option<EventV>), _>(InstrErrV::VEvaluation(e))
                        && vars_same(vars0, vars1) && stack1 == stack0,
                    Ok(name) => {
                        &&& r == Ok::<_, InstrErrV>((FlowV::Next, None::<EventV>))
                        &&& stack1 == stack0
                        &&& vars_set(vars0, vars1, name, stack0.last())
                    },
                }
            }
        },
        OpCode::Stop => {
            &&& vars_same(vars0, vars1)
            &&& r == Ok::<_, InstrErrV>((FlowV::Next, Some(EventV::EComplete)))
            &&& stack1 == stack0
        },
        OpCode::RunNode => {
            &&& vars_same(vars0, vars1)
            &&& match stack_pop_as::<String>(stack0) {
                Err(e) => r == Err::<(FlowV, Option<EventV>), _>(InstrErrV::VEvaluation(e))
                    && stack1 == stack0,
                Ok((name, rest)) => match assoc(story.nodes, name) {
                    Some(n2) => r == Ok::<_, InstrErrV>(
                        (FlowV::Jump(n2, 0), None::<EventV>),
                    ) && stack1 == rest,
                    None => r == Err::<(FlowV, Option<EventV>), _>(InstrErrV::VBadNode(name))
                        && stack1 == rest,
                },
            }
        },
    }
}

/// The tail of the `AddOption` contract, after key and target have been
/// read: optional substitutions, then an optional enabled flag popped
/// from the stack.
pub open spec fn add_option_rel(
    opv: Seq<Option<ValueV>>,
    stack0: Seq<ValueV>,
    stack1: Seq<ValueV>,
    r: Result<(FlowV, Option<EventV>), InstrErrV>,
    key: Seq<char>,
    target: Seq<char>,
) -> bool {
    if opv.len() > 2 {
        match operand_as::<u32>(opv, 2) {
            Err(e) => r == Err::<(FlowV, Option<EventV>), _>(InstrErrV::VEvaluation(e))
                && stack1 == stack0,
            Ok(bits) => match pop_strings(stack0, crate::num::number_count(bits)) {
                Err(e) => r == Err::<(FlowV, Option<EventV>), _>(InstrErrV::VEvaluation(e))
                    && stack1 == Seq::<ValueV>::empty(),
                Ok((subs, s1)) => add_option_enabled_rel(opv, s1, stack1, r, key, target, subs),
            },
        }
    } else {
        add_option_enabled_rel(opv, stack0, stack1, r, key, target, Seq::empty())
    }
}

/// The last leg of the `AddOption` contract: when a fourth operand is
/// present and true, the enabled flag is popped from the stack;
/// otherwise the option is enabled.
pub open spec fn add_option_enabled_rel(
    opv: Seq<Option<ValueV>>,
    s1: Seq<ValueV>,
    stack1: Seq<ValueV>,
    r: Result<(FlowV, Option<EventV>), InstrErrV>,
    key: Seq<char>,
    target: Seq<char>,
    subs: Seq<Seq<char>>,
) -> bool {
    let emitted = |enabled: bool, s2: Seq<ValueV>|
        {
            r == Ok::<(FlowV, Option<EventV>), InstrErrV>(
                (
                    FlowV::Next,
                    Some(EventV::EAddOption { enabled, key, substitutions: subs, target }),
                ),
            ) && stack1 == s2
        };
    if opv.len() > 3 {
        match operand_as::<bool>(opv, 3) {
            Err(e) => r == Err::<(FlowV, Option<EventV>), _>(InstrErrV::VEvaluation(e))
                && stack1 == s1,
            Ok(true) => match stack_pop_as::<bool>(s1) {
                Err(e) => r == Err::<(FlowV, Option<EventV>), _>(InstrErrV::VEvaluation(e))
                    && stack1 == (if e is EMissing {
                    s1
                } else {
                    s1.drop_last()
                }),
                Ok((enabled, s2)) => emitted(enabled, s2),
            },
            Ok(false) => emitted(true, s1),
        }
    } else {
        emitted(true, s1)
    }
}

// ---------------------------------------------------------------------
// Command-text substitution
// ---------------------------------------------------------------------

/// Relies on String::push: appends exactly one character.
#[verifier::external_body]
fn push_char(s: &mut String, c: char)
    ensures
        final(s)@ == old(s)@.push(c),
{
    s.push(c);
}

/// One decimal digit as a character.
fn digit_char_of(d: usize) -> (r: char)
    requires
        d < 10,
    ensures
        r == digit_char(d as nat),
{
    if d == 0 {
        '0'
    } else if d == 1 {
        '1'
    } else if d == 2 {
        '2'
    } else if d == 3 {
        '3'
    } else if d == 4 {
        '4'
    } else if d == 5 {
        '5'
    } else if d == 6 {
        '6'
    } else if d == 7 {
        '7'
    } else if d == 8 {
        '8'
    } else {
        '9'
    }
}

/// The decimal rendering of a machine integer.
fn usize_to_text(n: usize) -> (r: String)
    ensures
        r@ == dec_rep(n as nat),
    decreases n,
{
    if n < 10 {
        let mut s = String::new();
        push_char(&mut s, digit_char_of(n));
        proof {
            assert(s@ =~= dec_rep(n as nat));
        }
        s
    } else {
        let mut s = usize_to_text(n / 10);
        push_char(&mut s, digit_char_of(n % 10));
        proof {
            assert(s@ =~= dec_rep(n as nat));
        }
        s
    }
}

/// The placeholder for command argument `k`: its decimal index between
/// braces.
fn make_placeholder(k: usize) -> (r: String)
    ensures
        r@ == placeholder(k as nat),
{
    let mut s = String::new();
    push_char(&mut s, '{');
    let digits = usize_to_text(k);
    let mut s = s.concat(digits.as_str());
    push_char(&mut s, '}');
    proof {
        assert(s@ =~= placeholder(k as nat));
    }
    s
}

/// Whether the pattern occurs at a position of the text.
fn matches_at(text: &str, tlen: usize, i: usize, pat: &str, plen: usize) -> (r: bool)
    requires
        tlen == text@.len(),
        plen == pat@.len(),
        i <= tlen,
    ensures
        r == (i + plen <= tlen && text@.skip(i as int).take(plen as int) == pat@),
{
    if plen > tlen - i {
        return false;
    }
    let mut j: usize = 0;
    while j < plen
        invariant
            tlen == text@.len(),
            plen == pat@.len(),
            i + plen <= tlen,
            j <= plen,
            forall|x: int| 0 <= x < j ==> text@[i + x] == pat@[x],
        decreases plen - j,
    {
        if text.get_char(i + j) != pat.get_char(j) {
            proof {
                assert(text@.skip(i as int).take(plen as int)[j as int] != pat@[j as int]);
            }
            return false;
        }
        j += 1;
    }
    proof {
        assert(text@.skip(i as int).take(plen as int) =~= pat@);
    }
    true
}

/// Replace every occurrence of `pat` in `text` with `rep`, left to right
/// and without overlap.
fn replace_str(text: &str, pat: &str, rep: &str) -> (r: String)
    requires
        pat@.len() > 0,
    ensures
        r@ == replace_all(text@, pat@, rep@),
{
    let tlen = text.unicode_len();
    let plen = pat.unicode_len();
    let mut out = String::new();
    let mut i: usize = 0;
    proof {
        assert(text@.skip(0) =~= text@);
    }
    while i < tlen
        invariant
            tlen == text@.len(),
            plen == pat@.len(),
            plen > 0,
            i <= tlen,
            replace_all(text@, pat@, rep@) == out@ + replace_all(
                text@.skip(i as int),
                pat@,
                rep@,
            ),
        decreases tlen - i,
    {
        let ghost out_pre = out@;
        if matches_at(text, tlen, i, pat, plen) {
            out = out.concat(rep);
            proof {
                assert(text@.skip(i as int).skip(plen as int) =~= text@.skip(i as int + plen));
                assert(replace_all(text@.skip(i as int), pat@, rep@) == rep@ + replace_all(
                    text@.skip(i as int + plen),
                    pat@,
                    rep@,
                ));
                assert(out@ + replace_all(text@.skip(i as int + plen), pat@, rep@) =~= out_pre
                    + replace_all(text@.skip(i as int), pat@, rep@));
            }
            i += plen;
        } else {
            let c = text.get_char(i);
            push_char(&mut out, c);
            proof {
                let suffix = text@.skip(i as int);
                assert(suffix.len() >= 1);
                if suffix.len() >= plen {
                    assert(suffix.take(plen as int) != pat@);
                }
                assert(suffix[0] == text@[i as int]);
                assert(suffix.drop_first() =~= text@.skip(i as int + 1));
                assert(replace_all(suffix, pat@, rep@) == seq![text@[i as int]] + replace_all(
                    text@.skip(i as int + 1),
                    pat@,
                    rep@,
                ));
                assert(out@ + replace_all(text@.skip(i as int + 1), pat@, rep@) =~= out_pre
                    + replace_all(suffix, pat@, rep@));
            }
            i += 1;
        }
    }
    proof {
        assert(text@.skip(tlen as int) =~= Seq::<char>::empty());
        assert(replace_all(Seq::<char>::empty(), pat@, rep@) == Seq::<char>::empty());
        assert(out@ =~= replace_all(text@, pat@, rep@));
    }
    out
}

// ---------------------------------------------------------------------
// Popping argument lists
// ---------------------------------------------------------------------

/// Pop `count` strings off the stack into a list in push order, as the
/// substitution arguments of a line or option are gathered.
fn pop_string_args(stack: &mut EvaluationStack, count: usize) -> (r: Result<
    Vec<String>,
    ValueError,
>)
    ensures
        match pop_strings(old(stack)@, count as nat) {
            Ok(p) => r matches Ok(v) && strings_view(v@) == p.0 && final(stack)@ == p.1,
            Err(e) => r matches Err(er) && er@ == e && final(stack)@ == Seq::<ValueV>::empty(),
        },
{
    let ghost s0 = stack@;
    let mut subs: Vec<String> = Vec::new();
    let mut k: usize = 0;
    proof {
        assert(strings_view(subs@) =~= Seq::<Seq<char>>::empty());
    }
    while k < count
        invariant
            s0 == old(stack)@,
            k <= count,
            pop_strings(s0, count as nat) == (match pop_strings(stack@, (count - k) as nat) {
                Ok(p) => Ok::<(Seq<Seq<char>>, Seq<ValueV>), ValueErrorV>(
                    (p.0 + strings_view(subs@), p.1),
                ),
                Err(e) => Err::<(Seq<Seq<char>>, Seq<ValueV>), ValueErrorV>(e),
            }),
        decreases count - k,
    {
        let ghost st_pre = stack@;
        let ghost subs_pre = subs@;
        match stack.pop::<String>() {
            Ok(s) => {
                let ghost sv = s@;
                subs.insert(0, s);
                proof {
                    assert(strings_view(subs@) =~= seq![sv] + strings_view(subs_pre));
                    assert(stack_pop_as::<String>(st_pre) == Ok::<
                        (Seq<char>, Seq<ValueV>),
                        ValueErrorV,
                    >((sv, stack@)));
                    match pop_strings(stack@, (count - k - 1) as nat) {
                        Ok(p) => {
                            assert(pop_strings(st_pre, (count - k) as nat) == Ok::<
                                (Seq<Seq<char>>, Seq<ValueV>),
                                ValueErrorV,
                            >((p.0.push(sv), p.1)));
                            assert(p.0.push(sv) + strings_view(subs_pre) =~= p.0 + (seq![sv]
                                + strings_view(subs_pre)));
                        },
                        Err(e) => {
                            assert(pop_strings(st_pre, (count - k) as nat) == Err::<
                                (Seq<Seq<char>>, Seq<ValueV>),
                                ValueErrorV,
                            >(e));
                        },
                    }
                }
                k += 1;
            },
            Err(e) => {
                proof {
                    assert(stack_pop_as::<String>(st_pre) == Err::<
                        (Seq<char>, Seq<ValueV>),
                        ValueErrorV,
                    >(e@));
                    assert(pop_strings(st_pre, (count - k) as nat) == Err::<
                        (Seq<Seq<char>>, Seq<ValueV>),
                        ValueErrorV,
                    >(e@));
                }
                return Err(e);
            },
        }
    }
    proof {
        assert(pop_strings(stack@, 0) == Ok::<(Seq<Seq<char>>, Seq<ValueV>), ValueErrorV>(
            (Seq::empty(), stack@),
        ));
        assert(Seq::<Seq<char>>::empty() + strings_view(subs@) =~= strings_view(subs@));
    }
    Ok(subs)
}

/// Pop `count` values off the stack into a list in push order, as the
/// arguments of a function call are gathered.
fn pop_value_args(stack: &mut EvaluationStack, count: usize) -> (r: Result<Vec<Value>, ValueError>)
    ensures
        match pop_values(old(stack)@, count as nat) {
            Ok(p) => r matches Ok(v) && crate::model::values_view(v@) == p.0 && final(stack)@
                == p.1,
            Err(e) => r matches Err(er) && er@ == e && final(stack)@ == Seq::<ValueV>::empty(),
        },
{
    let ghost s0 = stack@;
    let mut args: Vec<Value> = Vec::new();
    let mut k: usize = 0;
    proof {
        assert(crate::model::values_view(args@) =~= Seq::<ValueV>::empty());
    }
    while k < count
        invariant
            s0 == old(stack)@,
            k <= count,
            pop_values(s0, count as nat) == (match pop_values(stack@, (count - k) as nat) {
                Ok(p) => Ok::<(Seq<ValueV>, Seq<ValueV>), ValueErrorV>(
                    (p.0 + crate::model::values_view(args@), p.1),
                ),
                Err(e) => Err::<(Seq<ValueV>, Seq<ValueV>), ValueErrorV>(e),
            }),
        decreases count - k,
    {
        let ghost st_pre = stack@;
        let ghost args_pre = args@;
        match stack.pop_any() {
            Ok(v) => {
                let ghost vv = v@;
                args.insert(0, v);
                proof {
                    assert(crate::model::values_view(args@) =~= seq![vv]
                        + crate::model::values_view(args_pre));
                    match pop_values(stack@, (count - k - 1) as nat) {
                        Ok(p) => {
                            assert(pop_values(st_pre, (count - k) as nat) == Ok::<
                                (Seq<ValueV>, Seq<ValueV>),
                                ValueErrorV,
                            >((p.0.push(vv), p.1)));
                            assert(p.0.push(vv) + crate::model::values_view(args_pre) =~= p.0 + (
                            seq![vv] + crate::model::values_view(args_pre)));
                        },
                        Err(e) => {
                            assert(pop_values(st_pre, (count - k) as nat) == Err::<
                                (Seq<ValueV>, Seq<ValueV>),
                                ValueErrorV,
                            >(e));
                        },
                    }
                }
                k += 1;
            },
            Err(e) => {
                proof {
                    assert(st_pre.len() == 0);
                    assert(pop_values(st_pre, (count - k) as nat) == Err::<
                        (Seq<ValueV>, Seq<ValueV>),
                        ValueErrorV,
                    >(e@));
                }
                return Err(e);
            },
        }
    }
    proof {
        assert(pop_values(stack@, 0) == Ok::<(Seq<ValueV>, Seq<ValueV>), ValueErrorV>(
            (Seq::empty(), stack@),
        ));
        assert(Seq::<ValueV>::empty() + crate::model::values_view(args@)
            =~= crate::model::values_view(args@));
    }
    Ok(args)
}

/// Pop one argument for each placeholder index, highest first, and
/// substitute each into the command text.
fn run_command_exec(text: &str, stack: &mut EvaluationStack, count: usize) -> (r: Result<
    String,
    ValueError,
>)
    ensures
        match run_command(text@, old(stack)@, count as nat) {
            Ok(p) => r matches Ok(s) && s@ == p.0 && final(stack)@ == p.1,
            Err(e) => r matches Err(er) && er@ == e && final(stack)@ == Seq::<ValueV>::empty(),
        },
{
    let ghost s0 = stack@;
    let mut cur: String = text.to_owned();
    let mut i: usize = count;
    while i > 0
        invariant
            s0 == old(stack)@,
            run_command(text@, s0, count as nat) == run_command(cur@, stack@, i as nat),
            i <= count,
        decreases i,
    {
        i -= 1;
        let ghost st_pre = stack@;
        let ghost tx_pre = cur@;
        match stack.pop::<String>() {
            Ok(s) => {
                proof {
                    assert(stack_pop_as::<String>(st_pre) == Ok::<
                        (Seq<char>, Seq<ValueV>),
                        ValueErrorV,
                    >((s@, stack@)));
                    assert(placeholder(i as nat).len() > 0);
                }
                let ph = make_placeholder(i);
                cur = replace_str(cur.as_str(), ph.as_str(), s.as_str());
                proof {
                    assert(run_command(tx_pre, st_pre, (i + 1) as nat) == run_command(
                        cur@,
                        stack@,
                        i as nat,
                    ));
                }
            },
            Err(e) => {
                proof {
                    assert(stack_pop_as::<String>(st_pre) == Err::<
                        (Seq<char>, Seq<ValueV>),
                        ValueErrorV,
                    >(e@));
                    assert(run_command(tx_pre, st_pre, (i + 1) as nat) == Err::<
                        (Seq<char>, Seq<ValueV>),
                        ValueErrorV,
                    >(e@));
                }
                return Err(e);
            },
        }
    }
    proof {
        assert(run_command(cur@, stack@, 0) == Ok::<(Seq<char>, Seq<ValueV>), ValueErrorV>(
            (cur@, stack@),
        ));
    }
    Ok(cur)
}

// ---------------------------------------------------------------------
// The step engine
// ---------------------------------------------------------------------

/// The view of an instruction's outcome as the interpreter returns it.
pub open spec fn outcome_of(r: Result<(ControlFlow<'_>, Option<StoryEvent>), InstructionError>) -> Result<
    (FlowV, Option<EventV>),
    InstrErrV,
> {
    match r {
        Ok((ControlFlow::Next, ev)) => Ok(
            (
                FlowV::Next,
                match ev {
                    Some(e) => Some(e@),
                    None => None,
                },
            ),
        ),
        Ok((ControlFlow::Jump(n, pc), ev)) => Ok(
            (
                FlowV::Jump(n@, pc as int),
                match ev {
                    Some(e) => Some(e@),
                    None => None,
                },
            ),
        ),
        Err(e) => Err(e@),
    }
}

/// A node is one of the story's nodes.
pub open spec fn in_story(story: ProgramV, nv: NodeV) -> bool {
    exists|k: Seq<char>| #[trigger] assoc(story.nodes, k) == Some(nv)
}

/// A point in a run of the machine: the current node, the offset of the
/// next instruction within it, the stack, and the variable state.
pub struct RunState<V> {
    pub node: NodeV,
    pub offset: int,
    pub stack: Seq<ValueV>,
    pub vars: V,
}

/// One executed instruction of a run: the instruction at the first
/// state's offset decodes, executes successfully with this event under
/// [`execute_rel`], and its control flow threads to the second state.
pub open spec fn step_once<V: VariableStore>(
    story: ProgramV,
    lib: Library,
    s1: RunState<V>,
    s2: RunState<V>,
    ev: Option<EventV>,
) -> bool {
    &&& 0 <= s1.offset < s1.node.instructions.len()
    &&& match opcode_from(s1.node.instructions[s1.offset].opcode) {
        Some(op) => exists|flow: FlowV|
            {
                &&& #[trigger] execute_rel(
                    story,
                    s1.node,
                    op,
                    s1.node.instructions[s1.offset].operands,
                    lib,
                    s1.vars,
                    s2.vars,
                    s1.stack,
                    s2.stack,
                    Ok::<(FlowV, Option<EventV>), InstrErrV>((flow, ev)),
                )
                &&& match flow {
                    FlowV::Next => s2.node == s1.node && s2.offset == s1.offset + 1,
                    FlowV::Jump(n2, pc2) => s2.node == n2 && s2.offset == pc2,
                }
            },
        None => false,
    }
}

/// A run of `n` silent instructions: each executes without error and
/// without emitting an event, threading node, offset, stack and
/// variables from the first state to the second.
pub open spec fn silent_run<V: VariableStore>(
    story: ProgramV,
    lib: Library,
    s1: RunState<V>,
    s2: RunState<V>,
    n: nat,
) -> bool
    decreases n,
{
    if n == 0 {
        s1 == s2
    } else {
        exists|mid: RunState<V>|
            silent_run(story, lib, s1, mid, (n - 1) as nat) && #[trigger] step_once(
                story,
                lib,
                mid,
                s2,
                None::<EventV>,
            )
    }
}

/// The registry dispatches no host functions: every binding is a
/// built-in, whose behaviour is fully specified.
pub open spec fn no_hosts(lib: Library) -> bool {
    forall|name: Seq<char>| !(#[trigger] lib.lookup(name) matches Some(HandleV::HHost))
}

/// Two run states agree on everything observable: node, offset, stack,
/// and the value of every variable.
pub open spec fn state_equiv<V: VariableStore>(a: RunState<V>, b: RunState<V>) -> bool {
    &&& a.node == b.node
    &&& a.offset == b.offset
    &&& a.stack == b.stack
    &&& vars_same(a.vars, b.vars)
}

/// A silent run extends by one more silent instruction.
pub proof fn lemma_silent_run_snoc<V: VariableStore>(
    story: ProgramV,
    lib: Library,
    s1: RunState<V>,
    mid: RunState<V>,
    s2: RunState<V>,
    n: nat,
)
    requires
        silent_run(story, lib, s1, mid, n),
        step_once(story, lib, mid, s2, None::<EventV>),
    ensures
        silent_run(story, lib, s1, s2, n + 1),
{
    assert(silent_run(story, lib, s1, mid, ((n + 1) - 1) as nat));
}

/// A non-empty silent run starts with one silent instruction followed by
/// the rest of the run.
pub proof fn lemma_silent_run_uncons<V: VariableStore>(
    story: ProgramV,
    lib: Library,
    s1: RunState<V>,
    s2: RunState<V>,
    n: nat,
)
    requires
        silent_run(story, lib, s1, s2, n),
        n > 0,
    ensures
        exists|first: RunState<V>|
            #[trigger] step_once(story, lib, s1, first, None::<EventV>) && silent_run(
                story,
                lib,
                first,
                s2,
                (n - 1) as nat,
            ),
    decreases n,
{
    let mid = choose|mid: RunState<V>|
        silent_run(story, lib, s1, mid, (n - 1) as nat) && #[trigger] step_once(
            story,
            lib,
            mid,
            s2,
            None::<EventV>,
        );
    if n == 1 {
        assert(mid == s1);
        assert(silent_run(story, lib, s2, s2, 0));
    } else {
        lemma_silent_run_uncons(story, lib, s1, mid, (n - 1) as nat);
        let first = choose|first: RunState<V>|
            #[trigger] step_once(story, lib, s1, first, None::<EventV>) && silent_run(
                story,
                lib,
                first,
                mid,
                (n - 2) as nat,
            );
        lemma_silent_run_snoc(story, lib, first, mid, s2, (n - 2) as nat);
        assert(silent_run(story, lib, first, s2, (n - 1) as nat));
    }
}

/// Instruction-level determinism up to variable equivalence: from states
/// that agree pointwise on variables, one instruction yields equal
/// outcomes, equal stacks, and pointwise-equal variables, provided the
/// library dispatches only built-ins.
pub proof fn lemma_execute_rel_equiv<V: VariableStore>(
    story: ProgramV,
    node: NodeV,
    op: OpCode,
    opv: Seq<Option<ValueV>>,
    lib: Library,
    vars0a: V,
    vars1a: V,
    vars0b: V,
    vars1b: V,
    stack0: Seq<ValueV>,
    stack1a: Seq<ValueV>,
    stack1b: Seq<ValueV>,
    ra: Result<(FlowV, Option<EventV>), InstrErrV>,
    rb: Result<(FlowV, Option<EventV>), InstrErrV>,
)
    requires
        no_hosts(lib),
        vars_same(vars0a, vars0b),
        execute_rel(story, node, op, opv, lib, vars0a, vars1a, stack0, stack1a, ra),
        execute_rel(story, node, op, opv, lib, vars0b, vars1b, stack0, stack1b, rb),
    ensures
        ra == rb,
        stack1a == stack1b,
        vars_same(vars1a, vars1b),
{
    match op {
        OpCode::CallFunc => {
            match operand_as::<String>(opv, 0) {
                Ok(name) => {
                    match stack_pop_as::<u32>(stack0) {
                        Ok((bits, s1)) => {
                            match pop_values(s1, crate::num::number_count(bits)) {
                                Ok((args, s2)) => {
                                    match lib.lookup(name) {
                                        Some(HandleV::HBuiltin(b)) => {
                                            assert(builtin_result(b, vars0a, args)
                                                == builtin_result(b, vars0b, args));
                                        },
                                        _ => {},
                                    }
                                },
                                Err(_) => {},
                            }
                        },
                        Err(_) => {},
                    }
                },
                Err(_) => {},
            }
        },
        _ => {},
    }
}

/// Checkpoint purity at the level of a whole step: from observably equal
/// starting points — same node, offset and stack, pointwise-equal
/// variables — two emitting runs take the same number of silent
/// instructions and end with the same event, the same position, the same
/// stack and pointwise-equal variables, provided the library dispatches
/// only built-ins.  In particular, stepping a clone of a checkpoint and
/// stepping the original from an equal variable state produce the same
/// outcome.
pub proof fn lemma_step_run_deterministic<V: VariableStore>(
    story: ProgramV,
    lib: Library,
    start_a: RunState<V>,
    start_b: RunState<V>,
    na: nat,
    mid_a: RunState<V>,
    end_a: RunState<V>,
    ev_a: EventV,
    nb: nat,
    mid_b: RunState<V>,
    end_b: RunState<V>,
    ev_b: EventV,
)
    requires
        no_hosts(lib),
        state_equiv(start_a, start_b),
        silent_run(story, lib, start_a, mid_a, na),
        step_once(story, lib, mid_a, end_a, Some(ev_a)),
        silent_run(story, lib, start_b, mid_b, nb),
        step_once(story, lib, mid_b, end_b, Some(ev_b)),
    ensures
        na == nb,
        ev_a == ev_b,
        end_a.node == end_b.node,
        end_a.offset == end_b.offset,
        end_a.stack == end_b.stack,
        vars_same(end_a.vars, end_b.vars),
    decreases na,
{
    if na == 0 && nb == 0 {
        assert(mid_a == start_a && mid_b == start_b);
        lemma_emit_equiv(story, lib, mid_a, mid_b, end_a, end_b, ev_a, ev_b);
    } else if na == 0 {
        assert(mid_a == start_a);
        lemma_silent_run_uncons(story, lib, start_b, mid_b, nb);
        let first_b = choose|first: RunState<V>|
            #[trigger] step_once(story, lib, start_b, first, None::<EventV>) && silent_run(
                story,
                lib,
                first,
                mid_b,
                (nb - 1) as nat,
            );
        lemma_silent_vs_emit(story, lib, start_a, start_b, end_a, first_b, ev_a);
    } else if nb == 0 {
        assert(mid_b == start_b);
        lemma_silent_run_uncons(story, lib, start_a, mid_a, na);
        let first_a = choose|first: RunState<V>|
            #[trigger] step_once(story, lib, start_a, first, None::<EventV>) && silent_run(
                story,
                lib,
                first,
                mid_a,
                (na - 1) as nat,
            );
        lemma_silent_vs_emit(story, lib, start_b, start_a, end_b, first_a, ev_b);
    } else {
        lemma_silent_run_uncons(story, lib, start_a, mid_a, na);
        lemma_silent_run_uncons(story, lib, start_b, mid_b, nb);
        let first_a = choose|first: RunState<V>|
            #[trigger] step_once(story, lib, start_a, first, None::<EventV>) && silent_run(
                story,
                lib,
                first,
                mid_a,
                (na - 1) as nat,
            );
        let first_b = choose|first: RunState<V>|
            #[trigger] step_once(story, lib, start_b, first, None::<EventV>) && silent_run(
                story,
                lib,
                first,
                mid_b,
                (nb - 1) as nat,
            );
        lemma_silent_equiv(story, lib, start_a, start_b, first_a, first_b);
        lemma_step_run_deterministic(
            story,
            lib,
            first_a,
            first_b,
            (na - 1) as nat,
            mid_a,
            end_a,
            ev_a,
            (nb - 1) as nat,
            mid_b,
            end_b,
            ev_b,
        );
    }
}

/// From equivalent states, two emitting instructions agree on the event
/// and land in equivalent states.
proof fn lemma_emit_equiv<V: VariableStore>(
    story: ProgramV,
    lib: Library,
    s_a: RunState<V>,
    s_b: RunState<V>,
    end_a: RunState<V>,
    end_b: RunState<V>,
    ev_a: EventV,
    ev_b: EventV,
)
    requires
        no_hosts(lib),
        state_equiv(s_a, s_b),
        step_once(story, lib, s_a, end_a, Some(ev_a)),
        step_once(story, lib, s_b, end_b, Some(ev_b)),
    ensures
        ev_a == ev_b,
        end_a.node == end_b.node,
        end_a.offset == end_b.offset,
        end_a.stack == end_b.stack,
        vars_same(end_a.vars, end_b.vars),
{
    let op = opcode_from(s_a.node.instructions[s_a.offset].opcode)->0;
    let flow_a = choose|flow: FlowV|
        #[trigger] execute_rel(
            story,
            s_a.node,
            op,
            s_a.node.instructions[s_a.offset].operands,
            lib,
            s_a.vars,
            end_a.vars,
            s_a.stack,
            end_a.stack,
            Ok::<(FlowV, Option<EventV>), InstrErrV>((flow, Some(ev_a))),
        );
    let flow_b = choose|flow: FlowV|
        #[trigger] execute_rel(
            story,
            s_b.node,
            op,
            s_b.node.instructions[s_b.offset].operands,
            lib,
            s_b.vars,
            end_b.vars,
            s_b.stack,
            end_b.stack,
            Ok::<(FlowV, Option<EventV>), InstrErrV>((flow, Some(ev_b))),
        );
    lemma_execute_rel_equiv(
        story,
        s_a.node,
        op,
        s_a.node.instructions[s_a.offset].operands,
        lib,
        s_a.vars,
        end_a.vars,
        s_b.vars,
        end_b.vars,
        s_a.stack,
        end_a.stack,
        end_b.stack,
        Ok::<(FlowV, Option<EventV>), InstrErrV>((flow_a, Some(ev_a))),
        Ok::<(FlowV, Option<EventV>), InstrErrV>((flow_b, Some(ev_b))),
    );
}

/// From equivalent states, an instruction that emits an event on one
/// side emits the same on the other: an emitting and a silent execution
/// of the same instruction cannot coexist.
proof fn lemma_silent_vs_emit<V: VariableStore>(
    story: ProgramV,
    lib: Library,
    s_a: RunState<V>,
    s_b: RunState<V>,
    end_a: RunState<V>,
    first_b: RunState<V>,
    ev_a: EventV,
)
    requires
        no_hosts(lib),
        state_equiv(s_a, s_b),
        step_once(story, lib, s_a, end_a, Some(ev_a)),
        step_once(story, lib, s_b, first_b, None::<EventV>),
    ensures
        Some(ev_a) == None::<EventV>,
{
    let op = opcode_from(s_a.node.instructions[s_a.offset].opcode)->0;
    let flow_a = choose|flow: FlowV|
        #[trigger] execute_rel(
            story,
            s_a.node,
            op,
            s_a.node.instructions[s_a.offset].operands,
            lib,
            s_a.vars,
            end_a.vars,
            s_a.stack,
            end_a.stack,
            Ok::<(FlowV, Option<EventV>), InstrErrV>((flow, Some(ev_a))),
        );
    let flow_b = choose|flow: FlowV|
        #[trigger] execute_rel(
            story,
            s_b.node,
            op,
            s_b.node.instructions[s_b.offset].operands,
            lib,
            s_b.vars,
            first_b.vars,
            s_b.stack,
            first_b.stack,
            Ok::<(FlowV, Option<EventV>), InstrErrV>((flow, None::<EventV>)),
        );
    lemma_execute_rel_equiv(
        story,
        s_a.node,
        op,
        s_a.node.instructions[s_a.offset].operands,
        lib,
        s_a.vars,
        end_a.vars,
        s_b.vars,
        first_b.vars,
        s_a.stack,
        end_a.stack,
        first_b.stack,
        Ok::<(FlowV, Option<EventV>), InstrErrV>((flow_a, Some(ev_a))),
        Ok::<(FlowV, Option<EventV>), InstrErrV>((flow_b, None::<EventV>)),
    );
}

/// From equivalent states, two silent instructions land in equivalent
/// states.
proof fn lemma_silent_equiv<V: VariableStore>(
    story: ProgramV,
    lib: Library,
    s_a: RunState<V>,
    s_b: RunState<V>,
    first_a: RunState<V>,
    first_b: RunState<V>,
)
    requires
        no_hosts(lib),
        state_equiv(s_a, s_b),
        step_once(story, lib, s_a, first_a, None::<EventV>),
        step_once(story, lib, s_b, first_b, None::<EventV>),
    ensures
        state_equiv(first_a, first_b),
{
    let op = opcode_from(s_a.node.instructions[s_a.offset].opcode)->0;
    let flow_a = choose|flow: FlowV|
        #[trigger] execute_rel(
            story,
            s_a.node,
            op,
            s_a.node.instructions[s_a.offset].operands,
            lib,
            s_a.vars,
            first_a.vars,
            s_a.stack,
            first_a.stack,
            Ok::<(FlowV, Option<EventV>), InstrErrV>((flow, None::<EventV>)),
        );
    let flow_b = choose|flow: FlowV|
        #[trigger] execute_rel(
            story,
            s_b.node,
            op,
            s_b.node.instructions[s_b.offset].operands,
            lib,
            s_b.vars,
            first_b.vars,
            s_b.stack,
            first_b.stack,
            Ok::<(FlowV, Option<EventV>), InstrErrV>((flow, None::<EventV>)),
        );
    lemma_execute_rel_equiv(
        story,
        s_a.node,
        op,
        s_a.node.instructions[s_a.offset].operands,
        lib,
        s_a.vars,
        first_a.vars,
        s_b.vars,
        first_b.vars,
        s_a.stack,
        first_a.stack,
        first_b.stack,
        Ok::<(FlowV, Option<EventV>), InstrErrV>((flow_a, None::<EventV>)),
        Ok::<(FlowV, Option<EventV>), InstrErrV>((flow_b, None::<EventV>)),
    );
}

/// A run halts at a state with this failure: the offset has run off the
/// node's end, the instruction's opcode is unknown, or executing it
/// fails with exactly this error under [`execute_rel`].
pub open spec fn run_fails_at<V: VariableStore>(
    story: ProgramV,
    lib: Library,
    s: RunState<V>,
    e: InstrErrV,
) -> bool {
    if s.offset >= s.node.instructions.len() {
        e == InstrErrV::VEvaluation(ValueErrorV::EMissing)
    } else {
        match opcode_from(s.node.instructions[s.offset].opcode) {
            None => e == InstrErrV::VInvalidInstruction(s.node.instructions[s.offset].opcode),
            Some(op) => exists|vars2: V, stack2: Seq<ValueV>|
                #[trigger] execute_rel(
                    story,
                    s.node,
                    op,
                    s.node.instructions[s.offset].operands,
                    lib,
                    s.vars,
                    vars2,
                    s.stack,
                    stack2,
                    Err::<(FlowV, Option<EventV>), InstrErrV>(e),
                ),
        }
    }
}

/// The event an opcode emits, by kind.
pub open spec fn emits(code: int, ev: EventV) -> bool {
    match opcode_from(code) {
        Some(OpCode::RunLine) => ev is EShowLine,
        Some(OpCode::RunCommand) => ev is ECommand,
        Some(OpCode::AddOption) => ev is EAddOption,
        Some(OpCode::ShowOptions) => ev is EShowOptions,
        Some(OpCode::Stop) => ev is EComplete,
        _ => false,
    }
}

/// Driver for running and evaluating a story.
pub struct StoryRunner {
    library: Library,
}

impl Default for StoryRunner {
    /// The default runner dispatches through the built-in registry.
    fn default() -> (r: Self)
        ensures
            forall|k: Seq<char>|
                #[trigger] r.lib().lookup(k) == crate::function::builtin_binding(k),
    {
        StoryRunner { library: Library::builtins() }
    }
}

impl StoryRunner {
    /// The library this runner dispatches function calls through.
    pub closed spec fn lib(&self) -> Library {
        self.library
    }

    /// A runner that dispatches function calls through the given library.
    pub fn new(library: Library) -> (r: Self)
        ensures
            r.lib() == library,
    {
        StoryRunner { library }
    }

    /// Execute one decoded instruction against the current node, stack
    /// and variables.  The outcome, the stack after, and the variables
    /// after relate to the state before exactly as [`execute_rel`]
    /// describes, opcode by opcode.
    pub fn execute<'s, V: VariableStore>(
        &'s self,
        story: &'s Story,
        node: &'s Node,
        opcode: OpCode,
        operands: &'s Vec<Operand>,
        stack: &mut EvaluationStack,
        variables: &mut V,
    ) -> (r: Result<(ControlFlow<'s>, Option<StoryEvent>), InstructionError>)
        ensures
            execute_rel(
                story@,
                node@,
                opcode,
                operands.operands_view(),
                self.lib(),
                *old(variables),
                *final(variables),
                old(stack)@,
                final(stack)@,
                outcome_of(r),
            ),
    {
        match opcode {
            OpCode::JumpTo => {
                let label = match operands.at::<String>(0) {
                    Ok(l) => l,
                    Err(e) => return Err(InstructionError::Evaluation(e)),
                };
                match node.resolve_label(label.as_str()) {
                    Ok(offset) => Ok((ControlFlow::Jump(node, offset), None)),
                    Err(e) => Err(InstructionError::BadNode(e)),
                }
            },
            OpCode::Jump => {
                let label = match stack.pop::<String>() {
                    Ok(l) => l,
                    Err(e) => return Err(InstructionError::Evaluation(e)),
                };
                match node.resolve_label(label.as_str()) {
                    Ok(offset) => Ok((ControlFlow::Jump(node, offset), None)),
                    Err(e) => Err(InstructionError::BadNode(e)),
                }
            },
            OpCode::RunLine => {
                let key = match operands.at::<String>(0) {
                    Ok(k) => k,
                    Err(e) => return Err(InstructionError::Evaluation(e)),
                };
                let substitutions = if operands.len() > 1 {
                    let bits = match operands.at::<u32>(1) {
                        Ok(b) => b,
                        Err(e) => return Err(InstructionError::Evaluation(e)),
                    };
                    let count = crate::num::count_from_number(bits);
                    match pop_string_args(stack, count) {
                        Ok(s) => s,
                        Err(e) => return Err(InstructionError::Evaluation(e)),
                    }
                } else {
                    Vec::new()
                };
                proof {
                    assert(strings_view(Seq::<String>::empty()) =~= Seq::<Seq<char>>::empty());
                }
                Ok((ControlFlow::Next, Some(StoryEvent::ShowLine { key, substitutions })))
            },
            OpCode::RunCommand => {
                let command_text = match operands.at::<String>(0) {
                    Ok(t) => t,
                    Err(e) => return Err(InstructionError::Evaluation(e)),
                };
                let command_text = if operands.len() > 1 {
                    let bits = match operands.at::<u32>(1) {
                        Ok(b) => b,
                        Err(e) => return Err(InstructionError::Evaluation(e)),
                    };
                    let count = crate::num::count_from_number(bits);
                    match run_command_exec(command_text.as_str(), stack, count) {
                        Ok(t) => t,
                        Err(e) => return Err(InstructionError::Evaluation(e)),
                    }
                } else {
                    command_text
                };
                Ok((ControlFlow::Next, Some(StoryEvent::Command(command_text))))
            },
            OpCode::AddOption => {
                let key = match operands.at::<String>(0) {
                    Ok(k) => k,
                    Err(e) => return Err(InstructionError::Evaluation(e)),
                };
                let target = match operands.at::<String>(1) {
                    Ok(t) => t,
                    Err(e) => return Err(InstructionError::Evaluation(e)),
                };
                let substitutions = if operands.len() > 2 {
                    let bits = match operands.at::<u32>(2) {
                        Ok(b) => b,
                        Err(e) => return Err(InstructionError::Evaluation(e)),
                    };
                    let count = crate::num::count_from_number(bits);
                    match pop_string_args(stack, count) {
                        Ok(s) => s,
                        Err(e) => return Err(InstructionError::Evaluation(e)),
                    }
                } else {
                    Vec::new()
                };
                let enabled = if operands.len() > 3 {
                    let flagged = match operands.at::<bool>(3) {
                        Ok(b) => b,
                        Err(e) => return Err(InstructionError::Evaluation(e)),
                    };
                    if flagged {
                        match stack.pop::<bool>() {
                            Ok(b) => b,
                            Err(e) => return Err(InstructionError::Evaluation(e)),
                        }
                    } else {
                        true
                    }
                } else {
                    true
                };
                proof {
                    assert(strings_view(Seq::<String>::empty()) =~= Seq::<Seq<char>>::empty());
                }
                Ok(
                    (
                        ControlFlow::Next,
                        Some(StoryEvent::AddOption { enabled, key, substitutions, target }),
                    ),
                )
            },
            OpCode::ShowOptions => Ok((ControlFlow::Next, Some(StoryEvent::ShowOptions))),
            OpCode::PushString => {
                let text = match operands.at::<String>(0) {
                    Ok(t) => t,
                    Err(e) => return Err(InstructionError::Evaluation(e)),
                };
                stack.push(text);
                Ok((ControlFlow::Next, None))
            },
            OpCode::PushFloat => {
                let bits = match operands.at::<u32>(0) {
                    Ok(b) => b,
                    Err(e) => return Err(InstructionError::Evaluation(e)),
                };
                stack.push(bits);
                Ok((ControlFlow::Next, None))
            },
            OpCode::PushBool => {
                let b = match operands.at::<bool>(0) {
                    Ok(b) => b,
                    Err(e) => return Err(InstructionError::Evaluation(e)),
                };
                stack.push(b);
                Ok((ControlFlow::Next, None))
            },
            OpCode::PushNull => Err(InstructionError::UnsupportedInstruction(opcode)),
            OpCode::JumpIfFalse => {
                let condition = match stack.peek::<bool>() {
                    Ok(c) => c,
                    Err(e) => return Err(InstructionError::Evaluation(e)),
                };
                if !condition {
                    let target_name = match operands.at::<String>(0) {
                        Ok(t) => t,
                        Err(e) => return Err(InstructionError::Evaluation(e)),
                    };
                    match node.resolve_label(target_name.as_str()) {
                        Ok(target) => Ok((ControlFlow::Jump(node, target), None)),
                        Err(e) => Err(InstructionError::BadNode(e)),
                    }
                } else {
                    Ok((ControlFlow::Next, None))
                }
            },
            OpCode::Pop => {
                match stack.pop_any() {
                    Ok(_) => Ok((ControlFlow::Next, None)),
                    Err(e) => Err(InstructionError::Evaluation(e)),
                }
            },
            OpCode::CallFunc => {
                let name = match operands.at::<String>(0) {
                    Ok(n) => n,
                    Err(e) => return Err(InstructionError::Evaluation(e)),
                };
                let bits = match stack.pop::<u32>() {
                    Ok(b) => b,
                    Err(e) => return Err(InstructionError::Evaluation(e)),
                };
                let parameter_count = crate::num::count_from_number(bits);
                let parameters = match pop_value_args(stack, parameter_count) {
                    Ok(a) => a,
                    Err(e) => return Err(InstructionError::Evaluation(e)),
                };
                let cx = CallContext { node, story };
                let return_value = match self.library.call(name, cx, variables, parameters) {
                    Ok(v) => v,
                    Err(e) => return Err(InstructionError::FunctionCall(e)),
                };
                stack.push(return_value);
                Ok((ControlFlow::Next, None))
            },
            OpCode::PushVariable => {
                let var_name = match operands.at::<String>(0) {
                    Ok(n) => n,
                    Err(e) => return Err(InstructionError::Evaluation(e)),
                };
                let stored = match variables.get(var_name.as_str()) {
                    Some(v) => Some(v.clone()),
                    None => match story.initial_value(var_name.as_str()) {
                        Some(v) => Some(v.clone()),
                        None => None,
                    },
                };
                match stored {
                    Some(value) => {
                        stack.push(value);
                        Ok((ControlFlow::Next, None))
                    },
                    None => Err(InstructionError::Evaluation(ValueError::Missing)),
                }
            },
            OpCode::StoreVariable => {
                let value = match stack.peek_any() {
                    Ok(v) => v,
                    Err(e) => return Err(InstructionError::Evaluation(e)),
                };
                let var_name = match operands.at::<String>(0) {
                    Ok(n) => n,
                    Err(e) => return Err(InstructionError::Evaluation(e)),
                };
                let _ = variables.set(var_name.as_str(), value);
                Ok((ControlFlow::Next, None))
            },
            OpCode::Stop => Ok((ControlFlow::Next, Some(StoryEvent::Complete))),
            OpCode::RunNode => {
                let node_name = match stack.pop::<String>() {
                    Ok(n) => n,
                    Err(e) => return Err(InstructionError::Evaluation(e)),
                };
                match story.node(node_name.as_str()) {
                    Some(new_node) => Ok((ControlFlow::Jump(new_node, 0), None)),
                    None => Err(
                        InstructionError::BadNode(NodeError::InvalidLabel(node_name)),
                    ),
                }
            },
        }
    }

    /// Advance the story from the given checkpoint until one narrative
    /// event is produced.
    ///
    /// On success, a run of silent instructions leads from the checkpoint
    /// to the instruction that emitted the event, every transition
    /// satisfying the per-instruction relation [`execute_rel`]; the
    /// returned checkpoint carries the stack of that run's end, the
    /// variables hold its composed writes, and the event is exactly the
    /// one that instruction emitted.  On failure, a silent run leads to
    /// the offending position, whose name, offset and instruction the
    /// error preserves, and the error's source is exactly that
    /// instruction's failure — or the instruction budget was exhausted by
    /// a program spinning over silent instructions.
    pub fn step<'a, V: VariableStore>(
        &'a self,
        story: &'a Story,
        checkpoint: StoryCheckpoint<'a>,
        variables: &mut V,
    ) -> (r: Result<(StoryCheckpoint<'a>, StoryEvent), StoryRunnerError>)
        requires
            in_story(story@, checkpoint@.node),
            checkpoint@.offset < checkpoint@.node.instructions.len(),
        ensures
            match r {
                Ok((cp2, ev)) => {
                    &&& in_story(story@, cp2@.node)
                    &&& 1 <= cp2@.offset <= cp2@.node.instructions.len()
                    &&& emits(cp2@.node.instructions[cp2@.offset - 1].opcode, ev@)
                    &&& (ev@ is EComplete <==> opcode_from(
                        cp2@.node.instructions[cp2@.offset - 1].opcode,
                    ) == Some(OpCode::Stop))
                    &&& exists|n: nat, mid: RunState<V>|
                        {
                            &&& #[trigger] silent_run(
                                story@,
                                self.lib(),
                                RunState {
                                    node: checkpoint@.node,
                                    offset: checkpoint@.offset as int,
                                    stack: checkpoint@.stack,
                                    vars: *old(variables),
                                },
                                mid,
                                n,
                            )
                            &&& step_once(
                                story@,
                                self.lib(),
                                mid,
                                RunState {
                                    node: cp2@.node,
                                    offset: cp2@.offset as int,
                                    stack: cp2@.stack,
                                    vars: *final(variables),
                                },
                                Some(ev@),
                            )
                        }
                },
                Err(e) => exists|n: nat, mid: RunState<V>|
                    {
                        &&& #[trigger] silent_run(
                            story@,
                            self.lib(),
                            RunState {
                                node: checkpoint@.node,
                                offset: checkpoint@.offset as int,
                                stack: checkpoint@.stack,
                                vars: *old(variables),
                            },
                            mid,
                            n,
                        )
                        &&& in_story(story@, mid.node)
                        &&& mid.node.name == e.node@
                        &&& e.pc as int == mid.offset
                        &&& match e.instruction {
                            Some(i) => mid.offset < mid.node.instructions.len() && i@
                                == mid.node.instructions[mid.offset],
                            None => mid.offset >= mid.node.instructions.len(),
                        }
                        &&& (run_fails_at(story@, self.lib(), mid, e.source@) || n
                            == usize::MAX as nat)
                    },
            },
    {
        let StoryCheckpoint { node: mut node, node_instruction_offset: mut pc, stack: mut stack } =
            checkpoint;

        // Execution is bounded by an instruction budget so large that only
        // a program spinning forever over non-emitting instructions can
        // exhaust it; such a step fails like one that ran out of
        // instructions.
        let mut budget: usize = usize::MAX;
        let ghost mut steps: nat = 0;
        proof {
            assert(silent_run(
                story@,
                self.lib(),
                RunState {
                    node: checkpoint@.node,
                    offset: checkpoint@.offset as int,
                    stack: checkpoint@.stack,
                    vars: *old(variables),
                },
                RunState { node: node@, offset: pc as int, stack: stack@, vars: *variables },
                0,
            ));
        }
        loop
            invariant
                in_story(story@, node@),
                steps + budget == usize::MAX as nat,
                silent_run(
                    story@,
                    self.lib(),
                    RunState {
                        node: checkpoint@.node,
                        offset: checkpoint@.offset as int,
                        stack: checkpoint@.stack,
                        vars: *old(variables),
                    },
                    RunState { node: node@, offset: pc as int, stack: stack@, vars: *variables },
                    steps,
                ),
            decreases budget,
        {
            let ghost pre = RunState {
                node: node@,
                offset: pc as int,
                stack: stack@,
                vars: *variables,
            };
            if pc >= node.instructions.len() {
                proof {
                    assert(run_fails_at(
                        story@,
                        self.lib(),
                        pre,
                        InstrErrV::VEvaluation(ValueErrorV::EMissing),
                    ));
                }
                return Err(
                    StoryRunnerError {
                        source: InstructionError::Evaluation(ValueError::Missing),
                        node: node.name.clone(),
                        pc,
                        instruction: None,
                    },
                );
            }
            let instruction = &node.instructions[pc];
            if budget == 0 {
                proof {
                    assert(steps == usize::MAX as nat);
                }
                return Err(
                    StoryRunnerError {
                        source: InstructionError::Evaluation(ValueError::Missing),
                        node: node.name.clone(),
                        pc,
                        instruction: Some(instruction.clone()),
                    },
                );
            }
            budget = budget - 1;
            let op = match OpCode::from_i32(instruction.opcode) {
                Some(op) => op,
                None => {
                    proof {
                        assert(run_fails_at(
                            story@,
                            self.lib(),
                            pre,
                            InstrErrV::VInvalidInstruction(instruction@.opcode),
                        ));
                    }
                    return Err(
                        StoryRunnerError {
                            source: InstructionError::InvalidInstruction(instruction.opcode),
                            node: node.name.clone(),
                            pc,
                            instruction: Some(instruction.clone()),
                        },
                    );
                },
            };
            let step_result = self.execute(
                story,
                node,
                op,
                &instruction.operands,
                &mut stack,
                variables,
            );
            let (flow, event) = match step_result {
                Ok(fe) => fe,
                Err(source) => {
                    proof {
                        assert(instruction@.operands == Operands::operands_view(
                            &instruction.operands,
                        ));
                        assert(execute_rel(
                            story@,
                            pre.node,
                            op,
                            pre.node.instructions[pre.offset].operands,
                            self.lib(),
                            pre.vars,
                            *variables,
                            pre.stack,
                            stack@,
                            Err::<(FlowV, Option<EventV>), InstrErrV>(source@),
                        ));
                        assert(run_fails_at(story@, self.lib(), pre, source@));
                    }
                    return Err(
                        StoryRunnerError {
                            source,
                            node: node.name.clone(),
                            pc,
                            instruction: Some(instruction.clone()),
                        },
                    );
                },
            };
            let ghost node_pre = node@;
            let ghost pc_pre = pc;
            let ghost flow_v = (match flow {
                ControlFlow::Next => FlowV::Next,
                ControlFlow::Jump(n2, target) => FlowV::Jump(n2@, target as int),
            });
            match flow {
                ControlFlow::Next => {
                    pc = pc + 1;
                },
                ControlFlow::Jump(n2, target) => {
                    node = n2;
                    pc = target;
                },
            }
            let ghost post = RunState {
                node: node@,
                offset: pc as int,
                stack: stack@,
                vars: *variables,
            };
            let ghost ev_v = (match &event {
                Some(e) => Some(e@),
                None => None::<EventV>,
            });
            proof {
                assert(instruction@.operands == Operands::operands_view(&instruction.operands));
                assert(execute_rel(
                    story@,
                    pre.node,
                    op,
                    pre.node.instructions[pre.offset].operands,
                    self.lib(),
                    pre.vars,
                    post.vars,
                    pre.stack,
                    post.stack,
                    Ok::<(FlowV, Option<EventV>), InstrErrV>((flow_v, ev_v)),
                ));
                assert(step_once(story@, self.lib(), pre, post, ev_v));
            }
            if let Some(event) = event {
                proof {
                    assert(node@ == node_pre);
                    assert(pc == pc_pre + 1);
                    assert(node@.instructions[pc - 1] == instruction@);
                }
                return Ok((StoryCheckpoint::at(node, pc, stack), event));
            }
            proof {
                assert(event is None);
                assert(ev_v == None::<EventV>);
                assert(step_once(story@, self.lib(), pre, post, None::<EventV>));
                let n2: nat = steps + 1;
                assert(silent_run(
                    story@,
                    self.lib(),
                    RunState {
                        node: checkpoint@.node,
                        offset: checkpoint@.offset as int,
                        stack: checkpoint@.stack,
                        vars: *old(variables),
                    },
                    pre,
                    (n2 - 1) as nat,
                ));
                steps = n2;
                assert(silent_run(
                    story@,
                    self.lib(),
                    RunState {
                        node: checkpoint@.node,
                        offset: checkpoint@.offset as int,
                        stack: checkpoint@.stack,
                        vars: *old(variables),
                    },
                    post,
                    steps,
                ));
            }
        }
    }
}

// ---------------------------------------------------------------------
// Laws of the step engine
// ---------------------------------------------------------------------

/// Popping `n` strings succeeds only on a stack of at least `n` values,
/// yields `n` strings, and shortens the stack by exactly `n`.
pub proof fn lemma_pop_strings_len(stack: Seq<ValueV>, n: nat)
    ensures
        pop_strings(stack, n) matches Ok(p) ==> n <= stack.len() && p.0.len() == n && p.1.len()
            == stack.len() - n,
    decreases n,
{
    if n > 0 && stack.len() > 0 {
        lemma_pop_strings_len(stack.drop_last(), (n - 1) as nat);
    }
}

/// Popping `n` values succeeds only on a stack of at least `n` values,
/// yields `n` values, and shortens the stack by exactly `n`.
pub proof fn lemma_pop_values_len(stack: Seq<ValueV>, n: nat)
    ensures
        pop_values(stack, n) matches Ok(p) ==> n <= stack.len() && p.0.len() == n && p.1.len()
            == stack.len() - n,
    decreases n,
{
    if n > 0 && stack.len() > 0 {
        lemma_pop_values_len(stack.drop_last(), (n - 1) as nat);
    }
}

/// Substituting `i` command arguments pops exactly `i` values.
pub proof fn lemma_run_command_len(text: Seq<char>, stack: Seq<ValueV>, i: nat)
    ensures
        run_command(text, stack, i) matches Ok(p) ==> i <= stack.len() && p.1.len() == stack.len()
            - i,
    decreases i,
{
    if i > 0 && stack.len() > 0 {
        match stack_pop_as::<String>(stack) {
            Ok(q) => {
                lemma_run_command_len(
                    replace_all(text, placeholder((i - 1) as nat), q.0),
                    q.1,
                    (i - 1) as nat,
                );
            },
            Err(_) => {},
        }
    }
}

/// Stack balance: a successful instruction changes the stack's depth by
/// exactly the net arity its opcode specifies — the values it pops for
/// operand counts, substitutions, arguments or flags, against the one it
/// pushes, if any.
pub proof fn lemma_stack_balance<V: VariableStore>(
    story: ProgramV,
    node: NodeV,
    op: OpCode,
    opv: Seq<Option<ValueV>>,
    lib: Library,
    vars0: V,
    vars1: V,
    stack0: Seq<ValueV>,
    stack1: Seq<ValueV>,
    flow: FlowV,
    ev: Option<EventV>,
)
    requires
        execute_rel(
            story,
            node,
            op,
            opv,
            lib,
            vars0,
            vars1,
            stack0,
            stack1,
            Ok::<(FlowV, Option<EventV>), InstrErrV>((flow, ev)),
        ),
    ensures
        match op {
            OpCode::JumpTo | OpCode::ShowOptions | OpCode::JumpIfFalse | OpCode::StoreVariable
                | OpCode::Stop => stack1.len() == stack0.len(),
            OpCode::Jump | OpCode::Pop | OpCode::RunNode => stack1.len() == stack0.len() - 1,
            OpCode::PushString | OpCode::PushFloat | OpCode::PushBool | OpCode::PushVariable =>
                stack1.len() == stack0.len() + 1,
            OpCode::RunLine => if opv.len() > 1 {
                operand_as::<u32>(opv, 1) matches Ok(bits) && stack1.len() == stack0.len()
                    - crate::num::number_count(bits)
            } else {
                stack1.len() == stack0.len()
            },
            OpCode::RunCommand => if opv.len() > 1 {
                operand_as::<u32>(opv, 1) matches Ok(bits) && stack1.len() == stack0.len()
                    - crate::num::number_count(bits)
            } else {
                stack1.len() == stack0.len()
            },
            OpCode::AddOption => {
                let subs: nat = if opv.len() > 2 {
                    match operand_as::<u32>(opv, 2) {
                        Ok(bits) => crate::num::number_count(bits),
                        Err(_) => 0,
                    }
                } else {
                    0
                };
                let flag: nat = if opv.len() > 3 && operand_as::<bool>(opv, 3) == Ok::<
                    bool,
                    ValueErrorV,
                >(true) {
                    1
                } else {
                    0
                };
                stack1.len() == stack0.len() - subs - flag
            },
            OpCode::CallFunc => stack_pop_as::<u32>(stack0) matches Ok(q) && stack1.len()
                == stack0.len() - crate::num::number_count(q.0),
            OpCode::PushNull => false,
        },
{
    match op {
        OpCode::RunLine => {
            if opv.len() > 1 {
                match operand_as::<u32>(opv, 1) {
                    Ok(bits) => lemma_pop_strings_len(stack0, crate::num::number_count(bits)),
                    Err(_) => {},
                }
            }
        },
        OpCode::RunCommand => {
            if opv.len() > 1 {
                match (operand_as::<u32>(opv, 1), operand_as::<String>(opv, 0)) {
                    (Ok(bits), Ok(text)) => lemma_run_command_len(
                        text,
                        stack0,
                        crate::num::number_count(bits),
                    ),
                    _ => {},
                }
            }
        },
        OpCode::AddOption => {
            if opv.len() > 2 {
                match operand_as::<u32>(opv, 2) {
                    Ok(bits) => lemma_pop_strings_len(stack0, crate::num::number_count(bits)),
                    Err(_) => {},
                }
            }
        },
        OpCode::CallFunc => {
            match stack_pop_as::<u32>(stack0) {
                Ok(q) => lemma_pop_values_len(q.1, crate::num::number_count(q.0)),
                Err(_) => {},
            }
        },
        _ => {},
    }
}

/// Label determinism: a successful `JumpTo` lands exactly at the offset
/// the node's label table binds to the operand's label, in the same
/// node, emitting nothing.
pub proof fn lemma_label_determinism<V: VariableStore>(
    story: ProgramV,
    node: NodeV,
    opv: Seq<Option<ValueV>>,
    lib: Library,
    vars0: V,
    vars1: V,
    stack0: Seq<ValueV>,
    stack1: Seq<ValueV>,
    flow: FlowV,
    ev: Option<EventV>,
)
    requires
        execute_rel(
            story,
            node,
            OpCode::JumpTo,
            opv,
            lib,
            vars0,
            vars1,
            stack0,
            stack1,
            Ok::<(FlowV, Option<EventV>), InstrErrV>((flow, ev)),
        ),
    ensures
        operand_as::<String>(opv, 0) matches Ok(label) && assoc(node.labels, label) matches Some(
            pc,
        ) && flow == FlowV::Jump(node, pc as int) && ev is None,
        stack1 == stack0,
        vars_same(vars0, vars1),
{
}

/// Variable fallback: `PushVariable` pushes the store's binding for the
/// name; when the store has none it pushes the story's initial value;
/// when neither exists it fails `Missing`.
pub proof fn lemma_variable_fallback<V: VariableStore>(
    story: ProgramV,
    node: NodeV,
    opv: Seq<Option<ValueV>>,
    lib: Library,
    vars0: V,
    vars1: V,
    stack0: Seq<ValueV>,
    stack1: Seq<ValueV>,
    r: Result<(FlowV, Option<EventV>), InstrErrV>,
)
    requires
        execute_rel(story, node, OpCode::PushVariable, opv, lib, vars0, vars1, stack0, stack1, r),
    ensures
        match operand_as::<String>(opv, 0) {
            Ok(name) => {
                &&& (vars0.lookup(name) is Some ==> r == Ok::<_, InstrErrV>(
                    (FlowV::Next, None::<EventV>),
                ) && stack1 == stack0.push(vars0.lookup(name)->0))
                &&& ((vars0.lookup(name) is None && assoc(story.initial_values, name) is Some)
                    ==> r == Ok::<_, InstrErrV>((FlowV::Next, None::<EventV>)) && stack1
                    == stack0.push(assoc(story.initial_values, name)->0))
                &&& ((vars0.lookup(name) is None && assoc(story.initial_values, name) is None)
                    ==> r == Err::<(FlowV, Option<EventV>), _>(
                    InstrErrV::VEvaluation(ValueErrorV::EMissing),
                ))
            },
            Err(e) => r == Err::<(FlowV, Option<EventV>), _>(InstrErrV::VEvaluation(e)),
        },
{
}

/// Checkpoint purity: a checkpoint is pure data, so running one
/// instruction twice from equal nodes, stacks and variable states yields
/// equal outcomes, equal stacks and equal variable states, provided the
/// library dispatches only built-ins, whose behaviour is fully
/// specified.  (A registered host function is opaque to the verifier and
/// could behave differently between calls.)
pub proof fn lemma_execute_deterministic<V: VariableStore>(
    story: ProgramV,
    node: NodeV,
    op: OpCode,
    opv: Seq<Option<ValueV>>,
    lib: Library,
    vars0: V,
    vars1a: V,
    vars1b: V,
    stack0: Seq<ValueV>,
    stack1a: Seq<ValueV>,
    stack1b: Seq<ValueV>,
    ra: Result<(FlowV, Option<EventV>), InstrErrV>,
    rb: Result<(FlowV, Option<EventV>), InstrErrV>,
)
    requires
        forall|name: Seq<char>| !(#[trigger] lib.lookup(name) matches Some(HandleV::HHost)),
        execute_rel(story, node, op, opv, lib, vars0, vars1a, stack0, stack1a, ra),
        execute_rel(story, node, op, opv, lib, vars0, vars1b, stack0, stack1b, rb),
    ensures
        ra == rb,
        ra is Ok ==> stack1a == stack1b,
        vars_same(vars1a, vars1b),
{
}

} // verus!
