use vstd::prelude::*;

use crate::num::number_text;

verus! {

/// A tagged scalar handled by the virtual machine: text, a number, or a
/// truth value.  Numbers are IEEE-754 single-precision values carried as
/// their bit pattern, so that all interpreter logic stays in integer
/// arithmetic; the host converts at the boundary.
#[derive(Debug, PartialEq)]
pub enum Value {
    StringValue(String),
    NumberValue(u32),
    BoolValue(bool),
}

/// The mathematical shape of a [`Value`]: text as a sequence of characters,
/// numbers as their bit pattern, truth values as `bool`.
pub enum ValueV {
    VString(Seq<char>),
    VNumber(u32),
    VBool(bool),
}

impl View for Value {
    type V = ValueV;

    open spec fn view(&self) -> ValueV {
        match self {
            Value::StringValue(s) => ValueV::VString(s@),
            Value::NumberValue(b) => ValueV::VNumber(*b),
            Value::BoolValue(b) => ValueV::VBool(*b),
        }
    }
}

impl Clone for Value {
    fn clone(&self) -> (r: Self)
        ensures
            r@ == self@,
    {
        match self {
            Value::StringValue(s) => Value::StringValue(s.clone()),
            Value::NumberValue(b) => Value::NumberValue(*b),
            Value::BoolValue(b) => Value::BoolValue(*b),
        }
    }
}

/// The tag a conversion expected, named in `UnexpectedType` errors.
#[derive(Clone, Copy, PartialEq, Eq, Structural, Debug)]
pub enum ValueKind {
    Text,
    Number,
    Boolean,
}

/// Failure of a value conversion or of a stack, operand or variable access.
#[derive(Debug, PartialEq)]
pub enum ValueError {
    /// The value's tag does not match the requested kind; carries the
    /// expected kind and the offending value.
    UnexpectedType(ValueKind, Value),
    /// No value was available: an empty stack, an absent operand, or an
    /// unset variable.
    Missing,
}

pub enum ValueErrorV {
    EUnexpectedType(ValueKind, ValueV),
    EMissing,
}

impl View for ValueError {
    type V = ValueErrorV;

    open spec fn view(&self) -> ValueErrorV {
        match self {
            ValueError::UnexpectedType(k, v) => ValueErrorV::EUnexpectedType(*k, v@),
            ValueError::Missing => ValueErrorV::EMissing,
        }
    }
}

/// A native type that can be read out of a [`Value`], surfacing a typed
/// error on a tag mismatch.
pub trait FromValue: Sized + View {
    /// The kind named in `UnexpectedType` errors of this conversion.
    spec fn kind() -> ValueKind;

    /// Whether the conversion succeeds on this value.
    spec fn accepts(v: ValueV) -> bool;

    /// The view of the converted result, when the conversion succeeds.
    spec fn converted(v: ValueV) -> Self::V;

    fn from_value(v: Value) -> (r: Result<Self, ValueError>)
        ensures
            Self::accepts(v@) ==> (r matches Ok(x) && x@ == Self::converted(v@)),
            !Self::accepts(v@) ==> (r matches Err(e) && e@ == ValueErrorV::EUnexpectedType(
                Self::kind(),
                v@,
            )),
    ;
}

/// A native type that wraps into a [`Value`]; total for text, numbers and
/// truth values.
pub trait IntoValue: View {
    /// The view of the wrapped value.
    spec fn wrapped(v: Self::V) -> ValueV;

    fn into_value(self) -> (r: Value)
        ensures
            r@ == Self::wrapped(self@),
    ;
}

impl FromValue for String {
    open spec fn kind() -> ValueKind {
        ValueKind::Text
    }

    /// Any value converts to text: numbers and truth values are coerced to
    /// their textual representation.
    open spec fn accepts(v: ValueV) -> bool {
        true
    }

    open spec fn converted(v: ValueV) -> Seq<char> {
        match v {
            ValueV::VString(s) => s,
            ValueV::VNumber(b) => number_text(b),
            ValueV::VBool(b) => if b {
                "true"@
            } else {
                "false"@
            },
        }
    }

    fn from_value(v: Value) -> (r: Result<Self, ValueError>) {
        match v {
            Value::StringValue(s) => Ok(s),
            Value::NumberValue(b) => Ok(crate::num::format_number(b)),
            Value::BoolValue(b) => Ok(
                if b {
                    String::from_str("true")
                } else {
                    String::from_str("false")
                },
            ),
        }
    }
}

impl IntoValue for String {
    open spec fn wrapped(v: Seq<char>) -> ValueV {
        ValueV::VString(v)
    }

    fn into_value(self) -> (r: Value) {
        Value::StringValue(self)
    }
}

impl FromValue for u32 {
    open spec fn kind() -> ValueKind {
        ValueKind::Number
    }

    open spec fn accepts(v: ValueV) -> bool {
        v is VNumber
    }

    open spec fn converted(v: ValueV) -> u32 {
        v->VNumber_0
    }

    fn from_value(v: Value) -> (r: Result<Self, ValueError>) {
        match v {
            Value::NumberValue(b) => Ok(b),
            _ => Err(ValueError::UnexpectedType(ValueKind::Number, v)),
        }
    }
}

impl IntoValue for u32 {
    open spec fn wrapped(v: u32) -> ValueV {
        ValueV::VNumber(v)
    }

    fn into_value(self) -> (r: Value) {
        Value::NumberValue(self)
    }
}

impl FromValue for bool {
    open spec fn kind() -> ValueKind {
        ValueKind::Boolean
    }

    open spec fn accepts(v: ValueV) -> bool {
        v is VBool
    }

    open spec fn converted(v: ValueV) -> bool {
        v->VBool_0
    }

    fn from_value(v: Value) -> (r: Result<Self, ValueError>) {
        match v {
            Value::BoolValue(b) => Ok(b),
            _ => Err(ValueError::UnexpectedType(ValueKind::Boolean, v)),
        }
    }
}

impl IntoValue for bool {
    open spec fn wrapped(v: bool) -> ValueV {
        ValueV::VBool(v)
    }

    fn into_value(self) -> (r: Value) {
        Value::BoolValue(self)
    }
}

impl IntoValue for Value {
    open spec fn wrapped(v: ValueV) -> ValueV {
        v
    }

    fn into_value(self) -> (r: Value) {
        self
    }
}

/// One positional operand of an instruction: an optional value.
#[derive(Debug, PartialEq)]
pub struct Operand {
    pub value: Option<Value>,
}

impl View for Operand {
    type V = Option<ValueV>;

    open spec fn view(&self) -> Option<ValueV> {
        match &self.value {
            Some(v) => Some(v@),
            None => None,
        }
    }
}

impl Clone for Operand {
    fn clone(&self) -> (r: Self)
        ensures
            r@ == self@,
    {
        match &self.value {
            Some(v) => Operand { value: Some(v.clone()) },
            None => Operand { value: None },
        }
    }
}

/// The views of a sequence of values.
pub open spec fn values_view(s: Seq<Value>) -> Seq<ValueV> {
    Seq::new(s.len(), |i: int| s[i]@)
}

/// The views of a sequence of operands.
pub open spec fn operands_seq_view(s: Seq<Operand>) -> Seq<Option<ValueV>> {
    Seq::new(s.len(), |i: int| s[i]@)
}

/// One virtual-machine operation: the opcode as the integer it carries on
/// the wire, and a positional, possibly empty operand list.
#[derive(Debug, PartialEq)]
pub struct Instruction {
    pub opcode: i32,
    pub operands: Vec<Operand>,
}

pub struct InstrV {
    pub opcode: int,
    pub operands: Seq<Option<ValueV>>,
}

impl View for Instruction {
    type V = InstrV;

    open spec fn view(&self) -> InstrV {
        InstrV { opcode: self.opcode as int, operands: operands_seq_view(self.operands@) }
    }
}

/// Clone a list of operands, preserving its view.
fn clone_operands(src: &Vec<Operand>) -> (r: Vec<Operand>)
    ensures
        operands_seq_view(r@) == operands_seq_view(src@),
{
    let mut operands: Vec<Operand> = Vec::new();
    let n = src.len();
    let mut i: usize = 0;
    while i < n
        invariant
            n == src.len(),
            i <= n,
            operands_seq_view(operands@) =~= operands_seq_view(src@).take(i as int),
        decreases n - i,
    {
        let ghost pre = operands@;
        let c = src[i].clone();
        operands.push(c);
        proof {
            assert(operands_seq_view(pre).len() == pre.len());
            assert(pre.len() == i);
            let lhs = operands_seq_view(operands@);
            let rhs = operands_seq_view(src@).take(i as int + 1);
            assert forall|j: int| 0 <= j < i + 1 implies lhs[j] == rhs[j] by {
                assert(operands@ == pre.push(c));
                assert(lhs[j] == operands@[j]@);
                assert(rhs[j] == src@[j]@);
                if j < i {
                    assert(operands@[j] == pre[j]);
                    assert(operands_seq_view(pre)[j] == pre[j]@);
                    assert(operands_seq_view(src@).take(i as int)[j] == src@[j]@);
                }
            }
            assert(lhs =~= rhs);
        }
        i += 1;
    }
    proof {
        assert(operands_seq_view(operands@) =~= operands_seq_view(src@).take(n as int));
        assert(operands_seq_view(src@).take(n as int) =~= operands_seq_view(src@));
    }
    operands
}

impl Clone for Instruction {
    fn clone(&self) -> (r: Self)
        ensures
            r@ == self@,
    {
        Instruction { opcode: self.opcode, operands: clone_operands(&self.operands) }
    }
}

/// The operations of the instruction set, in their wire numbering.
#[derive(Clone, Copy, PartialEq, Eq, Structural, Debug)]
pub enum OpCode {
    JumpTo,
    Jump,
    RunLine,
    RunCommand,
    AddOption,
    ShowOptions,
    PushString,
    PushFloat,
    PushBool,
    PushNull,
    JumpIfFalse,
    Pop,
    CallFunc,
    PushVariable,
    StoreVariable,
    Stop,
    RunNode,
}

/// The opcode denoted by a wire integer, if the integer is known.
pub open spec fn opcode_from(code: int) -> Option<OpCode> {
    if code == 0 {
        Some(OpCode::JumpTo)
    } else if code == 1 {
        Some(OpCode::Jump)
    } else if code == 2 {
        Some(OpCode::RunLine)
    } else if code == 3 {
        Some(OpCode::RunCommand)
    } else if code == 4 {
        Some(OpCode::AddOption)
    } else if code == 5 {
        Some(OpCode::ShowOptions)
    } else if code == 6 {
        Some(OpCode::PushString)
    } else if code == 7 {
        Some(OpCode::PushFloat)
    } else if code == 8 {
        Some(OpCode::PushBool)
    } else if code == 9 {
        Some(OpCode::PushNull)
    } else if code == 10 {
        Some(OpCode::JumpIfFalse)
    } else if code == 11 {
        Some(OpCode::Pop)
    } else if code == 12 {
        Some(OpCode::CallFunc)
    } else if code == 13 {
        Some(OpCode::PushVariable)
    } else if code == 14 {
        Some(OpCode::StoreVariable)
    } else if code == 15 {
        Some(OpCode::Stop)
    } else if code == 16 {
        Some(OpCode::RunNode)
    } else {
        None
    }
}

impl OpCode {
    /// Decode a wire integer into an opcode; unknown integers decode to
    /// nothing.
    pub fn from_i32(code: i32) -> (r: Option<OpCode>)
        ensures
            r == opcode_from(code as int),
    {
        match code {
            0 => Some(OpCode::JumpTo),
            1 => Some(OpCode::Jump),
            2 => Some(OpCode::RunLine),
            3 => Some(OpCode::RunCommand),
            4 => Some(OpCode::AddOption),
            5 => Some(OpCode::ShowOptions),
            6 => Some(OpCode::PushString),
            7 => Some(OpCode::PushFloat),
            8 => Some(OpCode::PushBool),
            9 => Some(OpCode::PushNull),
            10 => Some(OpCode::JumpIfFalse),
            11 => Some(OpCode::Pop),
            12 => Some(OpCode::CallFunc),
            13 => Some(OpCode::PushVariable),
            14 => Some(OpCode::StoreVariable),
            15 => Some(OpCode::Stop),
            16 => Some(OpCode::RunNode),
            _ => None,
        }
    }
}

/// Typed positional access to an instruction's operand list.
pub trait Operands {
    spec fn operands_view(&self) -> Seq<Option<ValueV>>;

    /// The operand at `index`, read as a `T`.  Fails `Missing` when the
    /// operand is absent or carries no value, and with the conversion's
    /// `UnexpectedType` when its tag mismatches.
    fn at<T: FromValue>(&self, index: usize) -> (r: Result<T, ValueError>)
        ensures
            (index >= self.operands_view().len() || self.operands_view()[index as int] is None)
                ==> (r matches Err(e) && e@ == ValueErrorV::EMissing),
            (index < self.operands_view().len() && self.operands_view()[index as int] is Some)
                ==> {
                let v = self.operands_view()[index as int]->0;
                &&& T::accepts(v) ==> (r matches Ok(x) && x@ == T::converted(v))
                &&& !T::accepts(v) ==> (r matches Err(e) && e@ == ValueErrorV::EUnexpectedType(
                    T::kind(),
                    v,
                ))
            },
    ;
}

impl Operands for Vec<Operand> {
    open spec fn operands_view(&self) -> Seq<Option<ValueV>> {
        operands_seq_view(self@)
    }

    fn at<T: FromValue>(&self, index: usize) -> (r: Result<T, ValueError>) {
        if index >= self.len() {
            return Err(ValueError::Missing);
        }
        match &self[index].value {
            Some(v) => T::from_value(v.clone()),
            None => Err(ValueError::Missing),
        }
    }
}

/// The views of a sequence of instructions.
pub open spec fn instrs_view(s: Seq<Instruction>) -> Seq<InstrV> {
    Seq::new(s.len(), |i: int| s[i]@)
}

/// The views of a label table.
pub open spec fn labels_view(s: Seq<(String, usize)>) -> Seq<(Seq<char>, usize)> {
    Seq::new(s.len(), |i: int| (s[i].0@, s[i].1))
}

/// A named sequence of instructions together with its label table, which
/// maps label names to instruction offsets.
#[derive(Debug)]
pub struct Node {
    pub name: String,
    pub instructions: Vec<Instruction>,
    pub labels: Vec<(String, usize)>,
}

pub struct NodeV {
    pub name: Seq<char>,
    pub instructions: Seq<InstrV>,
    pub labels: Seq<(Seq<char>, usize)>,
}

impl View for Node {
    type V = NodeV;

    open spec fn view(&self) -> NodeV {
        NodeV {
            name: self.name@,
            instructions: instrs_view(self.instructions@),
            labels: labels_view(self.labels@),
        }
    }
}

/// Failure of label resolution within a node.
#[derive(Debug, PartialEq)]
pub enum NodeError {
    /// No label of this name exists in the node.
    InvalidLabel(String),
}

impl Node {
    /// The instruction offset a label resolves to, or `InvalidLabel` when
    /// the node has no label of that name.
    pub fn resolve_label(&self, name: &str) -> (r: Result<usize, NodeError>)
        ensures
            match r {
                Ok(pc) => assoc(self@.labels, name@) == Some(pc),
                Err(e) => assoc(self@.labels, name@) is None && (e matches NodeError::InvalidLabel(
                    s,
                ) && s@ == name@),
            },
    {
        let key: String = name.to_owned();
        let n = self.labels.len();
        let mut i: usize = 0;
        while i < n
            invariant
                n == self.labels.len(),
                i <= n,
                key@ == name@,
                forall|j: int| 0 <= j < i ==> (#[trigger] self@.labels[j]).0 != name@,
            decreases n - i,
        {
            if self.labels[i].0 == key {
                proof {
                    lemma_assoc_skip(self@.labels, name@, i as int);
                    assert(self@.labels.skip(i as int)[0] == self@.labels[i as int]);
                }
                return Ok(self.labels[i].1);
            }
            i += 1;
        }
        proof {
            lemma_assoc_skip(self@.labels, name@, n as int);
            assert(self@.labels.skip(n as int) =~= Seq::<(Seq<char>, usize)>::empty());
        }
        Err(NodeError::InvalidLabel(key))
    }
}

/// A compiled collection of nodes and initial variable values, keyed by
/// name.
#[derive(Debug)]
pub struct Program {
    pub nodes: Vec<(String, Node)>,
    pub initial_values: Vec<(String, Value)>,
}

pub struct ProgramV {
    pub nodes: Seq<(Seq<char>, NodeV)>,
    pub initial_values: Seq<(Seq<char>, ValueV)>,
}

impl View for Program {
    type V = ProgramV;

    open spec fn view(&self) -> ProgramV {
        ProgramV {
            nodes: pair_seq_view(self.nodes@),
            initial_values: pair_seq_view(self.initial_values@),
        }
    }
}

/// First-match lookup in an association sequence keyed by character
/// sequences.  Earlier entries shadow later ones.
pub open spec fn assoc<U>(s: Seq<(Seq<char>, U)>, k: Seq<char>) -> Option<U>
    decreases s.len(),
{
    if s.len() == 0 {
        None
    } else if s[0].0 == k {
        Some(s[0].1)
    } else {
        assoc(s.drop_first(), k)
    }
}

/// When no entry among the first `i` matches the key, the lookup is
/// decided by the remaining entries.
pub proof fn lemma_assoc_skip<U>(s: Seq<(Seq<char>, U)>, k: Seq<char>, i: int)
    requires
        0 <= i <= s.len(),
        forall|j: int| 0 <= j < i ==> (#[trigger] s[j]).0 != k,
    ensures
        assoc(s, k) == assoc(s.skip(i), k),
    decreases i,
{
    if i == 0 {
        assert(s.skip(0) =~= s);
    } else {
        lemma_assoc_skip(s, k, i - 1);
        assert(s.skip(i - 1)[0] == s[i - 1]);
        assert(s.skip(i - 1).drop_first() =~= s.skip(i));
        assert(assoc(s.skip(i - 1), k) == assoc(s.skip(i), k));
    }
}

/// The views of an association list of named entries.
pub open spec fn pair_seq_view<T: View>(s: Seq<(String, T)>) -> Seq<(Seq<char>, T::V)> {
    Seq::new(s.len(), |i: int| (s[i].0@, s[i].1@))
}

/// Whether two entries of an association sequence share this key.
pub open spec fn duplicated_key<U>(s: Seq<(Seq<char>, U)>, key: Seq<char>) -> bool {
    exists|i: int, j: int|
        0 <= i < j < s.len() && (#[trigger] s[i]).0 == key && (#[trigger] s[j]).0 == key
}

/// Whether two entries of an association sequence share a key.
pub open spec fn has_duplicate_key<U>(s: Seq<(Seq<char>, U)>) -> bool {
    exists|i: int, j: int| 0 <= i < j < s.len() && (#[trigger] s[i]).0 == (#[trigger] s[j]).0
}

/// Find the first entry with this key in a list of named entries.
pub fn assoc_find<'a, T: View>(entries: &'a Vec<(String, T)>, key: &String) -> (r: Option<
    &'a T,
>)
    ensures
        match r {
            Some(t) => assoc(pair_seq_view(entries@), key@) == Some(t@),
            None => assoc(pair_seq_view(entries@), key@) is None,
        },
{
    let n = entries.len();
    let mut i: usize = 0;
    while i < n
        invariant
            n == entries.len(),
            i <= n,
            forall|j: int| 0 <= j < i ==> (#[trigger] pair_seq_view(entries@)[j]).0 != key@,
        decreases n - i,
    {
        if entries[i].0 == *key {
            proof {
                lemma_assoc_skip(pair_seq_view(entries@), key@, i as int);
                assert(pair_seq_view(entries@).skip(i as int)[0] == pair_seq_view(entries@)[
                    i as int
                ]);
            }
            return Some(&entries[i].1);
        }
        i += 1;
    }
    proof {
        lemma_assoc_skip(pair_seq_view(entries@), key@, n as int);
        assert(pair_seq_view(entries@).skip(n as int) =~= Seq::<(Seq<char>, T::V)>::empty());
    }
    None
}

/// Every native value survives the round trip into a [`Value`] and back:
/// wrapping text, a number or a truth value and reading it out again
/// yields the value that went in.
pub proof fn lemma_value_round_trip(s: Seq<char>, bits: u32, b: bool)
    ensures
        <String as FromValue>::accepts(<String as IntoValue>::wrapped(s)),
        <String as FromValue>::converted(<String as IntoValue>::wrapped(s)) == s,
        <u32 as FromValue>::accepts(<u32 as IntoValue>::wrapped(bits)),
        <u32 as FromValue>::converted(<u32 as IntoValue>::wrapped(bits)) == bits,
        <bool as FromValue>::accepts(<bool as IntoValue>::wrapped(b)),
        <bool as FromValue>::converted(<bool as IntoValue>::wrapped(b)) == b,
{
}

/// Coercion is asymmetric: a number always reads as text, rendered by the
/// number formatter, but text never reads as a number.
pub proof fn lemma_coercion_asymmetry(bits: u32, s: Seq<char>)
    ensures
        <String as FromValue>::accepts(ValueV::VNumber(bits)),
        <String as FromValue>::converted(ValueV::VNumber(bits)) == number_text(bits),
        !<u32 as FromValue>::accepts(ValueV::VString(s)),
{
}

} // verus!
