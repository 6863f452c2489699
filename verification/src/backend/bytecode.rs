//! The instruction set of the stack machine and the values it works on.

use vstd::prelude::*;

verus! {

/// A value of the machine. A float is held as the bit pattern of its 32-bit
/// IEEE 754 form, so that values can be compared and copied exactly.
#[derive(Debug)]
pub enum Value {
    Int(i32),
    Float(u32),
    String(String),
    Array(Vec<Value>),
}

/// A value, with text as a sequence of characters and an array as a sequence
/// of values.
pub enum ValueView {
    Int(i32),
    Float(u32),
    String(Seq<char>),
    Array(Seq<ValueView>),
}

/// The views of a list of values, in the same order.
pub open spec fn value_views(values: Vec<Value>) -> Seq<ValueView>
    decreases values,
{
    Seq::new(
        values.len() as nat,
        |i: int|
            if 0 <= i < values.len() {
                value_view(values[i])
            } else {
                arbitrary()
            },
    )
}

/// The view of a value.
pub open spec fn value_view(value: Value) -> ValueView
    decreases value,
{
    match value {
        Value::Int(number) => ValueView::Int(number),
        Value::Float(bits) => ValueView::Float(bits),
        Value::String(text) => ValueView::String(text@),
        Value::Array(items) => ValueView::Array(value_views(items)),
    }
}

impl View for Value {
    type V = ValueView;

    open spec fn view(&self) -> ValueView {
        value_view(*self)
    }
}

/// A copy of `value` that is equal in every part, arrays included.
fn copy_value(value: &Value) -> (copy: Value)
    ensures
        copy@ == value@,
    decreases value,
{
    match value {
        Value::Int(number) => Value::Int(*number),
        Value::Float(bits) => Value::Float(*bits),
        Value::String(text) => Value::String(text.clone()),
        Value::Array(items) => {
            let mut copies: Vec<Value> = Vec::new();
            let mut i: usize = 0;
            while i < items.len()
                invariant
                    *value == Value::Array(*items),
                    i <= items.len(),
                    copies.len() == i,
                    forall|j: int| 0 <= j < i ==> (#[trigger] copies[j])@ == items[j]@,
                decreases items.len() - i,
            {
                proof {
                    vstd::std_specs::vec::axiom_vec_index_decreases(*items, i as int);
                    assert(decreases_to!(*value => value->Array_0));
                }
                let copy = copy_value(&items[i]);
                copies.push(copy);
                i = i + 1;
            }
            assert(value_views(copies) =~= value_views(*items));
            Value::Array(copies)
        },
    }
}

impl Clone for Value {
    fn clone(&self) -> (copy: Self)
        ensures
            copy@ == self@,
    {
        copy_value(self)
    }
}

/// The stack that a `Pull` reads.
#[derive(Debug, Clone, Copy, PartialEq, Eq, Structural)]
pub enum ValueScope {
    Global,
    Local,
    Args,
}

/// An instruction.
#[derive(Debug)]
pub enum ByteNode {
    /// Puts the value on top of the stack.
    Push(Value),
    /// Copies the value at an index of a stack to the top of that stack.
    Pull((ValueScope, usize)),
    /// Removes the value at an index; the values above it move down by one.
    Pop(usize),
    /// Moves the value at an index to the top; the others keep their order.
    Mov(usize),
    Add,
    Sub,
    Mul,
    Div,
}

/// An instruction, with its value as a view.
pub enum ByteNodeView {
    Push(ValueView),
    Pull((ValueScope, usize)),
    Pop(usize),
    Mov(usize),
    Add,
    Sub,
    Mul,
    Div,
}

impl View for ByteNode {
    type V = ByteNodeView;

    open spec fn view(&self) -> ByteNodeView {
        match self {
            ByteNode::Push(value) => ByteNodeView::Push(value@),
            ByteNode::Pull(place) => ByteNodeView::Pull(*place),
            ByteNode::Pop(index) => ByteNodeView::Pop(*index),
            ByteNode::Mov(index) => ByteNodeView::Mov(*index),
            ByteNode::Add => ByteNodeView::Add,
            ByteNode::Sub => ByteNodeView::Sub,
            ByteNode::Mul => ByteNodeView::Mul,
            ByteNode::Div => ByteNodeView::Div,
        }
    }
}

impl Clone for ByteNode {
    fn clone(&self) -> (copy: Self)
        ensures
            copy@ == self@,
    {
        match self {
            ByteNode::Push(value) => ByteNode::Push(value.clone()),
            ByteNode::Pull(place) => ByteNode::Pull((place.0, place.1)),
            ByteNode::Pop(index) => ByteNode::Pop(*index),
            ByteNode::Mov(index) => ByteNode::Mov(*index),
            ByteNode::Add => ByteNode::Add,
            ByteNode::Sub => ByteNode::Sub,
            ByteNode::Mul => ByteNode::Mul,
            ByteNode::Div => ByteNode::Div,
        }
    }
}

/// The views of a list of instructions, in the same order.
pub open spec fn byte_node_views(code: Seq<ByteNode>) -> Seq<ByteNodeView> {
    code.map_values(|node: ByteNode| node@)
}

/// A copy of the instructions `code`.
fn copy_code(code: &Vec<ByteNode>) -> (copy: Vec<ByteNode>)
    ensures
        byte_node_views(copy@) == byte_node_views(code@),
{
    let mut copy: Vec<ByteNode> = Vec::new();
    let mut i: usize = 0;
    while i < code.len()
        invariant
            i <= code.len(),
            copy.len() == i,
            forall|j: int| 0 <= j < i ==> (#[trigger] copy[j])@ == code[j]@,
        decreases code.len() - i,
    {
        copy.push(code[i].clone());
        i = i + 1;
    }
    assert(byte_node_views(copy@) =~= byte_node_views(code@));
    copy
}

/// A list of instructions: the global one, which is run once, or the body of
/// a function, which is run when the function is called.
#[derive(Debug)]
pub enum Scope {
    Global(Vec<ByteNode>),
    Function(Vec<ByteNode>),
}

/// A scope, with its instructions as views.
pub enum ScopeView {
    Global(Seq<ByteNodeView>),
    Function(Seq<ByteNodeView>),
}

impl View for Scope {
    type V = ScopeView;

    open spec fn view(&self) -> ScopeView {
        match self {
            Scope::Global(code) => ScopeView::Global(byte_node_views(code@)),
            Scope::Function(code) => ScopeView::Function(byte_node_views(code@)),
        }
    }
}

impl Clone for Scope {
    fn clone(&self) -> (copy: Self)
        ensures
            copy@ == self@,
    {
        match self {
            Scope::Global(code) => Scope::Global(copy_code(code)),
            Scope::Function(code) => Scope::Function(copy_code(code)),
        }
    }
}

/// A compiled unit: its scopes, in the order in which they are run.
#[derive(Debug)]
pub struct ByteCode {
    pub code: Vec<Scope>,
}

impl View for ByteCode {
    type V = Seq<ScopeView>;

    open spec fn view(&self) -> Seq<ScopeView> {
        self.code@.map_values(|scope: Scope| scope@)
    }
}

impl Clone for ByteCode {
    fn clone(&self) -> (copy: Self)
        ensures
            copy@ == self@,
    {
        let mut code: Vec<Scope> = Vec::new();
        let mut i: usize = 0;
        while i < self.code.len()
            invariant
                i <= self.code.len(),
                code.len() == i,
                forall|j: int| 0 <= j < i ==> (#[trigger] code[j])@ == self.code[j]@,
            decreases self.code.len() - i,
        {
            code.push(self.code[i].clone());
            i = i + 1;
        }
        let copy = ByteCode { code };
        assert(copy@ =~= self@);
        copy
    }
}

/// A copy of the values `values`.
pub fn copy_values(values: &Vec<Value>) -> (copy: Vec<Value>)
    ensures
        value_views(copy) == value_views(*values),
{
    let mut copy: Vec<Value> = Vec::new();
    let mut i: usize = 0;
    while i < values.len()
        invariant
            i <= values.len(),
            copy.len() == i,
            forall|j: int| 0 <= j < i ==> (#[trigger] copy[j])@ == values[j]@,
        decreases values.len() - i,
    {
        copy.push(values[i].clone());
        i = i + 1;
    }
    assert(value_views(copy) =~= value_views(*values));
    copy
}

} // verus!
