//! The virtual machine: a global stack, the stacks of the active call frame
//! and the frames that wait for a call to return. It runs one instruction
//! after the other, in the order of the program. The instructions of a global
//! scope work on the global stack, and those of a function on the local
//! stack of the active frame; a `Pull` works on the stack that it names.
//!
//! An index that names no slot is a fault that ends the life of the machine:
//! it halts, and runs nothing any more. Operands that are not numbers, and a
//! division by zero, end the run but leave the machine usable. Arithmetic on
//! floats is not carried out here: the run stops and hands the operands to the
//! caller, who puts the result on the stack and resumes after the
//! instruction.

use crate::backend::bytecode::{
    byte_node_views, copy_values, value_views, ByteCode, ByteNode, ByteNodeView, Scope, ScopeView, Value, ValueScope,
    ValueView,
};
use vstd::prelude::*;
use vstd::wrapping::i32_specs::signed_crop;

verus! {

/// An arithmetic instruction.
#[derive(Debug, Clone, Copy, PartialEq, Eq, Structural)]
pub enum Operation {
    Add,
    Sub,
    Mul,
    Div,
}

/// A numeric operand: an integer, or the bit pattern of a float.
#[derive(Debug, Clone, Copy, PartialEq, Eq, Structural)]
pub enum Number {
    Int(i32),
    Float(u32),
}

/// Why a run stopped before the end of the program.
#[derive(Debug, Clone, Copy, PartialEq, Eq, Structural)]
pub enum Cause {
    /// The two operands of an arithmetic instruction are not both numbers.
    /// The stack is as it was before the instruction.
    TypeMismatch,
    /// An index names no slot of its stack, or an arithmetic instruction
    /// found fewer than two values. The machine has halted.
    AddressOutOfRange,
    /// An integer was to be divided by zero. The stack is as it was before
    /// the instruction.
    DivisionByZero,
    /// An arithmetic instruction met a float. Its two operands were taken
    /// from the stack and are handed over: `left` lay below `right`.
    FloatArithmetic { operation: Operation, left: Number, right: Number },
    /// The machine had halted before the run began.
    Halted,
}

/// Where a run stopped, and why: the index of the scope in the unit and the
/// index of the instruction in the scope.
#[derive(Debug, Clone, Copy, PartialEq, Eq, Structural)]
pub struct Interrupt {
    pub scope: usize,
    pub index: usize,
    pub cause: Cause,
}

/// The two stacks of a call frame.
pub struct FrameView {
    pub local: Seq<ValueView>,
    pub args: Seq<ValueView>,
}

/// The state of a machine. Every stack is written bottom first.
pub struct Machine {
    pub global: Seq<ValueView>,
    /// The active frame.
    pub frame: FrameView,
    /// The frames of the callers, the oldest first.
    pub memory: Seq<FrameView>,
    pub halted: bool,
}

/// What an instruction does to the stack that it works on.
pub struct Effect {
    /// The stack after the instruction.
    pub stack: Seq<ValueView>,
    /// Why the instruction ends the run, if it does.
    pub cause: Option<Cause>,
}

/// What one instruction does to a machine.
pub enum Step {
    /// The machine after the instruction.
    Next(Machine),
    /// The instruction ended the run, and left the machine so.
    Stop(Machine, Cause),
}

/// What a run does to a machine.
pub struct Run {
    pub machine: Machine,
    pub result: Result<(), Interrupt>,
}

/// A machine with empty stacks.
pub open spec fn fresh() -> Machine {
    Machine {
        global: Seq::empty(),
        frame: FrameView { local: Seq::empty(), args: Seq::empty() },
        memory: Seq::empty(),
        halted: false,
    }
}

/// The stack that `scope` names.
pub open spec fn stack_of(machine: Machine, scope: ValueScope) -> Seq<ValueView> {
    match scope {
        ValueScope::Global => machine.global,
        ValueScope::Local => machine.frame.local,
        ValueScope::Args => machine.frame.args,
    }
}

/// The machine with `stack` in the place that `scope` names.
pub open spec fn with_stack(machine: Machine, scope: ValueScope, stack: Seq<ValueView>) -> Machine {
    match scope {
        ValueScope::Global => Machine { global: stack, ..machine },
        ValueScope::Local => Machine {
            frame: FrameView { local: stack, args: machine.frame.args },
            ..machine
        },
        ValueScope::Args => Machine {
            frame: FrameView { local: machine.frame.local, args: stack },
            ..machine
        },
    }
}

/// The machine after a call with the arguments `args`: the active frame
/// waits with the frames of the callers, and a fresh frame that holds the
/// arguments is active.
pub open spec fn entered(machine: Machine, args: Seq<ValueView>) -> Machine {
    Machine {
        frame: FrameView { local: Seq::empty(), args },
        memory: machine.memory.push(machine.frame),
        ..machine
    }
}

/// The machine after the return from a call: the active frame is given up,
/// and the frame of the caller is active again.
pub open spec fn left(machine: Machine) -> Machine {
    Machine { frame: machine.memory.last(), memory: machine.memory.drop_last(), ..machine }
}

/// The number that a value holds, if it holds one.
pub open spec fn number_of(value: ValueView) -> Option<Number> {
    match value {
        ValueView::Int(number) => Some(Number::Int(number)),
        ValueView::Float(bits) => Some(Number::Float(bits)),
        _ => None,
    }
}

/// The quotient of `left` by `right`, rounded towards zero.
pub open spec fn quotient(left: int, right: int) -> int {
    if left >= 0 && right > 0 {
        left / right
    } else if left < 0 && right < 0 {
        (-left) / (-right)
    } else if left < 0 {
        -((-left) / right)
    } else {
        -(left / (-right))
    }
}

/// The result of an operation on two integers, where `right` is not zero in
/// a division. A result that 32 bits cannot hold wraps around.
pub open spec fn int_result(operation: Operation, left: i32, right: i32) -> i32 {
    match operation {
        Operation::Add => signed_crop(left + right),
        Operation::Sub => signed_crop(left - right),
        Operation::Mul => signed_crop(left * right),
        Operation::Div => signed_crop(quotient(left as int, right as int)),
    }
}

/// An arithmetic instruction on a stack: the value at the top is the right
/// operand and the one below it the left. Two integers give an integer, which
/// takes their place. With a float among two numbers the operands are taken
/// from the stack and the instruction is left to the caller.
pub open spec fn arithmetic(stack: Seq<ValueView>, operation: Operation) -> Effect {
    let count = stack.len() as int;
    if count < 2 {
        Effect { stack, cause: Some(Cause::AddressOutOfRange) }
    } else {
        let left = number_of(stack[count - 2]);
        let right = number_of(stack[count - 1]);
        let rest = stack.take(count - 2);
        match (left, right) {
            (Some(Number::Int(a)), Some(Number::Int(b))) => if operation == Operation::Div && b
                == 0 {
                Effect { stack, cause: Some(Cause::DivisionByZero) }
            } else {
                Effect {
                    stack: rest.push(ValueView::Int(int_result(operation, a, b))),
                    cause: None,
                }
            },
            (Some(left), Some(right)) => Effect {
                stack: rest,
                cause: Some(Cause::FloatArithmetic { operation, left, right }),
            },
            _ => Effect { stack, cause: Some(Cause::TypeMismatch) },
        }
    }
}

/// What the instruction `node` does to the stack that it works on.
pub open spec fn effect(stack: Seq<ValueView>, node: ByteNodeView) -> Effect {
    match node {
        ByteNodeView::Push(value) => Effect { stack: stack.push(value), cause: None },
        ByteNodeView::Pull((_, index)) => if index < stack.len() {
            Effect { stack: stack.push(stack[index as int]), cause: None }
        } else {
            Effect { stack, cause: Some(Cause::AddressOutOfRange) }
        },
        ByteNodeView::Pop(index) => if index < stack.len() {
            Effect { stack: stack.remove(index as int), cause: None }
        } else {
            Effect { stack, cause: Some(Cause::AddressOutOfRange) }
        },
        ByteNodeView::Mov(index) => if index < stack.len() {
            Effect { stack: stack.remove(index as int).push(stack[index as int]), cause: None }
        } else {
            Effect { stack, cause: Some(Cause::AddressOutOfRange) }
        },
        ByteNodeView::Add => arithmetic(stack, Operation::Add),
        ByteNodeView::Sub => arithmetic(stack, Operation::Sub),
        ByteNodeView::Mul => arithmetic(stack, Operation::Mul),
        ByteNodeView::Div => arithmetic(stack, Operation::Div),
    }
}

/// The stack that the instruction `node` works on, where `active` is the
/// stack of the scope that holds it: a `Pull` works on the stack that it
/// names, and every other instruction on the active one.
pub open spec fn place_of(active: ValueScope, node: ByteNodeView) -> ValueScope {
    match node {
        ByteNodeView::Pull((scope, _)) => scope,
        _ => active,
    }
}

/// What the instruction `node` does to `machine`, where `active` is the
/// stack of the scope that holds it. An index that names no slot halts the
/// machine.
pub open spec fn step(machine: Machine, active: ValueScope, node: ByteNodeView) -> Step {
    let place = place_of(active, node);
    let done = effect(stack_of(machine, place), node);
    let after = with_stack(machine, place, done.stack);
    match done.cause {
        None => Step::Next(after),
        Some(Cause::AddressOutOfRange) => Step::Stop(
            Machine { halted: true, ..after },
            Cause::AddressOutOfRange,
        ),
        Some(cause) => Step::Stop(after, cause),
    }
}

/// The run of the instructions of `code` from `index` on, where `code` is
/// the scope at `scope` of its unit and works on the stack `active`.
pub open spec fn run_scope(
    machine: Machine,
    active: ValueScope,
    code: Seq<ByteNodeView>,
    scope: int,
    index: int,
) -> Run
    decreases code.len() - index,
{
    if 0 <= index < code.len() {
        match step(machine, active, code[index]) {
            Step::Next(next) => run_scope(next, active, code, scope, index + 1),
            Step::Stop(stopped, cause) => Run {
                machine: stopped,
                result: Err(Interrupt { scope: scope as usize, index: index as usize, cause }),
            },
        }
    } else {
        Run { machine, result: Ok(()) }
    }
}

/// The run of `unit` from the instruction `index` of its scope `scope` on.
/// Global scopes are run in their order. The body of a function is run only
/// by a call, so it is passed over.
pub open spec fn run_unit(machine: Machine, unit: Seq<ScopeView>, scope: int, index: int) -> Run
    decreases unit.len() - scope,
{
    if 0 <= scope < unit.len() {
        match unit[scope] {
            ScopeView::Global(code) => {
                let run = run_scope(machine, ValueScope::Global, code, scope, index);
                if run.result is Err {
                    run
                } else {
                    run_unit(run.machine, unit, scope + 1, 0)
                }
            },
            ScopeView::Function(_) => run_unit(machine, unit, scope + 1, 0),
        }
    } else {
        Run { machine, result: Ok(()) }
    }
}

/// What a run of a machine that has halted gives: nothing is done.
pub open spec fn refused(machine: Machine, scope: int, index: int) -> Run {
    Run {
        machine,
        result: Err(
            Interrupt { scope: scope as usize, index: index as usize, cause: Cause::Halted },
        ),
    }
}

/// What a machine does when it is asked to run `unit` from the instruction
/// `index` of its scope `scope` on. A machine that has halted does nothing.
pub open spec fn run(machine: Machine, unit: Seq<ScopeView>, scope: int, index: int) -> Run {
    if machine.halted {
        refused(machine, scope, index)
    } else {
        run_unit(machine, unit, scope, index)
    }
}

/// What a machine does when it is asked to run the body of the function at
/// `scope` of `unit` from the instruction `index` on: the body works on the
/// local stack of the active frame. Where no function stands at `scope`,
/// there is nothing to run. A machine that has halted does nothing.
pub open spec fn run_body(machine: Machine, unit: Seq<ScopeView>, scope: int, index: int) -> Run {
    if machine.halted {
        refused(machine, scope, index)
    } else if 0 <= scope < unit.len() && unit[scope] is Function {
        run_scope(machine, ValueScope::Local, unit[scope]->Function_0, scope, index)
    } else {
        Run { machine, result: Ok(()) }
    }
}

proof fn lemma_views_push(before: Vec<Value>, after: Vec<Value>, value: Value)
    requires
        after@ == before@.push(value),
    ensures
        value_views(after) == value_views(before).push(value@),
{
    assert(value_views(after) =~= value_views(before).push(value@));
}

proof fn lemma_views_remove(before: Vec<Value>, after: Vec<Value>, index: int)
    requires
        0 <= index < before.len(),
        after@ == before@.remove(index),
    ensures
        value_views(after) == value_views(before).remove(index),
{
    assert(value_views(after) =~= value_views(before).remove(index));
}

proof fn lemma_views_drop_last(before: Vec<Value>, after: Vec<Value>)
    requires
        before.len() > 0,
        after@ == before@.subrange(0, before.len() - 1),
    ensures
        value_views(after) == value_views(before).take(before.len() - 1),
{
    assert(value_views(after) =~= value_views(before).take(before.len() - 1));
}

/// The number that `value` holds, if it holds one.
fn read_number(value: &Value) -> (number: Option<Number>)
    ensures
        number == number_of(value@),
{
    match value {
        Value::Int(number) => Some(Number::Int(*number)),
        Value::Float(bits) => Some(Number::Float(*bits)),
        _ => None,
    }
}

/// The result of `operation` on two integers, or nothing for a division by
/// zero.
fn compute(operation: Operation, left: i32, right: i32) -> (result: Option<i32>)
    ensures
        result == if operation == Operation::Div && right == 0 {
            None
        } else {
            Some(int_result(operation, left, right))
        },
{
    match operation {
        Operation::Add => Some(left.wrapping_add(right)),
        Operation::Sub => Some(left.wrapping_sub(right)),
        Operation::Mul => Some(left.wrapping_mul(right)),
        Operation::Div => {
            if right == 0 {
                None
            } else {
                match left.checked_div(right) {
                    Some(result) => Some(result),
                    None => Some(i32::MIN),
                }
            }
        },
    }
}

/// Carries out an arithmetic instruction on `stack`.
fn calculate(stack: &mut Vec<Value>, operation: Operation) -> (cause: Option<Cause>)
    ensures
        cause == arithmetic(value_views(*old(stack)), operation).cause,
        value_views(*final(stack)) == arithmetic(value_views(*old(stack)), operation).stack,
{
    let count = stack.len();
    if count < 2 {
        return Some(Cause::AddressOutOfRange);
    }
    let left = read_number(&stack[count - 2]);
    let right = read_number(&stack[count - 1]);
    let ghost before = *stack;
    match (left, right) {
        (Some(Number::Int(a)), Some(Number::Int(b))) => {
            match compute(operation, a, b) {
                None => Some(Cause::DivisionByZero),
                Some(result) => {
                    stack.pop();
                    let ghost middle = *stack;
                    stack.pop();
                    let ghost rest = *stack;
                    stack.push(Value::Int(result));
                    proof {
                        lemma_views_drop_last(before, middle);
                        lemma_views_drop_last(middle, rest);
                        lemma_views_push(rest, *stack, Value::Int(result));
                        assert(value_views(rest) =~= value_views(before).take(count - 2));
                    }
                    None
                },
            }
        },
        (Some(left), Some(right)) => {
            stack.pop();
            let ghost middle = *stack;
            stack.pop();
            proof {
                lemma_views_drop_last(before, middle);
                lemma_views_drop_last(middle, *stack);
                assert(value_views(*stack) =~= value_views(before).take(count - 2));
            }
            Some(Cause::FloatArithmetic { operation, left, right })
        },
        _ => Some(Cause::TypeMismatch),
    }
}

/// Carries out the instruction `node` on `stack`, the stack that it works
/// on.
fn apply(stack: &mut Vec<Value>, node: &ByteNode) -> (cause: Option<Cause>)
    ensures
        cause == effect(value_views(*old(stack)), node@).cause,
        value_views(*final(stack)) == effect(value_views(*old(stack)), node@).stack,
{
    let ghost before = *stack;
    match node {
        ByteNode::Push(value) => {
            let value = value.clone();
            stack.push(value);
            proof {
                lemma_views_push(before, *stack, value);
            }
            None
        },
        ByteNode::Pull(place) => {
            if place.1 < stack.len() {
                let value = stack[place.1].clone();
                stack.push(value);
                proof {
                    lemma_views_push(before, *stack, value);
                }
                None
            } else {
                Some(Cause::AddressOutOfRange)
            }
        },
        ByteNode::Pop(index) => {
            if *index < stack.len() {
                stack.remove(*index);
                proof {
                    lemma_views_remove(before, *stack, *index as int);
                }
                None
            } else {
                Some(Cause::AddressOutOfRange)
            }
        },
        ByteNode::Mov(index) => {
            if *index < stack.len() {
                let value = stack.remove(*index);
                let ghost middle = *stack;
                stack.push(value);
                proof {
                    lemma_views_remove(before, middle, *index as int);
                    lemma_views_push(middle, *stack, value);
                }
                None
            } else {
                Some(Cause::AddressOutOfRange)
            }
        },
        ByteNode::Add => calculate(stack, Operation::Add),
        ByteNode::Sub => calculate(stack, Operation::Sub),
        ByteNode::Mul => calculate(stack, Operation::Mul),
        ByteNode::Div => calculate(stack, Operation::Div),
    }
}

/// The stacks of a call frame.
#[derive(Debug)]
struct Frame {
    local: Vec<Value>,
    args: Vec<Value>,
}

impl View for Frame {
    type V = FrameView;

    closed spec fn view(&self) -> FrameView {
        FrameView { local: value_views(self.local), args: value_views(self.args) }
    }
}

/// A machine.
#[derive(Debug)]
pub struct Runtime {
    global_stack: Vec<Value>,
    local_stack: Frame,
    stack_memory: Vec<Frame>,
    halted: bool,
}

impl View for Runtime {
    type V = Machine;

    closed spec fn view(&self) -> Machine {
        Machine {
            global: value_views(self.global_stack),
            frame: self.local_stack@,
            memory: self.stack_memory@.map_values(|frame: Frame| frame@),
            halted: self.halted,
        }
    }
}

impl Runtime {
    /// A machine with empty stacks.
    pub fn new() -> (runtime: Self)
        ensures
            runtime@ == fresh(),
    {
        let runtime = Runtime {
            global_stack: Vec::new(),
            local_stack: Frame { local: Vec::new(), args: Vec::new() },
            stack_memory: Vec::new(),
            halted: false,
        };
        assert(runtime@.global =~= Seq::empty());
        assert(runtime@.frame.local =~= Seq::empty());
        assert(runtime@.frame.args =~= Seq::empty());
        assert(runtime@.memory =~= Seq::empty());
        runtime
    }

    /// The global stack, bottom first.
    pub fn global_stack(&self) -> (stack: &Vec<Value>)
        ensures
            value_views(*stack) == self@.global,
    {
        &self.global_stack
    }

    /// The local stack of the active frame, bottom first.
    pub fn local_stack(&self) -> (stack: &Vec<Value>)
        ensures
            value_views(*stack) == self@.frame.local,
    {
        &self.local_stack.local
    }

    /// The argument stack of the active frame, bottom first.
    pub fn args_stack(&self) -> (stack: &Vec<Value>)
        ensures
            value_views(*stack) == self@.frame.args,
    {
        &self.local_stack.args
    }

    /// Whether a fault has ended the life of the machine.
    pub fn is_halted(&self) -> (halted: bool)
        ensures
            halted == self@.halted,
    {
        self.halted
    }

    /// Begins a call with the arguments `args`, unless the machine has
    /// halted: a fresh frame becomes the active one, and the frame that was
    /// active waits for the return.
    pub fn enter_frame(&mut self, args: Vec<Value>) -> (entered_frame: bool)
        ensures
            entered_frame == !old(self)@.halted,
            final(self)@ == if old(self)@.halted {
                old(self)@
            } else {
                entered(old(self)@, value_views(args))
            },
    {
        if self.halted {
            return false;
        }
        let ghost memory = self.stack_memory@;
        let mut frame = Frame { local: Vec::new(), args };
        assert(frame@.local =~= Seq::empty());
        std::mem::swap(&mut self.local_stack, &mut frame);
        self.stack_memory.push(frame);
        assert(self.stack_memory@.map_values(|frame: Frame| frame@) =~= memory.map_values(
            |frame: Frame| frame@,
        ).push(frame@));
        true
    }

    /// Returns from a call, where one is under way and the machine has not
    /// halted: the active frame is given up, and the frame that waited last
    /// is active again.
    pub fn leave_frame(&mut self) -> (left_frame: bool)
        ensures
            left_frame == (!old(self)@.halted && old(self)@.memory.len() > 0),
            final(self)@ == if left_frame {
                left(old(self)@)
            } else {
                old(self)@
            },
    {
        if self.halted {
            return false;
        }
        let ghost memory = self.stack_memory@;
        match self.stack_memory.pop() {
            Some(frame) => {
                assert(self.stack_memory@.map_values(|frame: Frame| frame@) =~= memory.map_values(
                    |frame: Frame| frame@,
                ).drop_last());
                self.local_stack = frame;
                true
            },
            None => false,
        }
    }

    /// Carries out one instruction of a scope that works on the stack
    /// `active`.
    fn execute(&mut self, active: ValueScope, node: &ByteNode) -> (cause: Option<Cause>)
        ensures
            match step(old(self)@, active, node@) {
                Step::Next(next) => cause is None && final(self)@ == next,
                Step::Stop(stopped, why) => cause == Some(why) && final(self)@ == stopped,
            },
    {
        let place = match node {
            ByteNode::Pull(place) => place.0,
            _ => active,
        };
        let cause = match place {
            ValueScope::Global => apply(&mut self.global_stack, node),
            ValueScope::Local => apply(&mut self.local_stack.local, node),
            ValueScope::Args => apply(&mut self.local_stack.args, node),
        };
        match cause {
            Some(Cause::AddressOutOfRange) => {
                self.halted = true;
            },
            _ => {},
        }
        cause
    }

    /// Runs the instructions of a scope from `index` on.
    fn run_code(
        &mut self,
        active: ValueScope,
        code: &Vec<ByteNode>,
        scope: usize,
        index: usize,
    ) -> (result: Result<(), Interrupt>)
        ensures
            ({
                let run = run_scope(
                    old(self)@,
                    active,
                    byte_node_views(code@),
                    scope as int,
                    index as int,
                );
                final(self)@ == run.machine && result == run.result
            }),
    {
        let ghost views = byte_node_views(code@);
        let mut i = index;
        while i < code.len()
            invariant
                views == byte_node_views(code@),
                run_scope(self@, active, views, scope as int, i as int) == run_scope(
                    old(self)@,
                    active,
                    views,
                    scope as int,
                    index as int,
                ),
            decreases code.len() - i,
        {
            match self.execute(active, &code[i]) {
                None => {
                    i = i + 1;
                },
                Some(cause) => {
                    return Err(Interrupt { scope, index: i, cause });
                },
            }
        }
        Ok(())
    }

    /// Runs `input` from the instruction `index` of its scope `scope` on.
    /// After a stop for float arithmetic, this resumes the run: the caller
    /// puts the result on the stack and goes on with the next instruction.
    pub fn run_from(&mut self, input: &ByteCode, scope: usize, index: usize) -> (result: Result<
        (),
        Interrupt,
    >)
        ensures
            ({
                let run = run(old(self)@, input@, scope as int, index as int);
                final(self)@ == run.machine && result == run.result
            }),
    {
        if self.halted {
            return Err(Interrupt { scope, index, cause: Cause::Halted });
        }
        let mut s = scope;
        let mut i = index;
        while s < input.code.len()
            invariant
                !old(self)@.halted,
                run_unit(self@, input@, s as int, i as int) == run_unit(
                    old(self)@,
                    input@,
                    scope as int,
                    index as int,
                ),
            decreases input.code.len() - s,
        {
            assert(input@[s as int] == input.code[s as int]@);
            match &input.code[s] {
                Scope::Global(code) => {
                    match self.run_code(ValueScope::Global, code, s, i) {
                        Ok(()) => {},
                        Err(interrupt) => {
                            return Err(interrupt);
                        },
                    }
                },
                Scope::Function(_) => {},
            }
            s = s + 1;
            i = 0;
        }
        Ok(())
    }

    /// Runs `input` from its first instruction on.
    pub fn run_byte(&mut self, input: ByteCode) -> (result: Result<(), Interrupt>)
        ensures
            ({
                let run = run(old(self)@, input@, 0, 0);
                final(self)@ == run.machine && result == run.result
            }),
    {
        self.run_from(&input, 0, 0)
    }

    /// Runs the body of the function at `scope` of `input` from the
    /// instruction `index` on. The body works on the local stack of the
    /// active frame: the caller begins the call before and returns from it
    /// after.
    pub fn run_function(&mut self, input: &ByteCode, scope: usize, index: usize) -> (result: Result<
        (),
        Interrupt,
    >)
        ensures
            ({
                let run = run_body(old(self)@, input@, scope as int, index as int);
                final(self)@ == run.machine && result == run.result
            }),
    {
        if self.halted {
            return Err(Interrupt { scope, index, cause: Cause::Halted });
        }
        if scope >= input.code.len() {
            return Ok(());
        }
        assert(input@[scope as int] == input.code[scope as int]@);
        match &input.code[scope] {
            Scope::Function(code) => self.run_code(ValueScope::Local, code, scope, index),
            Scope::Global(_) => Ok(()),
        }
    }
}

/// The unit that holds the instructions `code` in one global scope.
pub open spec fn global_unit(code: Seq<ByteNodeView>) -> Seq<ScopeView> {
    seq![ScopeView::Global(code)]
}

/// Values are put on the stack in the order in which they are pushed: two
/// pushes on a machine that has not halted leave the first value below the
/// second, on top of what the stack held. From the empty stack the result is
/// the stack of the two values.
pub proof fn lemma_push_appends(machine: Machine, first: ValueView, second: ValueView)
    requires
        !machine.halted,
    ensures
        run(
            machine,
            global_unit(seq![ByteNodeView::Push(first), ByteNodeView::Push(second)]),
            0,
            0,
        ) == (Run {
            machine: Machine { global: machine.global.push(first).push(second), ..machine },
            result: Ok(()),
        }),
        machine.global.len() == 0 ==> machine.global.push(first).push(second) == seq![
            first,
            second,
        ],
{
    let code = seq![ByteNodeView::Push(first), ByteNodeView::Push(second)];
    let unit = global_unit(code);
    let one = Machine { global: machine.global.push(first), ..machine };
    let two = Machine { global: machine.global.push(first).push(second), ..machine };
    assert(run_scope(two, ValueScope::Global, code, 0, 2) == Run { machine: two, result: Ok(()) });
    assert(run_scope(one, ValueScope::Global, code, 0, 1) == run_scope(two, ValueScope::Global, code, 0, 2));
    assert(run_scope(machine, ValueScope::Global, code, 0, 0) == run_scope(one, ValueScope::Global, code, 0, 1));
    assert(run_unit(two, unit, 1, 0) == Run { machine: two, result: Ok(()) });
    assert(run_unit(machine, unit, 0, 0) == run_unit(two, unit, 1, 0));
    if machine.global.len() == 0 {
        assert(machine.global.push(first).push(second) =~= seq![first, second]);
    }
}

/// What running the single instruction `node` of a global scope does to a
/// machine that has not halted is what `step` says of it.
pub proof fn lemma_run_single(machine: Machine, node: ByteNodeView)
    requires
        !machine.halted,
    ensures
        run(machine, global_unit(seq![node]), 0, 0) == match step(machine, ValueScope::Global, node) {
            Step::Next(next) => Run { machine: next, result: Ok(()) },
            Step::Stop(stopped, cause) => Run {
                machine: stopped,
                result: Err(Interrupt { scope: 0, index: 0, cause }),
            },
        },
{
    let code = seq![node];
    let unit = global_unit(code);
    match step(machine, ValueScope::Global, node) {
        Step::Next(next) => {
            assert(run_scope(next, ValueScope::Global, code, 0, 1) == Run { machine: next, result: Ok(()) });
            assert(run_scope(machine, ValueScope::Global, code, 0, 0) == run_scope(next, ValueScope::Global, code, 0, 1));
            assert(run_unit(next, unit, 1, 0) == Run { machine: next, result: Ok(()) });
            assert(run_unit(machine, unit, 0, 0) == run_unit(next, unit, 1, 0));
        },
        Step::Stop(stopped, cause) => {
            assert(run_unit(machine, unit, 0, 0) == run_scope(machine, ValueScope::Global, code, 0, 0));
        },
    }
}

/// `Pull` of the global stack at an index that names a slot makes the stack
/// longer by one: what it held stays where it was, and the new top is equal
/// to the value at the index. Nothing else changes.
pub proof fn lemma_pull_duplicates(machine: Machine, index: usize)
    requires
        !machine.halted,
        index < machine.global.len(),
    ensures
        ({
            let after = run(
                machine,
                global_unit(seq![ByteNodeView::Pull((ValueScope::Global, index))]),
                0,
                0,
            );
            &&& after.result == Ok::<(), Interrupt>(())
            &&& after.machine.global.len() == machine.global.len() + 1
            &&& forall|j: int|
                0 <= j < machine.global.len() ==> after.machine.global[j] == machine.global[j]
            &&& after.machine.global.last() == machine.global[index as int]
            &&& after.machine == Machine { global: after.machine.global, ..machine }
        }),
{
    lemma_run_single(machine, ByteNodeView::Pull((ValueScope::Global, index)));
}

/// `Pop` at an index that names a slot makes the stack shorter by one: the
/// value at the index is gone, the values below it stay where they were and
/// the values above it move down by one. Nothing else changes.
pub proof fn lemma_pop_removes(machine: Machine, index: usize)
    requires
        !machine.halted,
        index < machine.global.len(),
    ensures
        ({
            let after = run(machine, global_unit(seq![ByteNodeView::Pop(index)]), 0, 0);
            &&& after.result == Ok::<(), Interrupt>(())
            &&& after.machine.global.len() == machine.global.len() - 1
            &&& forall|j: int| 0 <= j < index ==> after.machine.global[j] == machine.global[j]
            &&& forall|j: int|
                index <= j < machine.global.len() - 1 ==> after.machine.global[j]
                    == machine.global[j + 1]
            &&& after.machine == Machine { global: after.machine.global, ..machine }
        }),
{
    lemma_run_single(machine, ByteNodeView::Pop(index));
}

/// `Mov` at an index that names a slot keeps the length of the stack: the
/// value at the index becomes the top, and the others keep their order.
pub proof fn lemma_mov_promotes(machine: Machine, index: usize)
    requires
        !machine.halted,
        index < machine.global.len(),
    ensures
        ({
            let after = run(machine, global_unit(seq![ByteNodeView::Mov(index)]), 0, 0);
            &&& after.result == Ok::<(), Interrupt>(())
            &&& after.machine.global.len() == machine.global.len()
            &&& after.machine.global.last() == machine.global[index as int]
            &&& after.machine.global.drop_last() == machine.global.remove(index as int)
            &&& after.machine == Machine { global: after.machine.global, ..machine }
        }),
{
    lemma_run_single(machine, ByteNodeView::Mov(index));
    let after = run(machine, global_unit(seq![ByteNodeView::Mov(index)]), 0, 0);
    assert(after.machine.global.drop_last() =~= machine.global.remove(index as int));
}

/// An instruction of the body of a function that is no `Pull` works on the
/// local stack of the active frame alone: the global stack, the arguments and
/// the frames that wait are left as they were.
pub proof fn lemma_body_works_on_local(machine: Machine, node: ByteNodeView)
    requires
        !(node is Pull),
    ensures
        ({
            let after = match step(machine, ValueScope::Local, node) {
                Step::Next(next) => next,
                Step::Stop(stopped, cause) => stopped,
            };
            &&& after.global == machine.global
            &&& after.frame.args == machine.frame.args
            &&& after.memory == machine.memory
        }),
{
}

/// A call and the return from it leave the machine as it was: the frames are
/// kept as on a stack.
pub proof fn lemma_leave_undoes_enter(machine: Machine, args: Seq<ValueView>)
    ensures
        left(entered(machine, args)) == machine,
{
    assert(machine.memory.push(machine.frame).drop_last() =~= machine.memory);
}

/// An index that names no slot halts the machine, and a halted machine runs
/// nothing: the fault is not recovered from.
pub proof fn lemma_fault_is_final(machine: Machine, index: usize, unit: Seq<ScopeView>)
    requires
        !machine.halted,
        index >= machine.global.len(),
    ensures
        ({
            let after = run(machine, global_unit(seq![ByteNodeView::Pop(index)]), 0, 0);
            &&& after.result == Err::<(), Interrupt>(
                Interrupt { scope: 0, index: 0, cause: Cause::AddressOutOfRange },
            )
            &&& after.machine == Machine { halted: true, ..machine }
            &&& run(after.machine, unit, 0, 0) == Run {
                machine: after.machine,
                result: Err(Interrupt { scope: 0, index: 0, cause: Cause::Halted }),
            }
        }),
{
    lemma_run_single(machine, ByteNodeView::Pop(index));
}

impl Clone for Frame {
    fn clone(&self) -> (copy: Self)
        ensures
            copy@ == self@,
    {
        Frame { local: copy_values(&self.local), args: copy_values(&self.args) }
    }
}

impl Clone for Runtime {
    fn clone(&self) -> (copy: Self)
        ensures
            copy@ == self@,
    {
        let mut memory: Vec<Frame> = Vec::new();
        let mut i: usize = 0;
        while i < self.stack_memory.len()
            invariant
                i <= self.stack_memory.len(),
                memory.len() == i,
                forall|j: int| 0 <= j < i ==> (#[trigger] memory[j])@ == self.stack_memory[j]@,
            decreases self.stack_memory.len() - i,
        {
            memory.push(self.stack_memory[i].clone());
            i = i + 1;
        }
        let copy = Runtime {
            global_stack: copy_values(&self.global_stack),
            local_stack: self.local_stack.clone(),
            stack_memory: memory,
            halted: self.halted,
        };
        assert(copy@.memory =~= self@.memory);
        copy
    }
}

} // verus!
