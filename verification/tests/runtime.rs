use srzs_lang::backend::bytecode::{ByteCode, ByteNode, Scope, Value, ValueScope};
use srzs_lang::runtime::{Cause, Interrupt, Number, Operation, Runtime};

fn unit(code: Vec<ByteNode>) -> ByteCode {
    ByteCode { code: vec![Scope::Global(code)] }
}

fn ints(stack: &Vec<Value>) -> Vec<i32> {
    stack
        .iter()
        .map(|value| match value {
            Value::Int(number) => *number,
            _ => panic!("no integer"),
        })
        .collect()
}

fn push(number: i32) -> ByteNode {
    ByteNode::Push(Value::Int(number))
}

fn run(code: Vec<ByteNode>) -> (Runtime, Result<(), Interrupt>) {
    let mut runtime = Runtime::new();
    let result = runtime.run_byte(unit(code));
    (runtime, result)
}

#[test]
fn new_runtime_is_empty() {
    let runtime = Runtime::new();
    assert!(runtime.global_stack().is_empty());
    assert!(runtime.local_stack().is_empty());
    assert!(runtime.args_stack().is_empty());
    assert!(!runtime.is_halted());
}

#[test]
fn pushes_stack_in_the_order_of_execution() {
    let (runtime, result) = run(vec![push(7), push(-3)]);
    assert_eq!(result, Ok(()));
    assert_eq!(ints(runtime.global_stack()), vec![7, -3]);
}

#[test]
fn pushes_keep_every_kind_of_value() {
    let (runtime, result) = run(vec![
        ByteNode::Push(Value::String("text".to_string())),
        ByteNode::Push(Value::Float(1.5f32.to_bits())),
        ByteNode::Push(Value::Array(vec![Value::Int(1), Value::Array(vec![Value::Int(2)])])),
    ]);
    assert_eq!(result, Ok(()));
    let stack = runtime.global_stack();
    assert_eq!(stack.len(), 3);
    match &stack[0] {
        Value::String(text) => assert_eq!(text, "text"),
        _ => panic!("no string"),
    }
    match &stack[1] {
        Value::Float(bits) => assert_eq!(f32::from_bits(*bits), 1.5),
        _ => panic!("no float"),
    }
    match &stack[2] {
        Value::Array(items) => {
            assert_eq!(items.len(), 2);
            match &items[1] {
                Value::Array(inner) => assert_eq!(ints(inner), vec![2]),
                _ => panic!("no array"),
            }
        }
        _ => panic!("no array"),
    }
}

#[test]
fn pull_copies_to_the_top() {
    let (runtime, result) =
        run(vec![push(10), push(20), push(30), ByteNode::Pull((ValueScope::Global, 1))]);
    assert_eq!(result, Ok(()));
    assert_eq!(ints(runtime.global_stack()), vec![10, 20, 30, 20]);
}

#[test]
fn pop_removes_at_the_index() {
    let (runtime, result) = run(vec![push(10), push(20), push(30), push(40), ByteNode::Pop(1)]);
    assert_eq!(result, Ok(()));
    assert_eq!(ints(runtime.global_stack()), vec![10, 30, 40]);
}

#[test]
fn mov_promotes_to_the_top() {
    let (runtime, result) = run(vec![push(10), push(20), push(30), push(20), ByteNode::Mov(1)]);
    assert_eq!(result, Ok(()));
    assert_eq!(ints(runtime.global_stack()), vec![10, 30, 20, 20]);
    let (runtime, _) = run(vec![push(10), push(20), ByteNode::Mov(1)]);
    assert_eq!(ints(runtime.global_stack()), vec![10, 20]);
}

#[test]
fn golden_trace() {
    let (runtime, result) = run(vec![
        push(10),
        push(2),
        push(3),
        ByteNode::Pull((ValueScope::Global, 0)),
        ByteNode::Pop(2),
    ]);
    assert_eq!(result, Ok(()));
    assert_eq!(ints(runtime.global_stack()), vec![10, 2, 10]);
}

#[test]
fn integer_arithmetic() {
    assert_eq!(ints(run(vec![push(7), push(5), ByteNode::Add]).0.global_stack()), vec![12]);
    assert_eq!(ints(run(vec![push(7), push(5), ByteNode::Sub]).0.global_stack()), vec![2]);
    assert_eq!(ints(run(vec![push(7), push(5), ByteNode::Mul]).0.global_stack()), vec![35]);
    assert_eq!(ints(run(vec![push(7), push(2), ByteNode::Div]).0.global_stack()), vec![3]);
    assert_eq!(ints(run(vec![push(-7), push(2), ByteNode::Div]).0.global_stack()), vec![-3]);
    assert_eq!(ints(run(vec![push(7), push(-2), ByteNode::Div]).0.global_stack()), vec![-3]);
    assert_eq!(ints(run(vec![push(-7), push(-2), ByteNode::Div]).0.global_stack()), vec![3]);
    assert_eq!(
        ints(run(vec![push(1), push(10), push(2), ByteNode::Mul]).0.global_stack()),
        vec![1, 20]
    );
}

#[test]
fn integer_arithmetic_wraps_around() {
    assert_eq!(
        ints(run(vec![push(i32::MAX), push(1), ByteNode::Add]).0.global_stack()),
        vec![i32::MIN]
    );
    assert_eq!(
        ints(run(vec![push(i32::MIN), push(1), ByteNode::Sub]).0.global_stack()),
        vec![i32::MAX]
    );
    assert_eq!(
        ints(run(vec![push(65536), push(65537), ByteNode::Mul]).0.global_stack()),
        vec![65536]
    );
    assert_eq!(
        ints(run(vec![push(i32::MIN), push(-1), ByteNode::Div]).0.global_stack()),
        vec![i32::MIN]
    );
}

#[test]
fn division_by_zero_stops_the_run() {
    let (mut runtime, result) = run(vec![push(1), push(0), ByteNode::Div, push(9)]);
    assert_eq!(result, Err(Interrupt { scope: 0, index: 2, cause: Cause::DivisionByZero }));
    assert_eq!(ints(runtime.global_stack()), vec![1, 0]);
    assert!(!runtime.is_halted());
    assert_eq!(runtime.run_byte(unit(vec![push(5)])), Ok(()));
    assert_eq!(ints(runtime.global_stack()), vec![1, 0, 5]);
}

#[test]
fn operands_that_are_no_numbers_stop_the_run() {
    let (mut runtime, result) =
        run(vec![push(1), ByteNode::Push(Value::String("a".to_string())), ByteNode::Add]);
    assert_eq!(result, Err(Interrupt { scope: 0, index: 2, cause: Cause::TypeMismatch }));
    assert_eq!(runtime.global_stack().len(), 2);
    assert!(!runtime.is_halted());
    assert_eq!(runtime.run_byte(unit(vec![ByteNode::Pop(1), push(2), ByteNode::Add])), Ok(()));
    assert_eq!(ints(runtime.global_stack()), vec![3]);

    let (_, result) = run(vec![ByteNode::Push(Value::Array(vec![])), push(1), ByteNode::Mul]);
    assert_eq!(result, Err(Interrupt { scope: 0, index: 2, cause: Cause::TypeMismatch }));
}

#[test]
fn float_arithmetic_is_handed_to_the_caller() {
    let code = unit(vec![
        push(9),
        push(2),
        ByteNode::Push(Value::Float(0.5f32.to_bits())),
        ByteNode::Mul,
        ByteNode::Pull((ValueScope::Global, 0)),
    ]);
    let mut runtime = Runtime::new();
    let result = runtime.run_from(&code, 0, 0);
    assert_eq!(
        result,
        Err(Interrupt {
            scope: 0,
            index: 3,
            cause: Cause::FloatArithmetic {
                operation: Operation::Mul,
                left: Number::Int(2),
                right: Number::Float(0.5f32.to_bits()),
            },
        })
    );
    assert_eq!(ints(runtime.global_stack()), vec![9]);
    assert!(!runtime.is_halted());

    let product = 2.0f32 * 0.5f32;
    assert_eq!(
        runtime.run_byte(unit(vec![ByteNode::Push(Value::Float(product.to_bits()))])),
        Ok(())
    );
    assert_eq!(runtime.run_from(&code, 0, 4), Ok(()));
    let stack = runtime.global_stack();
    assert_eq!(stack.len(), 3);
    match &stack[1] {
        Value::Float(bits) => assert_eq!(f32::from_bits(*bits), 1.0),
        _ => panic!("no float"),
    }
    match &stack[2] {
        Value::Int(number) => assert_eq!(*number, 9),
        _ => panic!("no integer"),
    }
}

#[test]
fn an_index_out_of_range_halts_the_machine() {
    let (mut runtime, result) = run(vec![push(1), ByteNode::Pop(1), push(2)]);
    assert_eq!(result, Err(Interrupt { scope: 0, index: 1, cause: Cause::AddressOutOfRange }));
    assert_eq!(ints(runtime.global_stack()), vec![1]);
    assert!(runtime.is_halted());
    assert_eq!(
        runtime.run_byte(unit(vec![push(3)])),
        Err(Interrupt { scope: 0, index: 0, cause: Cause::Halted })
    );
    assert_eq!(ints(runtime.global_stack()), vec![1]);

    assert_eq!(
        run(vec![ByteNode::Pull((ValueScope::Global, 0))]).1,
        Err(Interrupt { scope: 0, index: 0, cause: Cause::AddressOutOfRange })
    );
    assert_eq!(
        run(vec![push(1), ByteNode::Mov(5)]).1,
        Err(Interrupt { scope: 0, index: 1, cause: Cause::AddressOutOfRange })
    );
    assert_eq!(
        run(vec![push(1), ByteNode::Add]).1,
        Err(Interrupt { scope: 0, index: 1, cause: Cause::AddressOutOfRange })
    );
    assert_eq!(
        run(vec![ByteNode::Pull((ValueScope::Local, 0))]).1,
        Err(Interrupt { scope: 0, index: 0, cause: Cause::AddressOutOfRange })
    );
    assert_eq!(
        run(vec![ByteNode::Pull((ValueScope::Args, 0))]).1,
        Err(Interrupt { scope: 0, index: 0, cause: Cause::AddressOutOfRange })
    );
}

#[test]
fn scopes_run_in_order_and_functions_are_passed_over() {
    let mut runtime = Runtime::new();
    let code = ByteCode {
        code: vec![
            Scope::Global(vec![push(1)]),
            Scope::Function(vec![push(100), ByteNode::Pop(9)]),
            Scope::Global(vec![push(2), ByteNode::Pop(7)]),
            Scope::Global(vec![push(3)]),
        ],
    };
    assert_eq!(
        runtime.run_byte(code),
        Err(Interrupt { scope: 2, index: 1, cause: Cause::AddressOutOfRange })
    );
    assert_eq!(ints(runtime.global_stack()), vec![1, 2]);
}

#[test]
fn a_run_can_begin_in_the_middle() {
    let code = ByteCode {
        code: vec![Scope::Global(vec![push(1), push(2)]), Scope::Global(vec![push(3), push(4)])],
    };
    let mut runtime = Runtime::new();
    assert_eq!(runtime.run_from(&code, 0, 1), Ok(()));
    assert_eq!(ints(runtime.global_stack()), vec![2, 3, 4]);
    let mut runtime = Runtime::new();
    assert_eq!(runtime.run_from(&code, 1, 1), Ok(()));
    assert_eq!(ints(runtime.global_stack()), vec![4]);
    let mut runtime = Runtime::new();
    assert_eq!(runtime.run_from(&code, 2, 0), Ok(()));
    assert!(runtime.global_stack().is_empty());
}

#[test]
fn a_copy_of_a_value_is_equal_in_every_part() {
    let value = Value::Array(vec![
        Value::Int(1),
        Value::String("s".to_string()),
        Value::Array(vec![Value::Float(7)]),
    ]);
    match value.clone() {
        Value::Array(items) => {
            assert_eq!(items.len(), 3);
            match &items[1] {
                Value::String(text) => assert_eq!(text, "s"),
                _ => panic!("no string"),
            }
            match &items[2] {
                Value::Array(inner) => match &inner[0] {
                    Value::Float(bits) => assert_eq!(*bits, 7),
                    _ => panic!("no float"),
                },
                _ => panic!("no array"),
            }
        }
        _ => panic!("no array"),
    }
}

#[test]
fn a_call_gets_a_fresh_frame_and_a_return_restores_the_caller() {
    let mut runtime = Runtime::new();
    assert!(!runtime.leave_frame());
    assert!(runtime.enter_frame(vec![Value::Int(4), Value::Int(5)]));
    assert_eq!(ints(runtime.args_stack()), vec![4, 5]);
    assert!(runtime.local_stack().is_empty());
    assert_eq!(
        runtime.run_byte(unit(vec![
            ByteNode::Pull((ValueScope::Args, 1)),
            ByteNode::Pull((ValueScope::Args, 0)),
        ])),
        Ok(())
    );
    assert_eq!(ints(runtime.args_stack()), vec![4, 5, 5, 4]);
    assert!(runtime.global_stack().is_empty());

    assert!(runtime.enter_frame(vec![Value::Int(6)]));
    assert_eq!(ints(runtime.args_stack()), vec![6]);
    assert!(runtime.leave_frame());
    assert_eq!(ints(runtime.args_stack()), vec![4, 5, 5, 4]);
    assert!(runtime.leave_frame());
    assert!(runtime.args_stack().is_empty());
    assert!(!runtime.leave_frame());
}

#[test]
fn a_halted_machine_begins_no_call() {
    let mut runtime = Runtime::new();
    assert!(runtime.enter_frame(vec![]));
    assert!(runtime.run_byte(unit(vec![ByteNode::Pop(0)])).is_err());
    assert!(runtime.is_halted());
    assert!(!runtime.enter_frame(vec![Value::Int(1)]));
    assert!(!runtime.leave_frame());
    assert!(runtime.args_stack().is_empty());
}

#[test]
fn a_copy_of_a_machine_holds_the_same() {
    let mut runtime = Runtime::new();
    assert!(runtime.enter_frame(vec![Value::Int(1)]));
    assert_eq!(runtime.run_byte(unit(vec![push(2), push(3)])), Ok(()));
    let mut copy = runtime.clone();
    assert_eq!(ints(copy.global_stack()), vec![2, 3]);
    assert_eq!(ints(copy.args_stack()), vec![1]);
    assert!(copy.leave_frame());
    assert!(copy.args_stack().is_empty());
    assert_eq!(ints(runtime.args_stack()), vec![1]);

    let code = unit(vec![push(1), ByteNode::Pull((ValueScope::Global, 0))]);
    let same = code.clone();
    assert_eq!(Runtime::new().run_byte(same), Ok(()));
    assert_eq!(code.code.len(), 1);
}

#[test]
fn the_body_of_a_function_works_on_the_local_stack() {
    let code = ByteCode {
        code: vec![
            Scope::Global(vec![push(1)]),
            Scope::Function(vec![
                ByteNode::Pull((ValueScope::Args, 0)),
                push(10),
                push(4),
                ByteNode::Sub,
                ByteNode::Pull((ValueScope::Local, 0)),
                ByteNode::Mov(0),
                ByteNode::Pull((ValueScope::Global, 0)),
            ]),
        ],
    };
    let mut runtime = Runtime::new();
    assert_eq!(runtime.run_byte(code.clone()), Ok(()));
    assert_eq!(ints(runtime.global_stack()), vec![1]);
    assert!(runtime.local_stack().is_empty());

    assert!(runtime.enter_frame(vec![Value::Int(7)]));
    assert_eq!(runtime.run_function(&code, 1, 0), Ok(()));
    assert_eq!(ints(runtime.local_stack()), vec![6, 6]);
    assert_eq!(ints(runtime.args_stack()), vec![7, 7]);
    assert_eq!(ints(runtime.global_stack()), vec![1, 1]);
    assert!(runtime.leave_frame());
    assert!(runtime.local_stack().is_empty());
    assert!(runtime.args_stack().is_empty());
    assert_eq!(ints(runtime.global_stack()), vec![1, 1]);
}

#[test]
fn run_function_runs_functions_alone() {
    let code = ByteCode {
        code: vec![Scope::Global(vec![push(1)]), Scope::Function(vec![push(2), ByteNode::Pop(3)])],
    };
    let mut runtime = Runtime::new();
    assert_eq!(runtime.run_function(&code, 0, 0), Ok(()));
    assert_eq!(runtime.run_function(&code, 2, 0), Ok(()));
    assert!(runtime.global_stack().is_empty());
    assert!(runtime.local_stack().is_empty());
    assert_eq!(runtime.run_function(&code, 1, 1), Err(Interrupt {
        scope: 1,
        index: 1,
        cause: Cause::AddressOutOfRange,
    }));
    assert!(runtime.is_halted());
    assert_eq!(
        runtime.run_function(&code, 1, 0),
        Err(Interrupt { scope: 1, index: 0, cause: Cause::Halted })
    );
}
