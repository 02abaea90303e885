use tcvm::dispatch::{self, insn_incr, insn_noop, insn_stop, OpCode};
use tcvm::instruction::{Instruction, MetaMethod, OPCODE_COUNT};
use tcvm::interp::{execute, run, Error, Thread};
use tcvm::num::{
    op_arith, op_bit, Add, ArithOp, BAnd, BOr, BXor, BitOp, Div, IDiv, Mod, Mul, Outcome, Pow, Shl,
    Shr, Sub,
};
use tcvm::value::{Value, ValueType};

#[test]
fn discriminants_follow_declaration_order() {
    assert_eq!(Instruction::MOVE { dst: 0, src: 1 }.discriminant(), 0);
    assert_eq!(Instruction::LOAD { dst: 0, idx: 1 }.discriminant(), 1);
    assert_eq!(Instruction::NEWTABLE { dst: 0 }.discriminant(), 9);
    assert_eq!(Instruction::ADD { dst: 0, lhs: 1, rhs: 2 }.discriminant(), 10);
    assert_eq!(Instruction::SHR { dst: 0, lhs: 1, rhs: 2 }.discriminant(), 21);
    assert_eq!(
        Instruction::MMBIN { lhs: 1, rhs: 2, metamethod: MetaMethod::ADD }.discriminant(),
        22
    );
    assert_eq!(Instruction::JMP { offset: -3 }.discriminant(), 30);
    assert_eq!(Instruction::RETURN { values: 0, count: 1 }.discriminant(), 37);
    assert_eq!(Instruction::FORLOOP {}.discriminant(), 38);
    assert_eq!(Instruction::TFORPREP {}.discriminant(), 40);
    assert_eq!(Instruction::VARARGPREP {}.discriminant(), 46);
    assert_eq!(Instruction::NOP.discriminant(), 47);
    assert_eq!(Instruction::STOP.discriminant(), 48);
    assert_eq!(OPCODE_COUNT, 49);
}

#[test]
fn value_types() {
    assert_eq!(Value::Nil.ty(), ValueType::Nil);
    assert_eq!(Value::Boolean(true).ty(), ValueType::Boolean);
    assert_eq!(Value::Integer(1).ty(), ValueType::Integer);
    assert_eq!(Value::Float(0).ty(), ValueType::Float);
    assert_eq!(Value::String(1).ty(), ValueType::String);
    assert_eq!(Value::Userdata(1).ty(), ValueType::Userdata);
    assert_eq!(Value::Function(1).ty(), ValueType::Function);
    assert_eq!(Value::Thread(1).ty(), ValueType::Thread);
    assert_eq!(Value::Table(1).ty(), ValueType::Table);
    assert_eq!(tcvm::value2::ValueType::Table, tcvm::value2::ValueType::Table);
}

#[test]
fn value_accessors() {
    assert_eq!(Value::new_boolean(true), Value::Boolean(true));
    assert_eq!(Value::new_integer(-4), Value::Integer(-4));
    assert_eq!(Value::new_float(1.5f64.to_bits()), Value::Float(1.5f64.to_bits()));
    assert_eq!(Value::new_string(8), Value::String(8));
    assert_eq!(Value::new_userdata(8), Value::Userdata(8));
    assert_eq!(Value::new_function(8), Value::Function(8));
    assert_eq!(Value::new_thread(8), Value::Thread(8));
    assert_eq!(Value::new_table(8), Value::Table(8));
    assert_eq!(Value::Integer(7).as_integer(), 7);
    assert_eq!(Value::Boolean(false).as_boolean(), false);
    assert_eq!(Value::Table(3).as_table(), 3);
    assert_eq!(Value::Integer(7).get_integer(), Some(7));
    assert_eq!(Value::Integer(7).get_boolean(), None);
    assert_eq!(Value::Float(9).get_float(), Some(9));
    assert_eq!(Value::String(2).get_table(), None);
    assert_eq!(Value::Function(2).get_function(), Some(2));
    assert_eq!(Value::Integer(7).try_integer(), Ok(7));
    assert_eq!(Value::Nil.try_integer(), Err(()));
    assert_eq!(Value::Thread(5).try_thread(), Ok(5));
    assert_eq!(Value::Thread(5).try_userdata(), Err(()));
    assert_eq!(Value::String(5).try_string(), Ok(5));
}

#[test]
fn integer_arithmetic_wraps() {
    assert_eq!(Add::int_op(2, 3), Some(Value::Integer(5)));
    assert_eq!(Add::int_op(i64::MAX, 1), Some(Value::Integer(i64::MIN)));
    assert_eq!(Sub::int_op(2, 3), Some(Value::Integer(-1)));
    assert_eq!(Sub::int_op(i64::MIN, 1), Some(Value::Integer(i64::MAX)));
    assert_eq!(Mul::int_op(-4, 5), Some(Value::Integer(-20)));
    assert_eq!(Mul::int_op(i64::MAX, 2), Some(Value::Integer(-2)));
}

#[test]
fn integer_division_rounds_towards_zero() {
    assert_eq!(Mod::int_op(7, 2), Some(Value::Integer(1)));
    assert_eq!(Mod::int_op(-7, 2), Some(Value::Integer(-1)));
    assert_eq!(Mod::int_op(7, -2), Some(Value::Integer(1)));
    assert_eq!(Mod::int_op(i64::MIN, -1), Some(Value::Integer(0)));
    assert_eq!(IDiv::int_op(7, 2), Some(Value::Integer(3)));
    assert_eq!(IDiv::int_op(-7, 2), Some(Value::Integer(-3)));
    assert_eq!(IDiv::int_op(7, -2), Some(Value::Integer(-3)));
    assert_eq!(IDiv::int_op(-7, -2), Some(Value::Integer(3)));
    assert_eq!(IDiv::int_op(i64::MIN, -1), Some(Value::Integer(i64::MIN)));
}

#[test]
fn division_by_zero_is_told_beforehand() {
    assert!(!Mod::can_apply(1, 0));
    assert!(!IDiv::can_apply(1, 0));
    assert!(Mod::can_apply(0, 1));
    assert!(IDiv::can_apply(i64::MIN, -1));
    assert!(Add::can_apply(1, 0));
    assert!(Sub::can_apply(1, 0));
    assert!(Mul::can_apply(1, 0));
    assert!(Div::can_apply(1, 0));
    assert!(Pow::can_apply(1, 0));
}

#[test]
fn power_and_division_are_left_to_floats() {
    assert_eq!(Pow::int_op(2, 3), None);
    assert_eq!(Div::int_op(6, 3), None);
    assert_eq!(
        op_arith::<Div>(Value::Integer(6), Value::Integer(3)),
        Some(Outcome::Float { lhs: Value::Integer(6), rhs: Value::Integer(3) })
    );
    assert_eq!(
        op_arith::<Pow>(Value::Integer(2), Value::Integer(3)),
        Some(Outcome::Float { lhs: Value::Integer(2), rhs: Value::Integer(3) })
    );
}

#[test]
fn arithmetic_on_values() {
    assert_eq!(
        op_arith::<Add>(Value::Integer(2), Value::Integer(3)),
        Some(Outcome::Value(Value::Integer(5)))
    );
    assert_eq!(
        op_arith::<Mod>(Value::Integer(-7), Value::Integer(2)),
        Some(Outcome::Value(Value::Integer(-1)))
    );
    let half = Value::Float(0.5f64.to_bits());
    assert_eq!(
        op_arith::<Add>(Value::Integer(2), half),
        Some(Outcome::Float { lhs: Value::Integer(2), rhs: half })
    );
    assert_eq!(
        op_arith::<Mul>(half, half),
        Some(Outcome::Float { lhs: half, rhs: half })
    );
    assert_eq!(op_arith::<Add>(Value::Nil, Value::Integer(3)), None);
    assert_eq!(op_arith::<Add>(Value::Integer(3), Value::Table(1)), None);
    assert_eq!(op_arith::<Sub>(half, Value::Boolean(true)), None);
}

#[test]
fn bitwise_operators() {
    assert_eq!(BAnd::int_op(0b1100, 0b1010), Value::Integer(0b1000));
    assert_eq!(BOr::int_op(0b1100, 0b1010), Value::Integer(0b1110));
    assert_eq!(BXor::int_op(0b1100, 0b1010), Value::Integer(0b0110));
    assert_eq!(Shl::int_op(1, 4), Value::Integer(16));
    assert_eq!(Shl::int_op(1, 64), Value::Integer(1));
    assert_eq!(Shl::int_op(1, 63), Value::Integer(i64::MIN));
    assert_eq!(Shr::int_op(-16, 2), Value::Integer(-4));
    assert_eq!(Shr::int_op(16, 68), Value::Integer(1));
    assert_eq!(Shr::int_op(16, -60), Value::Integer(1));
}

#[test]
fn bitwise_on_values() {
    assert_eq!(
        op_bit::<BAnd>(Value::Integer(6), Value::Integer(3)),
        Some(Outcome::Value(Value::Integer(2)))
    );
    let two = Value::Float(2.0f64.to_bits());
    assert_eq!(
        op_bit::<BOr>(two, Value::Integer(1)),
        Some(Outcome::Float { lhs: two, rhs: Value::Integer(1) })
    );
    assert_eq!(op_bit::<BXor>(Value::Nil, Value::Integer(1)), None);
    assert_eq!(op_bit::<Shl>(Value::Integer(1), Value::String(1)), None);
}

#[test]
fn execute_runs_to_stop() {
    let tape = [
        Instruction::NOP,
        Instruction::MOVE { dst: 0, src: 2 },
        Instruction::ADD { dst: 0, lhs: 1, rhs: 2 },
        Instruction::MOVE { dst: 1, src: 0 },
        Instruction::STOP,
        Instruction::MOVE { dst: 2, src: 0 },
    ];
    let mut registers = vec![Value::Integer(1), Value::Integer(2), Value::Integer(3)];
    assert_eq!(execute(&tape, &mut registers), Ok(()));
    assert_eq!(registers, vec![Value::Integer(3), Value::Integer(3), Value::Integer(3)]);
}

#[test]
fn execute_fails_on_missing_register() {
    let tape = [Instruction::MOVE { dst: 0, src: 1 }, Instruction::MOVE { dst: 0, src: 5 }, Instruction::STOP];
    let mut registers = vec![Value::Nil, Value::Boolean(true)];
    assert_eq!(execute(&tape, &mut registers), Err(Error { pc: 1 }));
    assert_eq!(registers, vec![Value::Boolean(true), Value::Boolean(true)]);
}

#[test]
fn execute_fails_off_the_end() {
    let tape = [Instruction::NOP, Instruction::JMP { offset: 1 }];
    let mut registers = Vec::new();
    assert_eq!(execute(&tape, &mut registers), Err(Error { pc: 2 }));
    assert_eq!(execute(&[], &mut registers), Err(Error { pc: 0 }));
}

#[test]
fn run_leaves_thread_alone() {
    let tape = vec![Instruction::NOP, Instruction::FORLOOP {}, Instruction::STOP];
    let mut thread = Thread { tape: tape.clone() };
    run(&tape, &mut thread);
    assert_eq!(thread.tape.len(), 3);
}

#[test]
fn counter_machine_counts_increments() {
    let mut tape = vec![OpCode::Incr, OpCode::NoOp, OpCode::Incr, OpCode::NoOp];
    for _ in 0..100000 {
        tape.push(OpCode::Incr);
    }
    tape.push(OpCode::Stop);
    let mut value = 0;
    dispatch::run(&tape, &mut value);
    assert_eq!(value, 100002);
}

#[test]
fn counter_machine_stops_at_first_stop() {
    let tape = [OpCode::Incr, OpCode::Stop, OpCode::Incr, OpCode::Stop];
    let mut value = 40;
    dispatch::run(&tape, &mut value);
    assert_eq!(value, 41);
}

#[test]
fn counter_machine_handlers() {
    let tape = [OpCode::Incr, OpCode::NoOp, OpCode::Stop];
    let mut value = 5;
    assert_eq!(insn_incr(0, &mut value, &tape), Some(1));
    assert_eq!(value, 6);
    assert_eq!(insn_noop(1, &mut value, &tape), Some(2));
    assert_eq!(value, 6);
    assert_eq!(insn_stop(2, &mut value, &tape), None);
    assert_eq!(value, 6);
}
