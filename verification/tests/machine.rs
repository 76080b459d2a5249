use irvm::error::Error;
use irvm::instruction::{Instruction, OpCode, Operand, Register, StackOffset};
use irvm::value::{Primitive, Value};
use irvm::vm::{Environment, Vm};

fn inst(opcode: OpCode, a: Operand, b: Operand, c: Operand) -> Instruction {
    Instruction::new(opcode, a, b, c)
}

fn imm(i: i64) -> Operand {
    Operand::Immed(Primitive::Integer(i))
}

fn reg(r: Register) -> Operand {
    Operand::Register(r)
}

fn name(s: &str) -> Operand {
    Operand::Immed(Primitive::String(s.to_string()))
}

#[test]
fn new_machine_is_empty() {
    let vm = Vm::new();
    for r in [Register::R0, Register::R3, Register::R7] {
        assert_eq!(vm.get_register(r), Value::Null);
    }
    assert!(vm.stack.is_empty());
    assert_eq!(vm.stack_pointer, 0);
    assert_eq!(vm.frame_pointer, 0);
    assert_eq!(vm.program_counter, 0);
}

#[test]
fn push_pop_return() {
    let mut vm = Vm::new();
    let program = vec![
        inst(OpCode::Push, imm(5), Operand::Empty, Operand::Empty),
        inst(OpCode::Pop, reg(Register::R0), Operand::Empty, Operand::Empty),
        inst(OpCode::Return, reg(Register::R0), Operand::Empty, Operand::Empty),
    ];
    let env = Environment::new();
    assert_eq!(vm.execute(program, &env).unwrap(), Value::Integer(5));
    assert_eq!(vm.get_register(Register::R0), Value::Integer(5));
    assert!(vm.stack.is_empty());
    assert_eq!(vm.stack_pointer, 0);
}

#[test]
fn push_then_pop_restores_the_stack() {
    let mut vm = Vm::new();
    let env = Environment::new();
    vm.execute(vec![inst(OpCode::Push, imm(1), Operand::Empty, Operand::Empty)], &env).unwrap();
    let program = vec![
        inst(OpCode::Push, imm(9), Operand::Empty, Operand::Empty),
        inst(OpCode::Pop, reg(Register::R2), Operand::Empty, Operand::Empty),
    ];
    assert_eq!(vm.execute(program, &env).unwrap(), Value::Null);
    assert_eq!(vm.stack.len(), 1);
    assert_eq!(vm.stack[0], Value::Integer(1));
    assert_eq!(vm.stack_pointer, 1);
    assert_eq!(vm.get_register(Register::R2), Value::Integer(9));
}

#[test]
fn arithmetic_program() {
    let mut vm = Vm::new();
    let program = vec![
        inst(OpCode::Move, reg(Register::R1), imm(6), Operand::Empty),
        inst(OpCode::Move, reg(Register::R2), imm(7), Operand::Empty),
        inst(OpCode::Mul, reg(Register::R0), reg(Register::R1), reg(Register::R2)),
        inst(OpCode::Sub, reg(Register::R0), reg(Register::R0), imm(2)),
        inst(OpCode::IfGreater, reg(Register::R3), reg(Register::R0), imm(39)),
        inst(OpCode::Return, reg(Register::R0), Operand::Empty, Operand::Empty),
    ];
    assert_eq!(vm.execute(program, &Environment::new()).unwrap(), Value::Integer(40));
    assert_eq!(vm.get_register(Register::R3), Value::Bool(true));
}

#[test]
fn every_binary_opcode_runs_its_operation() {
    let cases = [
        (OpCode::Add, 7, 2, Value::Integer(9)),
        (OpCode::Sub, 7, 2, Value::Integer(5)),
        (OpCode::Mul, 7, 2, Value::Integer(14)),
        (OpCode::Div, 7, 2, Value::Integer(3)),
        (OpCode::Mod, 7, 2, Value::Integer(1)),
        (OpCode::Pow, 7, 2, Value::Integer(49)),
        (OpCode::IfEqual, 7, 2, Value::Bool(false)),
        (OpCode::IfNotEqual, 7, 2, Value::Bool(true)),
        (OpCode::IfGreater, 7, 2, Value::Bool(true)),
        (OpCode::IfGreaterOrEqual, 7, 2, Value::Bool(true)),
        (OpCode::IfLess, 7, 2, Value::Bool(false)),
        (OpCode::IfLessOrEqual, 7, 2, Value::Bool(false)),
    ];
    for (op, a, b, expected) in cases {
        let mut vm = Vm::new();
        let program = vec![
            inst(op, reg(Register::R4), imm(a), imm(b)),
            inst(OpCode::Return, reg(Register::R4), Operand::Empty, Operand::Empty),
        ];
        assert_eq!(vm.execute(program, &Environment::new()).unwrap(), expected);
    }
    let mut vm = Vm::new();
    let program = vec![
        inst(
            OpCode::And,
            reg(Register::R0),
            Operand::Immed(Primitive::Boolean(true)),
            Operand::Immed(Primitive::Boolean(false)),
        ),
        inst(
            OpCode::Or,
            reg(Register::R1),
            Operand::Immed(Primitive::Boolean(true)),
            Operand::Immed(Primitive::Boolean(false)),
        ),
    ];
    assert_eq!(vm.execute(program, &Environment::new()).unwrap(), Value::Null);
    assert_eq!(vm.get_register(Register::R0), Value::Bool(false));
    assert_eq!(vm.get_register(Register::R1), Value::Bool(true));
}

#[test]
fn operation_errors_end_the_run() {
    let mut vm = Vm::new();
    let program = vec![
        inst(OpCode::Add, reg(Register::R0), Operand::Immed(Primitive::Boolean(true)), imm(1)),
        inst(OpCode::Return, imm(3), Operand::Empty, Operand::Empty),
    ];
    assert!(matches!(vm.execute(program, &Environment::new()), Err(Error::OpUnimplemented)));
    assert_eq!(vm.get_register(Register::R0), Value::Null);
}

#[test]
fn return_stops_the_run() {
    let mut vm = Vm::new();
    let program = vec![
        inst(OpCode::Return, imm(1), Operand::Empty, Operand::Empty),
        inst(OpCode::Move, reg(Register::R0), imm(2), Operand::Empty),
    ];
    assert_eq!(vm.execute(program, &Environment::new()).unwrap(), Value::Integer(1));
    assert_eq!(vm.get_register(Register::R0), Value::Null);
}

#[test]
fn empty_program_gives_null() {
    let mut vm = Vm::new();
    assert_eq!(vm.execute(Vec::new(), &Environment::new()).unwrap(), Value::Null);
}

#[test]
fn load_env_reads_bindings() {
    let mut env = Environment::new();
    env.define("answer".to_string(), Value::Integer(42));
    let mut vm = Vm::new();
    let program = vec![
        inst(OpCode::LoadEnv, reg(Register::R5), name("answer"), Operand::Empty),
        inst(OpCode::Return, reg(Register::R5), Operand::Empty, Operand::Empty),
    ];
    assert_eq!(vm.execute(program, &env).unwrap(), Value::Integer(42));

    let mut vm = Vm::new();
    let program = vec![inst(OpCode::LoadEnv, reg(Register::R5), name("missing"), Operand::Empty)];
    match vm.execute(program, &env) {
        Err(Error::UndefinedVariable(n)) => assert_eq!(n, "missing"),
        other => panic!("{:?}", other),
    }

    let mut vm = Vm::new();
    let program = vec![inst(OpCode::LoadEnv, reg(Register::R5), imm(1), Operand::Empty)];
    assert!(matches!(vm.execute(program, &env), Err(Error::InvalidArgument)));
}

#[test]
fn stack_operands_read_from_the_frame() {
    let mut vm = Vm::new();
    let env = Environment::new();
    let program = vec![
        inst(OpCode::Push, imm(10), Operand::Empty, Operand::Empty),
        inst(OpCode::Push, imm(20), Operand::Empty, Operand::Empty),
        inst(OpCode::Push, imm(30), Operand::Empty, Operand::Empty),
    ];
    vm.execute(program, &env).unwrap();
    vm.frame_pointer = 1;
    let program = vec![inst(
        OpCode::Add,
        reg(Register::R0),
        Operand::Stack(StackOffset::new(0)),
        Operand::Stack(StackOffset::new(1)),
    )];
    vm.execute(program, &env).unwrap();
    assert_eq!(vm.get_register(Register::R0), Value::Integer(50));
    assert_eq!(vm.stack_pointer, vm.stack.len());
}

#[test]
fn environment_define_get_and_change() {
    let mut env = Environment::new();
    assert!(env.get("x").is_none());
    env.define("x".to_string(), Value::Integer(1));
    env.define("y".to_string(), Value::String("why".to_string()));
    assert_eq!(env.get("x"), Some(Value::Integer(1)));
    env.define("x".to_string(), Value::Integer(2));
    assert_eq!(env.get("x"), Some(Value::Integer(2)));
    assert_eq!(env.get("y"), Some(Value::String("why".to_string())));
    if let Some(slot) = env.get_mut("y") {
        *slot = Value::Bool(false);
    }
    assert_eq!(env.get("y"), Some(Value::Bool(false)));
    assert!(env.get_mut("z").is_none());
    assert_eq!(env.get("x"), Some(Value::Integer(2)));
}

#[test]
fn stack_is_last_in_first_out() {
    let mut vm = Vm::new();
    let program = vec![
        inst(OpCode::Push, imm(1), Operand::Empty, Operand::Empty),
        inst(OpCode::Push, imm(2), Operand::Empty, Operand::Empty),
        inst(OpCode::Pop, reg(Register::R0), Operand::Empty, Operand::Empty),
        inst(OpCode::Pop, reg(Register::R1), Operand::Empty, Operand::Empty),
    ];
    assert_eq!(vm.execute(program, &Environment::new()).unwrap(), Value::Null);
    assert_eq!(vm.get_register(Register::R0), Value::Integer(2));
    assert_eq!(vm.get_register(Register::R1), Value::Integer(1));
    assert!(vm.stack.is_empty());
    assert_eq!(vm.stack_pointer, 0);
}
