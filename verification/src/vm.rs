//! The machine: its registers and stack, the environment of named values it
//! reads, and the run of a program.

use vstd::prelude::*;

use crate::error::{Error, ErrorModel};
use crate::instruction::{register_index, Instruction, Module, OpCode, Operand, Register};
pub use crate::ops::Ops;
use crate::ops::{
    add_admits, add_model, and_model, bindings, dictionary_lookup, div_admits, div_model, eq_model,
    gt_model, gte_model, lemma_lookup_finds_key, lemma_lookup_push_new_key,
    lemma_lookup_first_entry, lemma_lookup_update_first, lt_model, lte_model, mod_model, mul_admits, mul_model, ne_model,
    or_model, pow_admits, pow_model, result_model, sub_admits, sub_model, OpResult,
};
use crate::value::{Primitive, Value, ValueModel};

verus! {

// ---------------------------------------------------------------------------
// The environment
// ---------------------------------------------------------------------------

/// Named values that a program reads with `LoadEnv`.
pub struct Environment {
    entries: Vec<(String, Value)>,
}

impl Environment {
    /// The entries, each taken by its model, in the order they were first defined.
    pub closed spec fn entries_model(&self) -> Seq<(Seq<char>, ValueModel)> {
        self.entries@.map_values(|e: (String, Value)| (e.0@, e.1@))
    }
}

impl View for Environment {
    type V = Map<Seq<char>, ValueModel>;

    /// Each defined name maps to its value.
    open spec fn view(&self) -> Map<Seq<char>, ValueModel> {
        bindings(self.entries_model())
    }
}

impl Environment {
    /// An environment that defines nothing.
    pub fn new() -> (r: Environment)
        ensures
            r@ == Map::<Seq<char>, ValueModel>::empty(),
    {
        let r = Environment { entries: Vec::new() };
        assert(r.entries_model() =~= Seq::<(Seq<char>, ValueModel)>::empty());
        assert(r@ =~= Map::<Seq<char>, ValueModel>::empty());
        r
    }

    /// The position of the first entry under `name`, if there is one.
    fn position(&self, name: &str) -> (r: Option<usize>)
        ensures
            match r {
                Some(i) => {
                    &&& i < self.entries@.len()
                    &&& self.entries_model()[i as int].0 == name@
                    &&& forall|j: int| 0 <= j < i ==> self.entries_model()[j].0 != name@
                },
                None => forall|j: int|
                    0 <= j < self.entries@.len() ==> self.entries_model()[j].0 != name@,
            },
    {
        let wanted: String = name.to_owned();
        let mut i: usize = 0;
        while i < self.entries.len()
            invariant
                wanted@ == name@,
                i <= self.entries@.len(),
                forall|j: int| 0 <= j < i ==> self.entries_model()[j].0 != name@,
            decreases self.entries@.len() - i,
        {
            if self.entries[i].0 == wanted {
                return Some(i);
            }
            i = i + 1;
        }
        None
    }

    /// Binds `name` to `value`, replacing what it was bound to.
    pub fn define(&mut self, name: String, value: Value)
        ensures
            final(self)@ == old(self)@.insert(name@, value@),
    {
        let ghost old_entries = self.entries_model();
        let ghost key = name@;
        let ghost v = value@;
        match self.position(name.as_str()) {
            Some(i) => {
                self.entries.set(i, (name, value));
                proof {
                    assert(self.entries_model() =~= old_entries.update(i as int, (key, v)));
                    assert forall|k: Seq<char>|
                        #![trigger dictionary_lookup(self.entries_model(), k)]
                        dictionary_lookup(self.entries_model(), k) == if k == key {
                            Some(v)
                        } else {
                            dictionary_lookup(old_entries, k)
                        } by {
                        lemma_lookup_update_first(old_entries, i as int, key, v, k);
                    }
                    assert(self@ =~= old(self)@.insert(key, v));
                }
            },
            None => {
                proof {
                    lemma_lookup_finds_key(old_entries, key);
                }
                self.entries.push((name, value));
                proof {
                    assert(self.entries_model() =~= old_entries.push((key, v)));
                    assert forall|k: Seq<char>|
                        #![trigger dictionary_lookup(self.entries_model(), k)]
                        dictionary_lookup(self.entries_model(), k) == if k == key {
                            Some(v)
                        } else {
                            dictionary_lookup(old_entries, k)
                        } by {
                        lemma_lookup_push_new_key(old_entries, key, v, k);
                    }
                    assert(self@ =~= old(self)@.insert(key, v));
                }
            },
        }
    }

    /// A copy of the value bound to `name`, if it is bound.
    pub fn get(&self, name: &str) -> (r: Option<Value>)
        ensures
            match r {
                Some(v) => self@.contains_key(name@) && v@ == self@[name@],
                None => !self@.contains_key(name@),
            },
    {
        let ghost entries = self.entries_model();
        match self.position(name) {
            Some(i) => {
                proof {
                    lemma_lookup_first_entry(entries, i as int, name@);
                }
                Some(self.entries[i].1.duplicate())
            },
            None => {
                proof {
                    lemma_lookup_finds_key(entries, name@);
                }
                None
            },
        }
    }

    /// The value bound to `name`, to be changed in place, if it is bound.
    pub fn get_mut(&mut self, name: &str) -> (r: Option<&mut Value>)
        ensures
            match r {
                Some(v) => {
                    &&& old(self)@.contains_key(name@)
                    &&& (*v)@ == old(self)@[name@]
                    &&& final(self)@ == old(self)@.insert(name@, (*final(v))@)
                },
                None => !old(self)@.contains_key(name@) && final(self)@ == old(self)@,
            },
    {
        let ghost entries = self.entries_model();
        match self.position(name) {
            Some(i) => {
                proof {
                    lemma_lookup_first_entry(entries, i as int, name@);
                    let key = name@;
                    assert forall|t: (String, Value)|
                        #![trigger self.entries@.update(i as int, t)]
                        t.0 == self.entries@[i as int].0 implies bindings(
                            self.entries@.update(i as int, t).map_values(
                                |e: (String, Value)| (e.0@, e.1@),
                            ),
                        ) == old(self)@.insert(key, t.1@) by {
                        let updated = self.entries@.update(i as int, t).map_values(
                            |e: (String, Value)| (e.0@, e.1@),
                        );
                        assert(updated =~= entries.update(i as int, (key, t.1@)));
                        assert forall|k: Seq<char>|
                            #![trigger dictionary_lookup(updated, k)]
                            dictionary_lookup(updated, k) == if k == key {
                                Some(t.1@)
                            } else {
                                dictionary_lookup(entries, k)
                            } by {
                            lemma_lookup_update_first(entries, i as int, key, t.1@, k);
                        }
                        assert(bindings(updated) =~= old(self)@.insert(key, t.1@));
                    }
                }
                let slot = &mut self.entries[i].1;
                Some(slot)
            },
            None => {
                proof {
                    lemma_lookup_finds_key(entries, name@);
                }
                None
            },
        }
    }
}

// ---------------------------------------------------------------------------
// The machine and what one instruction does to it
// ---------------------------------------------------------------------------

/// A register machine with an operand stack.
pub struct Vm {
    pub registers: [Value; 8],
    pub stack: Vec<Value>,
    pub stack_pointer: usize,
    pub frame_pointer: usize,
    pub program_counter: usize,
}

/// The state of a [`Vm`], values taken by their models.
pub struct VmModel {
    pub registers: Seq<ValueModel>,
    pub stack: Seq<ValueModel>,
    pub stack_pointer: usize,
    pub frame_pointer: usize,
    pub program_counter: usize,
}

impl View for Vm {
    type V = VmModel;

    open spec fn view(&self) -> VmModel {
        VmModel {
            registers: self.registers@.map_values(|v: Value| v@),
            stack: self.stack@.map_values(|v: Value| v@),
            stack_pointer: self.stack_pointer,
            frame_pointer: self.frame_pointer,
            program_counter: self.program_counter,
        }
    }
}

/// The value an operand reads, or `None` where reading it is a machine fault:
/// a stack slot past the top, a virtual register, or no operand.
pub open spec fn load_model(s: VmModel, operand: Operand) -> Option<ValueModel> {
    match operand {
        Operand::Immed(p) => Some(p@),
        Operand::Register(reg) => Some(s.registers[register_index(reg)]),
        Operand::Stack(offset) => {
            if s.frame_pointer + offset.0 < s.stack.len() {
                Some(s.stack[s.frame_pointer + offset.0])
            } else {
                None
            }
        },
        _ => None,
    }
}

/// The state after writing `v` to an operand, or `None` where the operand is
/// not a register (a machine fault).
pub open spec fn store_model(s: VmModel, v: ValueModel, operand: Operand) -> Option<VmModel> {
    match operand {
        Operand::Register(reg) => Some(
            VmModel { registers: s.registers.update(register_index(reg), v), ..s },
        ),
        _ => None,
    }
}

/// What `LoadEnv` reads: the value bound to the name that a string constant
/// gives; any other operand is refused.
pub open spec fn env_load_model(operand: Operand, env: Map<Seq<char>, ValueModel>) -> OpResult {
    match operand {
        Operand::Immed(Primitive::String(name)) => {
            if env.contains_key(name@) {
                Ok(env[name@])
            } else {
                Err(ErrorModel::UndefinedVariable(name@))
            }
        },
        _ => Err(ErrorModel::InvalidArgument),
    }
}

/// Whether the opcode applies an operation to two operands.
pub open spec fn is_binop(op: OpCode) -> bool {
    match op {
        OpCode::Add | OpCode::Sub | OpCode::Mul | OpCode::Div | OpCode::Mod | OpCode::Pow
        | OpCode::And | OpCode::Or | OpCode::IfEqual | OpCode::IfNotEqual | OpCode::IfGreater
        | OpCode::IfGreaterOrEqual | OpCode::IfLess | OpCode::IfLessOrEqual => true,
        _ => false,
    }
}

/// The operands on which the opcode's operation completes.
pub open spec fn binop_admits(op: OpCode, lhs: ValueModel, rhs: ValueModel) -> bool {
    match op {
        OpCode::Add => add_admits(lhs, rhs),
        OpCode::Sub => sub_admits(lhs, rhs),
        OpCode::Mul => mul_admits(lhs, rhs),
        OpCode::Div | OpCode::Mod => div_admits(lhs, rhs),
        OpCode::Pow => pow_admits(lhs, rhs),
        _ => true,
    }
}

/// What the opcode's operation gives.
pub open spec fn binop_model(op: OpCode, lhs: ValueModel, rhs: ValueModel) -> OpResult {
    match op {
        OpCode::Add => add_model(lhs, rhs),
        OpCode::Sub => sub_model(lhs, rhs),
        OpCode::Mul => mul_model(lhs, rhs),
        OpCode::Div => div_model(lhs, rhs),
        OpCode::Mod => mod_model(lhs, rhs),
        OpCode::Pow => pow_model(lhs, rhs),
        OpCode::And => and_model(lhs, rhs),
        OpCode::Or => or_model(lhs, rhs),
        OpCode::IfEqual => eq_model(lhs, rhs),
        OpCode::IfNotEqual => ne_model(lhs, rhs),
        OpCode::IfGreater => gt_model(lhs, rhs),
        OpCode::IfGreaterOrEqual => gte_model(lhs, rhs),
        OpCode::IfLess => lt_model(lhs, rhs),
        OpCode::IfLessOrEqual => lte_model(lhs, rhs),
        _ => Err(ErrorModel::OpUnimplemented),
    }
}

/// What one instruction does.
pub enum Step {
    /// The run goes on from this state.
    Next(VmModel),
    /// The run ends in this state with this result.
    Halt(VmModel, OpResult),
    /// The machine faults.
    Fault,
}

/// The effect of a store: the next state, or a fault.
pub open spec fn stored(s: Option<VmModel>) -> Step {
    match s {
        Some(next) => Step::Next(next),
        None => Step::Fault,
    }
}

/// What `inst` does to the machine in state `s`.
pub open spec fn step(s: VmModel, inst: Instruction, env: Map<Seq<char>, ValueModel>) -> Step {
    match inst.opcode {
        OpCode::Push => match load_model(s, inst.operand0) {
            Some(v) => if s.stack_pointer < usize::MAX {
                Step::Next(
                    VmModel {
                        stack: s.stack.push(v),
                        stack_pointer: (s.stack_pointer + 1) as usize,
                        ..s
                    },
                )
            } else {
                Step::Fault
            },
            None => Step::Fault,
        },
        OpCode::Pop => if s.stack.len() == 0 {
            Step::Fault
        } else {
            let popped = VmModel { stack: s.stack.drop_last(), ..s };
            match store_model(popped, s.stack.last(), inst.operand0) {
                Some(next) => if next.stack_pointer > 0 {
                    Step::Next(
                        VmModel { stack_pointer: (next.stack_pointer - 1) as usize, ..next },
                    )
                } else {
                    Step::Fault
                },
                None => Step::Fault,
            }
        },
        OpCode::Move => match load_model(s, inst.operand1) {
            Some(v) => stored(store_model(s, v, inst.operand0)),
            None => Step::Fault,
        },
        OpCode::LoadEnv => match env_load_model(inst.operand1, env) {
            Ok(v) => stored(store_model(s, v, inst.operand0)),
            Err(e) => Step::Halt(s, Err(e)),
        },
        OpCode::Return => match load_model(s, inst.operand0) {
            Some(v) => Step::Halt(s, Ok(v)),
            None => Step::Fault,
        },
        op => if is_binop(op) {
            match (load_model(s, inst.operand1), load_model(s, inst.operand2)) {
                (Some(lhs), Some(rhs)) => if binop_admits(op, lhs, rhs) {
                    match binop_model(op, lhs, rhs) {
                        Ok(v) => stored(store_model(s, v, inst.operand0)),
                        Err(e) => Step::Halt(s, Err(e)),
                    }
                } else {
                    Step::Fault
                },
                _ => Step::Fault,
            }
        } else {
            Step::Fault
        },
    }
}

/// How a run of a program ends.
pub enum Outcome {
    /// In this state, with this result.
    Done(VmModel, OpResult),
    /// In a machine fault.
    Fault,
}

/// The run of `program` from state `s`: instructions in order until one halts
/// or faults; a program that runs out of instructions gives `Null`.
pub open spec fn run(s: VmModel, program: Seq<Instruction>, env: Map<Seq<char>, ValueModel>) -> Outcome
    decreases program.len(),
{
    if program.len() == 0 {
        Outcome::Done(s, Ok(ValueModel::Null))
    } else {
        match step(s, program[0], env) {
            Step::Next(next) => run(next, program.drop_first(), env),
            Step::Halt(last, r) => Outcome::Done(last, r),
            Step::Fault => Outcome::Fault,
        }
    }
}

/// The initial state of a machine: every register `Null`, the stack empty.
pub open spec fn initial_state() -> VmModel {
    VmModel {
        registers: Seq::new(8, |i: int| ValueModel::Null),
        stack: Seq::empty(),
        stack_pointer: 0,
        frame_pointer: 0,
        program_counter: 0,
    }
}

/// Applies the operation of a two-operand opcode.
fn apply_binop(op: OpCode, lhs: Value, rhs: Value) -> (r: Result<Value, Error>)
    requires
        is_binop(op),
        binop_admits(op, lhs@, rhs@),
    ensures
        result_model(r) == binop_model(op, lhs@, rhs@),
{
    match op {
        OpCode::Add => lhs.add(rhs),
        OpCode::Sub => lhs.sub(rhs),
        OpCode::Mul => lhs.mul(rhs),
        OpCode::Div => lhs.div(rhs),
        OpCode::Mod => lhs.mod_(rhs),
        OpCode::Pow => lhs.pow(rhs),
        OpCode::And => lhs.and(rhs),
        OpCode::Or => lhs.or(rhs),
        OpCode::IfEqual => Ops::eq(lhs, rhs),
        OpCode::IfNotEqual => Ops::ne(lhs, rhs),
        OpCode::IfGreater => lhs.gt(rhs),
        OpCode::IfGreaterOrEqual => lhs.gte(rhs),
        OpCode::IfLess => lhs.lt(rhs),
        OpCode::IfLessOrEqual => lhs.lte(rhs),
        _ => Err(Error::OpUnimplemented),
    }
}

impl Vm {
    /// A machine with every register `Null` and an empty stack.
    pub fn new() -> (r: Vm)
        ensures
            r@ == initial_state(),
    {
        let r = Vm {
            registers: [
                Value::Null,
                Value::Null,
                Value::Null,
                Value::Null,
                Value::Null,
                Value::Null,
                Value::Null,
                Value::Null,
            ],
            stack: Vec::with_capacity(4 * 1024),
            stack_pointer: 0,
            frame_pointer: 0,
            program_counter: 0,
        };
        assert(r@.registers =~= initial_state().registers);
        assert(r@.stack =~= initial_state().stack);
        r
    }

    /// A copy of the value in a register.
    pub fn get_register(&self, reg: Register) -> (r: Value)
        ensures
            r@ == self@.registers[register_index(reg)],
    {
        self.registers[reg.index()].duplicate()
    }

    /// The value an operand reads.
    fn load_operand(&self, operand: &Operand) -> (r: Value)
        requires
            load_model(self@, *operand) is Some,
        ensures
            load_model(self@, *operand) == Some(r@),
    {
        match operand {
            Operand::Immed(value) => {
                let v: Value = value.duplicate().into();
                v
            },
            Operand::Register(reg) => self.registers[reg.index()].duplicate(),
            Operand::Stack(offset) => {
                let slot = offset.as_usize();
                let depth = self.stack.len();
                assert(self.frame_pointer + slot < depth);
                self.stack[self.frame_pointer + slot].duplicate()
            },
            Operand::VirtReg(_) | Operand::Empty => Value::Null,
        }
    }

    /// Writes a value to a register operand.
    fn store_operand(&mut self, value: Value, operand: &Operand)
        requires
            store_model(old(self)@, value@, *operand) is Some,
        ensures
            store_model(old(self)@, value@, *operand) == Some(final(self)@),
    {
        match operand {
            Operand::Register(reg) => {
                self.registers[reg.index()] = value;
                assert(self@.registers =~= old(self)@.registers.update(register_index(*reg), value@));
            },
            _ => {},
        }
    }

    /// What `LoadEnv` reads from the environment.
    fn load_env(&self, operand: &Operand, environment: &Environment) -> (r: Result<Value, Error>)
        ensures
            result_model(r) == env_load_model(*operand, environment@),
    {
        match operand {
            Operand::Immed(Primitive::String(env)) => {
                match environment.get(env.as_str()) {
                    Some(v) => Ok(v),
                    None => Err(Error::UndefinedVariable(env.clone())),
                }
            },
            _ => Err(Error::InvalidArgument),
        }
    }

    /// Runs one instruction: `None` to go on, or the result that ends the run.
    fn execute_instruction(&mut self, inst: &Instruction, env: &Environment) -> (r: Option<
        Result<Value, Error>,
    >)
        requires
            !(step(old(self)@, *inst, env@) is Fault),
        ensures
            match r {
                None => step(old(self)@, *inst, env@) == Step::Next(final(self)@),
                Some(res) => step(old(self)@, *inst, env@) == Step::Halt(
                    final(self)@,
                    result_model(res),
                ),
            },
    {
        match inst.opcode {
            OpCode::Push => {
                let value = self.load_operand(&inst.operand0);
                self.stack.push(value);
                self.stack_pointer += 1;
                assert(self@.stack =~= old(self)@.stack.push(value@));
                None
            },
            OpCode::Pop => {
                let value = self.stack.pop().unwrap();
                assert(self@.stack =~= old(self)@.stack.drop_last());
                self.store_operand(value, &inst.operand0);
                self.stack_pointer -= 1;
                None
            },
            OpCode::Move => {
                let value = self.load_operand(&inst.operand1);
                self.store_operand(value, &inst.operand0);
                None
            },
            OpCode::LoadEnv => {
                match self.load_env(&inst.operand1, env) {
                    Ok(value) => {
                        self.store_operand(value, &inst.operand0);
                        None
                    },
                    Err(e) => Some(Err(e)),
                }
            },
            OpCode::Return => {
                let value = self.load_operand(&inst.operand0);
                Some(Ok(value))
            },
            op => {
                let lhs = self.load_operand(&inst.operand1);
                let rhs = self.load_operand(&inst.operand2);
                match apply_binop(op, lhs, rhs) {
                    Ok(dest) => {
                        self.store_operand(dest, &inst.operand0);
                        None
                    },
                    Err(e) => Some(Err(e)),
                }
            },
        }
    }

    /// Runs `program` in `env`, instruction by instruction, until one returns a
    /// value or fails; a program that runs out of instructions gives `Null`.
    pub fn execute(&mut self, program: Module, env: &Environment) -> (r: Result<Value, Error>)
        requires
            !(run(old(self)@, program@, env@) is Fault),
        ensures
            run(old(self)@, program@, env@) == Outcome::Done(final(self)@, result_model(r)),
    {
        let mut i: usize = 0;
        assert(program@.skip(0) =~= program@);
        while i < program.len()
            invariant
                i <= program@.len(),
                run(old(self)@, program@, env@) == run(self@, program@.skip(i as int), env@),
                !(run(self@, program@.skip(i as int), env@) is Fault),
            decreases program@.len() - i,
        {
            assert(program@.skip(i as int)[0] == program@[i as int]);
            assert(program@.skip(i as int).drop_first() =~= program@.skip(i + 1));
            match self.execute_instruction(&program[i], env) {
                None => {},
                Some(r) => {
                    return r;
                },
            }
            i = i + 1;
        }
        Ok(Value::Null)
    }
}

} // verus!
