//! Properties that hold across the library's operations and runs.

use vstd::prelude::*;

use crate::instruction::{register_index, Instruction, OpCode, Operand, Register};
use crate::ops::{
    add_admits, add_model, and_model, div_admits, div_model, eq_model, gt_model, gte_model,
    in_model, index_model, int_pow, lt_model, lte_model, mod_model, mul_admits, mul_model,
    ne_model, neg_admits, neg_model, not_model, or_model, pow_admits, pow_exponent, pow_model,
    sub_admits, sub_model, trunc_div, trunc_rem,
};
use crate::ir::types::{
    blocks_text, constant_debug_text, constants_text, flow_graph_entry, function_text,
    functions_text, instruction_debug_text, instructions_text, intern, name_text, Block, BlockId,
    FlowGraphModel, Function, FunctionContext, FunctionId, Module,
};
use crate::value::{decimal_digits, decimal_text};
use crate::value::ValueModel;
use crate::vm::{
    binop_admits, binop_model, initial_state, load_model, run, step, store_model, Outcome, Step,
    VmModel,
};

verus! {

// ---------------------------------------------------------------------------
// Operations
// ---------------------------------------------------------------------------

/// `ne` gives the negation of what `eq` gives, and refuses exactly the
/// operands that `eq` refuses.
pub proof fn law_ne_is_not_eq(lhs: ValueModel, rhs: ValueModel)
    ensures
        eq_model(lhs, rhs) is Err <==> ne_model(lhs, rhs) is Err,
        eq_model(lhs, rhs) matches Ok(ValueModel::Bool(b)) ==> ne_model(lhs, rhs) == Ok::<
            ValueModel,
            crate::error::ErrorModel,
        >(ValueModel::Bool(!b)),
{
}

/// Equality is symmetric: swapping the operands gives the same answer.
pub proof fn law_eq_is_symmetric(lhs: ValueModel, rhs: ValueModel)
    ensures
        eq_model(lhs, rhs) == eq_model(rhs, lhs),
{
}

/// `lt` and `gte` answer the same operands and give opposite answers, and so do
/// `gt` and `lte`.
pub proof fn law_order_complements(lhs: ValueModel, rhs: ValueModel)
    ensures
        lt_model(lhs, rhs) is Err <==> gte_model(lhs, rhs) is Err,
        gt_model(lhs, rhs) is Err <==> lte_model(lhs, rhs) is Err,
        lt_model(lhs, rhs) matches Ok(ValueModel::Bool(b)) ==> gte_model(lhs, rhs) == Ok::<
            ValueModel,
            crate::error::ErrorModel,
        >(ValueModel::Bool(!b)),
        gt_model(lhs, rhs) matches Ok(ValueModel::Bool(b)) ==> lte_model(lhs, rhs) == Ok::<
            ValueModel,
            crate::error::ErrorModel,
        >(ValueModel::Bool(!b)),
{
}

/// `and` and `or` do not depend on the order of their operands.
pub proof fn law_and_or_commute(lhs: ValueModel, rhs: ValueModel)
    ensures
        and_model(lhs, rhs) == and_model(rhs, lhs),
        or_model(lhs, rhs) == or_model(rhs, lhs),
{
}

/// Subtracting what was added gives back the left operand.
pub proof fn law_sub_undoes_add(a: i64, b: i64)
    requires
        add_admits(ValueModel::Integer(a), ValueModel::Integer(b)),
    ensures
        add_model(ValueModel::Integer(a), ValueModel::Integer(b)) matches Ok(sum) && sub_model(
            sum,
            ValueModel::Integer(b),
        ) == Ok::<ValueModel, crate::error::ErrorModel>(ValueModel::Integer(a)),
{
}

/// Negating twice gives back the integer.
pub proof fn law_neg_is_involutive(a: i64)
    requires
        neg_admits(ValueModel::Integer(a)),
    ensures
        neg_model(ValueModel::Integer(a)) matches Ok(n) && neg_admits(n) && neg_model(n) == Ok::<
            ValueModel,
            crate::error::ErrorModel,
        >(ValueModel::Integer(a)),
{
}

/// Quotient and remainder put the dividend back together, and the remainder is
/// smaller than the divisor in magnitude and takes the dividend's sign.
pub proof fn law_div_mod_rebuild_dividend(a: i64, b: i64)
    requires
        div_admits(ValueModel::Integer(a), ValueModel::Integer(b)),
    ensures
        (b as int) * trunc_div(a as int, b as int) + trunc_rem(a as int, b as int) == a as int,
        a >= 0 ==> 0 <= trunc_rem(a as int, b as int) < if b > 0 { b as int } else { -b },
        a < 0 ==> 0 >= trunc_rem(a as int, b as int) > if b > 0 { -b } else { b as int },
{
    let x = a as int;
    let d = b as int;
    if x > 0 && d > 0 {
        assert(d * (x / d) + x % d == x && 0 <= x % d < d) by (nonlinear_arith)
            requires x > 0, d > 0;
    } else if x < 0 && d < 0 {
        assert((-d) * ((-x) / (-d)) + (-x) % (-d) == -x && 0 <= (-x) % (-d) < -d) by (nonlinear_arith)
            requires x < 0, d < 0;
        assert(d * ((-x) / (-d)) - (-x) % (-d) == x) by (nonlinear_arith)
            requires (-d) * ((-x) / (-d)) + (-x) % (-d) == -x;
    } else if x < 0 {
        assert(d * ((-x) / d) + (-x) % d == -x && 0 <= (-x) % d < d) by (nonlinear_arith)
            requires x < 0, d > 0;
        assert(d * (-((-x) / d)) - (-x) % d == x) by (nonlinear_arith)
            requires d * ((-x) / d) + (-x) % d == -x;
    } else if x > 0 {
        assert((-d) * (x / (-d)) + x % (-d) == x && 0 <= x % (-d) < -d) by (nonlinear_arith)
            requires x > 0, d < 0;
        assert(d * (-(x / (-d))) + x % (-d) == x) by (nonlinear_arith)
            requires (-d) * (x / (-d)) + x % (-d) == x;
    }
}

/// A dictionary holds a key exactly when indexing it with that key succeeds,
/// and indexing gives the value bound to the key.
pub proof fn law_dictionary_in_iff_index(map: Map<Seq<char>, ValueModel>, key: Seq<char>)
    ensures
        in_model(ValueModel::Dictionary(map), ValueModel::String(key)) == Ok::<
            ValueModel,
            crate::error::ErrorModel,
        >(ValueModel::Bool(index_model(ValueModel::Dictionary(map), ValueModel::String(key)) is Ok)),
        map.contains_key(key) ==> index_model(ValueModel::Dictionary(map), ValueModel::String(key))
            == Ok::<ValueModel, crate::error::ErrorModel>(map[key]),
{
}

/// An array holds a value exactly when indexing it at some position within
/// bounds gives that value.
pub proof fn law_array_in_iff_some_index(items: Seq<ValueModel>, x: ValueModel)
    requires
        items.len() <= i64::MAX,
        items.len() <= usize::MAX,
    ensures
        in_model(ValueModel::Array(items), x) == Ok::<ValueModel, crate::error::ErrorModel>(
            ValueModel::Bool(
                exists|i: i64|
                    index_model(ValueModel::Array(items), ValueModel::Integer(i)) == Ok::<
                        ValueModel,
                        crate::error::ErrorModel,
                    >(x),
            ),
        ),
{
    if items.contains(x) {
        let k = choose|k: int| 0 <= k < items.len() && items[k] == x;
        let i = k as i64;
        assert((i as usize) as int == k);
        assert(index_model(ValueModel::Array(items), ValueModel::Integer(i)) == Ok::<
            ValueModel,
            crate::error::ErrorModel,
        >(x));
    }
    if exists|i: i64|
        index_model(ValueModel::Array(items), ValueModel::Integer(i)) == Ok::<
            ValueModel,
            crate::error::ErrorModel,
        >(x) {
        let i = choose|i: i64|
            index_model(ValueModel::Array(items), ValueModel::Integer(i)) == Ok::<
                ValueModel,
                crate::error::ErrorModel,
            >(x);
        assert(items[(i as usize) as int] == x);
    }
}

// ---------------------------------------------------------------------------
// The machine
// ---------------------------------------------------------------------------

/// Whether the stack pointer counts the values on the stack.
pub open spec fn stack_balanced(s: VmModel) -> bool {
    s.stack_pointer == s.stack.len()
}

/// One instruction keeps the stack pointer counting the stack.
pub proof fn law_step_keeps_stack_balanced(s: VmModel, inst: Instruction, env: Map<Seq<char>, ValueModel>)
    requires
        stack_balanced(s),
    ensures
        step(s, inst, env) matches Step::Next(t) ==> stack_balanced(t),
        step(s, inst, env) matches Step::Halt(t, _) ==> stack_balanced(t),
{
}

/// A whole run keeps the stack pointer counting the stack: a machine that
/// starts balanced ends balanced.
pub proof fn law_run_keeps_stack_balanced(
    s: VmModel,
    program: Seq<Instruction>,
    env: Map<Seq<char>, ValueModel>,
)
    requires
        stack_balanced(s),
    ensures
        run(s, program, env) matches Outcome::Done(t, _) ==> stack_balanced(t),
    decreases program.len(),
{
    if program.len() > 0 {
        law_step_keeps_stack_balanced(s, program[0], env);
        if let Step::Next(t) = step(s, program[0], env) {
            law_run_keeps_stack_balanced(t, program.drop_first(), env);
        }
    }
}

/// With a balanced stack, popping into a register faults exactly when the
/// stack is empty.
pub proof fn law_pop_faults_only_on_empty_stack(
    s: VmModel,
    reg: Register,
    other1: Operand,
    other2: Operand,
    env: Map<Seq<char>, ValueModel>,
)
    requires
        stack_balanced(s),
    ensures
        (step(
            s,
            Instruction {
                opcode: OpCode::Pop,
                operand0: Operand::Register(reg),
                operand1: other1,
                operand2: other2,
            },
            env,
        ) is Fault) == (s.stack.len() == 0),
{
}

/// Pushing an operand and popping into a register leaves the stack as it was
/// and puts the operand's value in the register.
pub proof fn law_push_then_pop_moves_value(
    s: VmModel,
    source: Operand,
    reg: Register,
    unused: Operand,
    env: Map<Seq<char>, ValueModel>,
)
    requires
        stack_balanced(s),
        s.stack_pointer < usize::MAX,
        s.registers.len() == 8,
        load_model(s, source) is Some,
    ensures
        run(
            s,
            seq![
                Instruction { opcode: OpCode::Push, operand0: source, operand1: unused, operand2: unused },
                Instruction {
                    opcode: OpCode::Pop,
                    operand0: Operand::Register(reg),
                    operand1: unused,
                    operand2: unused,
                },
            ],
            env,
        ) matches Outcome::Done(t, r) && r == Ok::<ValueModel, crate::error::ErrorModel>(
            ValueModel::Null,
        ) && t.stack == s.stack && t.stack_pointer == s.stack_pointer && t.registers
            == s.registers.update(register_index(reg), load_model(s, source)->Some_0)
            && t.frame_pointer == s.frame_pointer && t.program_counter == s.program_counter,
{
    let push = Instruction { opcode: OpCode::Push, operand0: source, operand1: unused, operand2: unused };
    let pop = Instruction {
        opcode: OpCode::Pop,
        operand0: Operand::Register(reg),
        operand1: unused,
        operand2: unused,
    };
    let program = seq![push, pop];
    let v = load_model(s, source)->Some_0;
    let s1 = VmModel { stack: s.stack.push(v), stack_pointer: (s.stack_pointer + 1) as usize, ..s };
    assert(step(s, push, env) == Step::Next(s1));
    assert(s1.stack.drop_last() =~= s.stack);
    let rest = program.drop_first();
    assert(rest =~= seq![pop]);
    assert(rest.drop_first() =~= Seq::<Instruction>::empty());
    reveal_with_fuel(run, 3);
}

/// Two values pushed and then popped into two registers come off in the
/// opposite order: the second pushed goes to the first register popped.
pub proof fn law_stack_is_last_in_first_out(
    s: VmModel,
    x: Operand,
    y: Operand,
    a: Register,
    b: Register,
    unused: Operand,
    env: Map<Seq<char>, ValueModel>,
)
    requires
        stack_balanced(s),
        s.stack_pointer + 2 <= usize::MAX,
        s.registers.len() == 8,
        a != b,
        load_model(s, x) is Some,
        load_model(
            VmModel {
                stack: s.stack.push(load_model(s, x)->Some_0),
                stack_pointer: (s.stack_pointer + 1) as usize,
                ..s
            },
            y,
        ) is Some,
    ensures
        ({
            let vx = load_model(s, x)->Some_0;
            let s1 = VmModel {
                stack: s.stack.push(vx),
                stack_pointer: (s.stack_pointer + 1) as usize,
                ..s
            };
            let vy = load_model(s1, y)->Some_0;
            run(
                s,
                seq![
                    Instruction { opcode: OpCode::Push, operand0: x, operand1: unused, operand2: unused },
                    Instruction { opcode: OpCode::Push, operand0: y, operand1: unused, operand2: unused },
                    Instruction {
                        opcode: OpCode::Pop,
                        operand0: Operand::Register(a),
                        operand1: unused,
                        operand2: unused,
                    },
                    Instruction {
                        opcode: OpCode::Pop,
                        operand0: Operand::Register(b),
                        operand1: unused,
                        operand2: unused,
                    },
                ],
                env,
            ) matches Outcome::Done(t, r) && r == Ok::<ValueModel, crate::error::ErrorModel>(
                ValueModel::Null,
            ) && t.stack == s.stack && t.stack_pointer == s.stack_pointer && t.registers[register_index(a)]
                == vy && t.registers[register_index(b)] == vx
        }),
{
    let push_x = Instruction { opcode: OpCode::Push, operand0: x, operand1: unused, operand2: unused };
    let push_y = Instruction { opcode: OpCode::Push, operand0: y, operand1: unused, operand2: unused };
    let pop_a = Instruction {
        opcode: OpCode::Pop,
        operand0: Operand::Register(a),
        operand1: unused,
        operand2: unused,
    };
    let pop_b = Instruction {
        opcode: OpCode::Pop,
        operand0: Operand::Register(b),
        operand1: unused,
        operand2: unused,
    };
    let program = seq![push_x, push_y, pop_a, pop_b];
    let vx = load_model(s, x)->Some_0;
    let s1 = VmModel { stack: s.stack.push(vx), stack_pointer: (s.stack_pointer + 1) as usize, ..s };
    let vy = load_model(s1, y)->Some_0;
    let s2 = VmModel { stack: s1.stack.push(vy), stack_pointer: (s1.stack_pointer + 1) as usize, ..s1 };
    assert(step(s, push_x, env) == Step::Next(s1));
    assert(step(s1, push_y, env) == Step::Next(s2));
    assert(s2.stack.drop_last() =~= s1.stack);
    assert(s2.stack.last() == vy);
    let s3 = VmModel {
        registers: s2.registers.update(register_index(a), vy),
        stack: s1.stack,
        stack_pointer: s1.stack_pointer,
        ..s2
    };
    assert(step(s2, pop_a, env) == Step::Next(s3));
    assert(s3.stack.drop_last() =~= s.stack);
    assert(s3.stack.last() == vx);
    let s4 = VmModel {
        registers: s3.registers.update(register_index(b), vx),
        stack: s.stack,
        stack_pointer: s.stack_pointer,
        ..s3
    };
    assert(step(s3, pop_b, env) == Step::Next(s4));
    assert(program.drop_first() =~= seq![push_y, pop_a, pop_b]);
    assert(program.drop_first().drop_first() =~= seq![pop_a, pop_b]);
    assert(program.drop_first().drop_first().drop_first() =~= seq![pop_b]);
    assert(program.drop_first().drop_first().drop_first().drop_first() =~= Seq::<Instruction>::empty());
    reveal_with_fuel(run, 5);
    assert(register_index(a) != register_index(b));
}

/// A value written to a register is what the register then reads, and no other
/// register changes; a new machine reads `Null` from every register.
pub proof fn law_register_round_trip(s: VmModel, v: ValueModel, r: Register, q: Register)
    requires
        s.registers.len() == 8,
    ensures
        store_model(s, v, Operand::Register(r)) matches Some(t) && t.registers[register_index(r)] == v
            && (q != r ==> t.registers[register_index(q)] == s.registers[register_index(q)])
            && t.stack == s.stack && t.stack_pointer == s.stack_pointer,
        initial_state().registers[register_index(q)] == ValueModel::Null,
{
    assert(q != r ==> register_index(q) != register_index(r));
}

/// `Return` ends the run at once with the value it reads; later instructions
/// are not run.
pub proof fn law_return_ends_run(
    s: VmModel,
    ret: Instruction,
    rest: Seq<Instruction>,
    env: Map<Seq<char>, ValueModel>,
)
    requires
        ret.opcode == OpCode::Return,
        load_model(s, ret.operand0) is Some,
    ensures
        run(s, seq![ret] + rest, env) == Outcome::Done(
            s,
            Ok::<ValueModel, crate::error::ErrorModel>(load_model(s, ret.operand0)->Some_0),
        ),
{
    assert((seq![ret] + rest)[0] == ret);
}

/// A run goes instruction by instruction: running two programs one after the
/// other is running the joined program, unless the first one stops early.
pub proof fn law_run_concatenates(
    s: VmModel,
    first: Seq<Instruction>,
    second: Seq<Instruction>,
    env: Map<Seq<char>, ValueModel>,
)
    ensures
        run(s, first + second, env) == match run_prefix(s, first, env) {
            Some(t) => run(t, second, env),
            None => run(s, first, env),
        },
    decreases first.len(),
{
    if first.len() > 0 {
        assert((first + second)[0] == first[0]);
        assert((first + second).drop_first() =~= first.drop_first() + second);
        if let Step::Next(t) = step(s, first[0], env) {
            law_run_concatenates(t, first.drop_first(), second, env);
        }
    } else {
        assert(first + second =~= second);
    }
}

/// The state after running every instruction of `program` without a halt or a
/// fault, or `None` where the program halts or faults before its end.
pub open spec fn run_prefix(s: VmModel, program: Seq<Instruction>, env: Map<Seq<char>, ValueModel>) -> Option<VmModel>
    decreases program.len(),
{
    if program.len() == 0 {
        Some(s)
    } else {
        match step(s, program[0], env) {
            Step::Next(t) => run_prefix(t, program.drop_first(), env),
            _ => None,
        }
    }
}

// ---------------------------------------------------------------------------
// The environment
// ---------------------------------------------------------------------------

/// After `define(name, value)`, `get(name)` finds `value`, and every other name
/// reads what it read before.
pub proof fn law_get_after_define(
    before: Map<Seq<char>, ValueModel>,
    name: Seq<char>,
    value: ValueModel,
    other: Seq<char>,
)
    ensures
        before.insert(name, value).contains_key(name),
        before.insert(name, value)[name] == value,
        other != name ==> (before.insert(name, value).contains_key(other) == before.contains_key(
            other,
        )),
        other != name && before.contains_key(other) ==> before.insert(name, value)[other]
            == before[other],
{
}

// ---------------------------------------------------------------------------
// Modules
// ---------------------------------------------------------------------------

/// Making the same constant twice gives the same id and leaves the pool as the
/// first call left it.
pub proof fn law_make_constant_is_idempotent(
    before: Seq<ValueModel>,
    v: ValueModel,
    middle: Seq<ValueModel>,
    first_id: usize,
    after: Seq<ValueModel>,
    second_id: usize,
)
    requires
        before.no_duplicates(),
        intern(before, v, middle, first_id),
        intern(middle, v, after, second_id),
    ensures
        after == middle,
        second_id == first_id,
        middle[first_id as int] == v,
{
    assert(middle[first_id as int] == v);
    assert(middle.contains(v));
    if before.contains(v) {
    } else {
        assert(middle.no_duplicates()) by {
            assert forall|i: int, j: int|
                0 <= i < middle.len() && 0 <= j < middle.len() && i != j implies middle[i]
                != middle[j] by {
                if i < before.len() && j < before.len() {
                } else if i < before.len() {
                    assert(before.contains(before[i]));
                } else {
                    assert(before.contains(before[j]));
                }
            }
        }
    }
}

/// Distinct constants get distinct ids: a pool that holds no constant twice
/// never gives one id to two different values.
pub proof fn law_distinct_constants_distinct_ids(
    pool: Seq<ValueModel>,
    v: ValueModel,
    w: ValueModel,
    after_v: Seq<ValueModel>,
    id_v: usize,
    after_w: Seq<ValueModel>,
    id_w: usize,
)
    requires
        pool.no_duplicates(),
        v != w,
        intern(pool, v, after_v, id_v),
        intern(after_v, w, after_w, id_w),
    ensures
        id_v != id_w,
        after_w[id_v as int] == v,
        after_w[id_w as int] == w,
{
    if !pool.contains(v) {
        assert(after_v[id_v as int] == v);
    }
    if after_v.contains(w) {
    } else {
        assert(after_w[id_v as int] == after_v[id_v as int]);
    }
}

/// The entry of a flow graph is the first block ever added: adding blocks
/// later does not change it.
pub proof fn law_entry_is_first_block(g: FlowGraphModel, added: BlockId)
    ensures
        flow_graph_entry(FlowGraphModel { blocks: g.blocks.push(added), ..g }) == if g.blocks.len()
            > 0 {
            flow_graph_entry(g)
        } else {
            Some(added)
        },
{
}

/// After switching to a block, the current block is that block until the
/// next switch, whatever blocks are added meanwhile.
pub proof fn law_current_block_after_switch(g: FlowGraphModel, block: BlockId, added: Seq<BlockId>)
    ensures
        (FlowGraphModel { blocks: g.blocks + added, current_block: Some(block) }).current_block
            == Some(block),
        flow_graph_entry(FlowGraphModel { blocks: g.blocks + added, current_block: Some(block) })
            == if g.blocks.len() > 0 {
            flow_graph_entry(g)
        } else {
            flow_graph_entry(FlowGraphModel { blocks: added, current_block: Some(block) })
        },
{
    if g.blocks.len() > 0 {
        assert((g.blocks + added)[0] == g.blocks[0]);
    } else {
        assert(g.blocks + added =~= added);
    }
}

/// A function defined with a context has the entry of the context's flow
/// graph: its first block, or none for an empty graph; `define_function`
/// leaves the other functions as they were.
pub proof fn law_defined_function_entry(
    before: Module,
    after: Module,
    id: FunctionId,
    context: FunctionContext,
    other: int,
)
    requires
        id@ < before.functions@.len(),
        after.functions@.len() == before.functions@.len(),
        forall|i: int|
            0 <= i < before.functions@.len() && i != id@ ==> after.functions@[i]
                == before.functions@[i],
        after.functions@[id@ as int].flow_graph == context.flow_graph,
    ensures
        flow_graph_entry(after.functions@[id@ as int].flow_graph@) == flow_graph_entry(
            context.flow_graph@,
        ),
        0 <= other < before.functions@.len() && other != id@ ==> flow_graph_entry(
            after.functions@[other].flow_graph@,
        ) == flow_graph_entry(before.functions@[other].flow_graph@),
{
}

// ---------------------------------------------------------------------------
// What each operation computes, in terms of its operands
// ---------------------------------------------------------------------------

/// Ok of a value model.
pub open spec fn ok(v: ValueModel) -> Result<ValueModel, crate::error::ErrorModel> {
    Ok(v)
}

/// The comparison opcodes compare two integers as numbers: equal integers are
/// equal, less-or-equal and greater-or-equal, and neither less nor greater.
pub proof fn law_comparison_opcodes_compare_numbers(a: i64, b: i64)
    ensures
        binop_model(OpCode::IfEqual, ValueModel::Integer(a), ValueModel::Integer(b))
            == ok(ValueModel::Bool(a == b)),
        binop_model(OpCode::IfNotEqual, ValueModel::Integer(a), ValueModel::Integer(b))
            == ok(ValueModel::Bool(a != b)),
        binop_model(OpCode::IfGreater, ValueModel::Integer(a), ValueModel::Integer(b))
            == ok(ValueModel::Bool(a > b)),
        binop_model(OpCode::IfGreaterOrEqual, ValueModel::Integer(a), ValueModel::Integer(b))
            == ok(ValueModel::Bool(a >= b)),
        binop_model(OpCode::IfLess, ValueModel::Integer(a), ValueModel::Integer(b))
            == ok(ValueModel::Bool(a < b)),
        binop_model(OpCode::IfLessOrEqual, ValueModel::Integer(a), ValueModel::Integer(b))
            == ok(ValueModel::Bool(a <= b)),
        binop_model(OpCode::IfLessOrEqual, ValueModel::Integer(a), ValueModel::Integer(a))
            == ok(ValueModel::Bool(true)),
        binop_model(OpCode::IfLess, ValueModel::Integer(a), ValueModel::Integer(a))
            == ok(ValueModel::Bool(false)),
{
}

/// The arithmetic opcodes compute the sum, difference and product of two
/// integers, and a quotient and remainder that rebuild the dividend, with the
/// remainder smaller than the divisor and of the dividend's sign.
pub proof fn law_arithmetic_opcodes_compute_numbers(a: i64, b: i64)
    ensures
        binop_admits(OpCode::Add, ValueModel::Integer(a), ValueModel::Integer(b)) <==> i64::MIN
            <= a + b <= i64::MAX,
        binop_admits(OpCode::Add, ValueModel::Integer(a), ValueModel::Integer(b)) ==> (binop_model(
            OpCode::Add,
            ValueModel::Integer(a),
            ValueModel::Integer(b),
        ) matches Ok(ValueModel::Integer(r)) && r == a + b),
        binop_admits(OpCode::Sub, ValueModel::Integer(a), ValueModel::Integer(b)) ==> (binop_model(
            OpCode::Sub,
            ValueModel::Integer(a),
            ValueModel::Integer(b),
        ) matches Ok(ValueModel::Integer(r)) && r == a - b),
        binop_admits(OpCode::Mul, ValueModel::Integer(a), ValueModel::Integer(b)) ==> (binop_model(
            OpCode::Mul,
            ValueModel::Integer(a),
            ValueModel::Integer(b),
        ) matches Ok(ValueModel::Integer(r)) && r == a * b),
        binop_admits(OpCode::Div, ValueModel::Integer(a), ValueModel::Integer(b)) ==> (binop_model(
            OpCode::Div,
            ValueModel::Integer(a),
            ValueModel::Integer(b),
        ) matches Ok(ValueModel::Integer(q)) && binop_model(
            OpCode::Mod,
            ValueModel::Integer(a),
            ValueModel::Integer(b),
        ) matches Ok(ValueModel::Integer(m)) && b * q + m == a && (if b > 0 {
            -b < m < b
        } else {
            b < m < -b
        }) && (a >= 0 ==> m >= 0) && (a <= 0 ==> m <= 0)),
        binop_admits(OpCode::Div, ValueModel::Integer(a), ValueModel::Integer(b)) <==> (b != 0 && !(a
            == i64::MIN && b == -1)),
{
    if binop_admits(OpCode::Div, ValueModel::Integer(a), ValueModel::Integer(b)) {
        law_div_mod_rebuild_dividend(a, b);
        crate::ops::lemma_trunc_div_fits(a, b);
        crate::ops::lemma_trunc_rem_fits(a, b);
    }
}

/// Running a two-operand instruction on two constant integers and returning
/// its destination gives the result of the opcode's operation, which the
/// destination register then holds.
pub proof fn law_binop_instruction_stores_result(
    s: VmModel,
    op: OpCode,
    dest: Register,
    a: i64,
    b: i64,
    env: Map<Seq<char>, ValueModel>,
)
    requires
        s.registers.len() == 8,
        crate::vm::is_binop(op),
        binop_admits(op, ValueModel::Integer(a), ValueModel::Integer(b)),
        binop_model(op, ValueModel::Integer(a), ValueModel::Integer(b)) is Ok,
    ensures
        run(
            s,
            seq![
                Instruction {
                    opcode: op,
                    operand0: Operand::Register(dest),
                    operand1: Operand::Immed(crate::value::Primitive::Integer(a)),
                    operand2: Operand::Immed(crate::value::Primitive::Integer(b)),
                },
                Instruction {
                    opcode: OpCode::Return,
                    operand0: Operand::Register(dest),
                    operand1: Operand::Empty,
                    operand2: Operand::Empty,
                },
            ],
            env,
        ) matches Outcome::Done(t, r) && r == binop_model(
            op,
            ValueModel::Integer(a),
            ValueModel::Integer(b),
        ) && t.registers[register_index(dest)] == binop_model(
            op,
            ValueModel::Integer(a),
            ValueModel::Integer(b),
        )->Ok_0 && t.stack == s.stack,
        op == OpCode::IfLessOrEqual ==> (run(
            s,
            seq![
                Instruction {
                    opcode: op,
                    operand0: Operand::Register(dest),
                    operand1: Operand::Immed(crate::value::Primitive::Integer(a)),
                    operand2: Operand::Immed(crate::value::Primitive::Integer(b)),
                },
                Instruction {
                    opcode: OpCode::Return,
                    operand0: Operand::Register(dest),
                    operand1: Operand::Empty,
                    operand2: Operand::Empty,
                },
            ],
            env,
        ) matches Outcome::Done(_, r) && r == ok(ValueModel::Bool(a <= b))),
{
    let first = Instruction {
        opcode: op,
        operand0: Operand::Register(dest),
        operand1: Operand::Immed(crate::value::Primitive::Integer(a)),
        operand2: Operand::Immed(crate::value::Primitive::Integer(b)),
    };
    let ret = Instruction {
        opcode: OpCode::Return,
        operand0: Operand::Register(dest),
        operand1: Operand::Empty,
        operand2: Operand::Empty,
    };
    let program = seq![first, ret];
    assert(program.drop_first() =~= seq![ret]);
    let v = binop_model(op, ValueModel::Integer(a), ValueModel::Integer(b))->Ok_0;
    let t = VmModel { registers: s.registers.update(register_index(dest), v), ..s };
    assert(step(s, first, env) == Step::Next(t));
    reveal_with_fuel(run, 3);
    law_comparison_opcodes_compare_numbers(a, b);
}

/// Even powers are never negative.
proof fn lemma_even_power_nonnegative(a: int, e: nat)
    requires
        e % 2 == 0,
    ensures
        int_pow(a, e) >= 0,
    decreases e,
{
    if e >= 2 {
        lemma_even_power_nonnegative(a, (e - 2) as nat);
        let rest = int_pow(a, (e - 2) as nat);
        assert(int_pow(a, (e - 1) as nat) == a * rest);
        assert(int_pow(a, e) == a * int_pow(a, (e - 1) as nat));
        assert(a * (a * rest) >= 0) by (nonlinear_arith)
            requires
                rest >= 0,
        ;
    }
}

/// `pow` raises an integer to the low 32 bits of the other: the zeroth power
/// is 1, the first power is the integer itself, the square is the product with
/// itself, each further power multiplies by the integer once more, and an even
/// power is never negative.
pub proof fn law_pow_is_repeated_multiplication(a: i64, b: i64, c: i64)
    requires
        pow_admits(ValueModel::Integer(a), ValueModel::Integer(b)),
    ensures
        pow_model(ValueModel::Integer(a), ValueModel::Integer(b)) matches Ok(ValueModel::Integer(p))
            && (pow_exponent(b) == 0 ==> p == 1) && (pow_exponent(b) == 1 ==> p == a) && (
        pow_exponent(b) % 2 == 0 ==> p >= 0) && (pow_exponent(b) == 2 ==> mul_admits(
            ValueModel::Integer(a),
            ValueModel::Integer(a),
        ) && pow_model(ValueModel::Integer(a), ValueModel::Integer(b)) == mul_model(
            ValueModel::Integer(a),
            ValueModel::Integer(a),
        )) && (pow_exponent(c) == pow_exponent(b) + 1 && pow_admits(
            ValueModel::Integer(a),
            ValueModel::Integer(c),
        ) ==> (pow_model(ValueModel::Integer(a), ValueModel::Integer(c)) matches Ok(
            ValueModel::Integer(q),
        ) && q == a * p)),
        0 <= b <= u32::MAX ==> pow_exponent(b) == b,
{
    let e = pow_exponent(b);
    if e % 2 == 0 {
        lemma_even_power_nonnegative(a as int, e);
    }
    if e == 1 {
        assert(int_pow(a as int, 1) == a * int_pow(a as int, 0));
    }
    if e == 2 {
        assert(int_pow(a as int, 1) == a * int_pow(a as int, 0));
        assert(int_pow(a as int, 2) == a * int_pow(a as int, 1));
    }
    if pow_exponent(c) == e + 1 {
        assert(int_pow(a as int, pow_exponent(c)) == a * int_pow(a as int, e));
    }
    if 0 <= b <= u32::MAX {
        assert((b as u32) as int == b) by (bit_vector)
            requires
                0 <= b <= 0xffff_ffffi64,
        ;
    }
}

/// `and`, `or` and `not` are boolean logic: `false` absorbs a conjunction and
/// `true` leaves it unchanged, `true` absorbs a disjunction and `false` leaves
/// it unchanged, `not` flips, and negation turns a conjunction into the
/// disjunction of the negations.
pub proof fn law_boolean_logic(x: bool, y: bool)
    ensures
        and_model(ValueModel::Bool(x), ValueModel::Bool(false)) == ok(ValueModel::Bool(false)),
        and_model(ValueModel::Bool(false), ValueModel::Bool(x)) == ok(ValueModel::Bool(false)),
        and_model(ValueModel::Bool(x), ValueModel::Bool(true)) == ok(ValueModel::Bool(x)),
        and_model(ValueModel::Bool(true), ValueModel::Bool(x)) == ok(ValueModel::Bool(x)),
        or_model(ValueModel::Bool(x), ValueModel::Bool(true)) == ok(ValueModel::Bool(true)),
        or_model(ValueModel::Bool(true), ValueModel::Bool(x)) == ok(ValueModel::Bool(true)),
        or_model(ValueModel::Bool(x), ValueModel::Bool(false)) == ok(ValueModel::Bool(x)),
        or_model(ValueModel::Bool(false), ValueModel::Bool(x)) == ok(ValueModel::Bool(x)),
        not_model(ValueModel::Bool(x)) == ok(ValueModel::Bool(!x)),
        and_model(ValueModel::Bool(x), ValueModel::Bool(y)) matches Ok(ValueModel::Bool(c))
            && or_model(ValueModel::Bool(!x), ValueModel::Bool(!y)) == ok(ValueModel::Bool(!c)),
{
}

/// Integer addition and multiplication answer as numbers do: the result is
/// the sum or product, operands commute, zero and one leave a number as it is,
/// and a number minus itself is zero.
pub proof fn law_integer_arithmetic(a: i64, b: i64)
    ensures
        add_admits(ValueModel::Integer(a), ValueModel::Integer(b)) ==> (add_model(
            ValueModel::Integer(a),
            ValueModel::Integer(b),
        ) == add_model(ValueModel::Integer(b), ValueModel::Integer(a)) && (add_model(
            ValueModel::Integer(a),
            ValueModel::Integer(b),
        ) matches Ok(ValueModel::Integer(r)) && r == a + b)),
        mul_admits(ValueModel::Integer(a), ValueModel::Integer(b)) ==> (mul_model(
            ValueModel::Integer(a),
            ValueModel::Integer(b),
        ) == mul_model(ValueModel::Integer(b), ValueModel::Integer(a)) && (mul_model(
            ValueModel::Integer(a),
            ValueModel::Integer(b),
        ) matches Ok(ValueModel::Integer(r)) && r == a * b)),
        add_model(ValueModel::Integer(a), ValueModel::Integer(0)) == ok(ValueModel::Integer(a)),
        mul_model(ValueModel::Integer(a), ValueModel::Integer(1)) == ok(ValueModel::Integer(a)),
        sub_model(ValueModel::Integer(a), ValueModel::Integer(a)) == ok(ValueModel::Integer(0)),
        sub_admits(ValueModel::Integer(a), ValueModel::Integer(b)) ==> (sub_model(
            ValueModel::Integer(a),
            ValueModel::Integer(b),
        ) matches Ok(ValueModel::Integer(r)) && r == a - b),
        neg_admits(ValueModel::Integer(a)) ==> (neg_model(ValueModel::Integer(a)) matches Ok(
            ValueModel::Integer(n),
        ) && n + a == 0),
{
    if mul_admits(ValueModel::Integer(a), ValueModel::Integer(b)) {
        assert(a * b == b * a) by (nonlinear_arith);
    }
}

/// Strings concatenate under `add`: the result starts with the left string,
/// ends with the right one, and is as long as both together.
pub proof fn law_string_add_concatenates(x: Seq<char>, y: Seq<char>)
    ensures
        add_model(ValueModel::String(x), ValueModel::String(y)) matches Ok(ValueModel::String(r))
            && r.len() == x.len() + y.len() && r.take(x.len() as int) == x && r.skip(x.len() as int)
            == y,
{
    let r = x + y;
    assert(r.take(x.len() as int) =~= x);
    assert(r.skip(x.len() as int) =~= y);
}

/// Comparisons mirror one another: `a < b` exactly when `b > a`, and
/// `a <= b` exactly when `b >= a`.
pub proof fn law_comparisons_mirror(lhs: ValueModel, rhs: ValueModel)
    ensures
        lt_model(lhs, rhs) == gt_model(rhs, lhs),
        lte_model(lhs, rhs) == gte_model(rhs, lhs),
{
}

// ---------------------------------------------------------------------------
// The listing of a module
// ---------------------------------------------------------------------------

/// A function's listing is its header line followed by its blocks in flow-graph
/// order: with no blocks it is the header line alone, and one more block id in
/// the flow graph extends the listing by that block's `block#id:` line and the
/// block's instruction lines, so the listing grows.
pub proof fn law_function_listing_lists_its_blocks(
    blocks: Seq<Block>,
    f: Function,
    g: Function,
    b: BlockId,
)
    requires
        g.id == f.id,
        g.signature == f.signature,
        g.flow_graph@.blocks == f.flow_graph@.blocks.push(b),
    ensures
        f.flow_graph@.blocks.len() == 0 ==> function_text(blocks, f) == "function["@ + decimal_digits(
            f.id@ as nat,
        ) + "]@"@ + name_text(f.signature.name) + "()\n"@,
        function_text(blocks, g) == function_text(blocks, f) + "block#"@ + decimal_digits(
            blocks[b@ as int].id@ as nat,
        ) + ":\n"@ + instructions_text(blocks[b@ as int].instructions@),
        function_text(blocks, g).len() > function_text(blocks, f).len(),
{
    reveal_strlit("block#");
    let ids = f.flow_graph@.blocks;
    assert(ids.push(b).drop_last() =~= ids);
    assert(blocks_text(blocks, ids.push(b)) == blocks_text(blocks, ids) + crate::ir::types::block_text(
        blocks[b@ as int],
    ));
    if ids.len() == 0 {
        assert(blocks_text(blocks, ids) =~= Seq::<char>::empty());
    }
    let header = "function["@ + decimal_digits(f.id@ as nat) + "]@"@ + name_text(f.signature.name)
        + "()\n"@;
    assert(function_text(blocks, g) =~= function_text(blocks, f) + "block#"@ + decimal_digits(
        blocks[b@ as int].id@ as nat,
    ) + ":\n"@ + instructions_text(blocks[b@ as int].instructions@));
    assert(f.flow_graph@.blocks.len() == 0 ==> function_text(blocks, f) =~= header);
}

/// A block lists its instructions in order, one per line after a tab: none
/// for an empty block, and one more instruction adds one more line.
pub proof fn law_block_listing_lists_its_instructions(instructions: Seq<Instruction>, next: Instruction)
    ensures
        instructions_text(Seq::<Instruction>::empty()) == Seq::<char>::empty(),
        instructions_text(instructions.push(next)) == instructions_text(instructions) + "\t"@
            + instruction_debug_text(next@) + "\n"@,
{
    assert(instructions.push(next).drop_last() =~= instructions);
}

/// Constants are listed in pool order, one line `#i:\t constant` each, numbered
/// from 0; functions are listed in order, each after the one before.
pub proof fn law_module_listing_order(
    pool: Seq<ValueModel>,
    v: ValueModel,
    blocks: Seq<Block>,
    functions: Seq<Function>,
    f: Function,
)
    ensures
        constants_text(Seq::<ValueModel>::empty()) == Seq::<char>::empty(),
        constants_text(pool.push(v)) == constants_text(pool) + "#"@ + decimal_digits(pool.len())
            + ":\t "@ + constant_debug_text(v) + "\n"@,
        functions_text(blocks, Seq::<Function>::empty()) == Seq::<char>::empty(),
        functions_text(blocks, functions.push(f)) == functions_text(blocks, functions)
            + function_text(blocks, f),
{
    assert(pool.push(v).drop_last() =~= pool);
    assert(functions.push(f).drop_last() =~= functions);
}

/// Strings compare for equality by their characters.
pub proof fn law_strings_compare_by_characters(x: Seq<char>, y: Seq<char>)
    ensures
        eq_model(ValueModel::String(x), ValueModel::String(y)) == ok(ValueModel::Bool(x == y)),
        ne_model(ValueModel::String(x), ValueModel::String(y)) == ok(ValueModel::Bool(x != y)),
        eq_model(ValueModel::String(x), ValueModel::String(x)) == ok(ValueModel::Bool(true)),
{
}

/// Decimal numerals: a single digit is one character from `0` to `9`;
/// appending a digit to a positive number appends its character to the
/// numeral; a negative number is written as `-` and the numeral of its
/// magnitude.
pub proof fn law_decimal_numerals(n: nat, d: nat, i: int)
    requires
        d < 10,
    ensures
        decimal_digits(d) == seq![(d + 48) as char],
        '0' <= decimal_digits(d)[0] <= '9',
        n > 0 ==> decimal_digits(10 * n + d) == decimal_digits(n).push((d + 48) as char),
        i < 0 ==> decimal_text(i) == seq!['-'] + decimal_digits((-i) as nat),
        i >= 0 ==> decimal_text(i) == decimal_digits(i as nat),
{
    if n > 0 {
        assert((10 * n + d) / 10 == n && (10 * n + d) % 10 == d) by (nonlinear_arith)
            requires
                d < 10,
        ;
    }
}

} // verus!
