//! What the instructions do, and that the generated code computes the value
//! of its expression. Values are integers without bound: overflow of the
//! machine's registers is not modelled.
use vstd::prelude::*;
use crate::ast::{BinOp, ExprModel, UnOp};
use crate::codegen::{lowering, lowering_of_bindings, next_slot};
use crate::instr::Instr;

verus! {

/// The state of the machine: the accumulator and what each slot holds.
pub ghost struct Machine {
    pub acc: int,
    pub slots: Map<int, int>,
}

/// The state after one instruction.
pub open spec fn step(instr: Instr, m: Machine) -> Machine {
    match instr {
        Instr::LoadImmediate(n) => Machine { acc: n as int, slots: m.slots },
        Instr::LoadFromSlot(slot) => Machine { acc: m.slots[slot as int], slots: m.slots },
        Instr::StoreToSlot(slot) => Machine { acc: m.acc, slots: m.slots.insert(slot as int, m.acc) },
        Instr::Increment => Machine { acc: m.acc + 1, slots: m.slots },
        Instr::Decrement => Machine { acc: m.acc - 1, slots: m.slots },
        Instr::NegateAccumulator => Machine { acc: -m.acc, slots: m.slots },
        Instr::AddFromSlot(slot) => Machine { acc: m.slots[slot as int] + m.acc, slots: m.slots },
        Instr::MultiplyFromSlot(slot) => Machine {
            acc: m.slots[slot as int] * m.acc,
            slots: m.slots,
        },
        Instr::SubtractReversed(slot) => Machine {
            acc: m.slots[slot as int] - m.acc,
            slots: m.slots,
        },
    }
}

/// The state after a sequence of instructions, run in order.
pub open spec fn run(code: Seq<Instr>, m: Machine) -> Machine
    decreases code.len(),
{
    if code.len() == 0 {
        m
    } else {
        step(code.last(), run(code.drop_last(), m))
    }
}

/// The value of an expression, where `values` gives the value of each name
/// in scope.
pub open spec fn value(e: ExprModel, values: Map<Seq<char>, int>) -> int
    decreases e, 0nat,
{
    match e {
        ExprModel::Num(n) => n as int,
        ExprModel::Var(name) => values[name],
        ExprModel::Let(bindings, body) => value(
            *body,
            values_after(bindings, bindings.len(), values),
        ),
        ExprModel::UnOp(op, operand) => match op {
            UnOp::Add1 => value(*operand, values) + 1,
            UnOp::Sub1 => value(*operand, values) - 1,
            UnOp::Negate => -value(*operand, values),
        },
        ExprModel::BinOp(op, left, right) => match op {
            BinOp::Plus => value(*left, values) + value(*right, values),
            BinOp::Minus => value(*left, values) - value(*right, values),
            BinOp::Times => value(*left, values) * value(*right, values),
        },
    }
}

/// The values in scope after the first `n` bindings of a `let` form: each
/// binding's value is taken with the earlier ones in scope.
pub open spec fn values_after(
    bindings: Seq<(Seq<char>, ExprModel)>,
    n: nat,
    values: Map<Seq<char>, int>,
) -> Map<Seq<char>, int>
    decreases bindings, n,
{
    if n == 0 || n > bindings.len() {
        values
    } else {
        let earlier = values_after(bindings, (n - 1) as nat, values);
        earlier.insert(bindings[n - 1].0, value(bindings[n - 1].1, earlier))
    }
}

/// Whether the machine holds, for each name of the environment, the name's
/// value in the name's slot, and that slot lies before `offset`.
pub open spec fn holds_values(
    env: Map<Seq<char>, i32>,
    values: Map<Seq<char>, int>,
    m: Machine,
    offset: int,
) -> bool {
    forall|name: Seq<char>| #[trigger]
        env.contains_key(name) ==> env[name] < offset && m.slots[env[name] as int] == values[name]
}

/// Whether the two states hold the same in every slot before `offset`.
pub open spec fn same_below(before: Machine, after: Machine, offset: int) -> bool {
    forall|slot: int| slot < offset ==> #[trigger] after.slots[slot] == before.slots[slot]
}

/// Running one sequence after another is running the two in a row.
pub proof fn lemma_run_concat(first: Seq<Instr>, second: Seq<Instr>, m: Machine)
    ensures
        run(first + second, m) == run(second, run(first, m)),
    decreases second.len(),
{
    if second.len() == 0 {
        assert(first + second =~= first);
    } else {
        assert((first + second).drop_last() =~= first + second.drop_last());
        assert((first + second).last() == second.last());
        lemma_run_concat(first, second.drop_last(), m);
    }
}

/// Running a sequence and then one more instruction.
pub proof fn lemma_run_push(code: Seq<Instr>, instr: Instr, m: Machine)
    ensures
        run(code.push(instr), m) == step(instr, run(code, m)),
{
    assert(code.push(instr).drop_last() =~= code);
}

/// The generated code computes the expression's value. Where the machine
/// holds the value of each name of the environment in the name's slot, all
/// before the next free slot, the code of an expression leaves the value of
/// the expression in the accumulator and every slot before the next free one
/// as it was.
pub proof fn law_code_computes_value(
    e: ExprModel,
    env: Map<Seq<char>, i32>,
    offset: i32,
    values: Map<Seq<char>, int>,
    m: Machine,
)
    requires
        lowering(e, env, offset) is Ok,
        holds_values(env, values, m, offset as int),
    ensures
        run(lowering(e, env, offset)->Ok_0, m).acc == value(e, values),
        same_below(m, run(lowering(e, env, offset)->Ok_0, m), offset as int),
    decreases e, 0nat,
{
    let code = lowering(e, env, offset)->Ok_0;
    match e {
        ExprModel::Num(n) => {
            lemma_run_push(Seq::empty(), Instr::LoadImmediate(n), m);
            assert(code =~= Seq::empty().push(Instr::LoadImmediate(n)));
        },
        ExprModel::Var(name) => {
            lemma_run_push(Seq::empty(), Instr::LoadFromSlot(env[name]), m);
            assert(code =~= Seq::empty().push(Instr::LoadFromSlot(env[name])));
        },
        ExprModel::Let(bindings, body) => {
            let frame = lowering_of_bindings(bindings, bindings.len(), env, offset)->Ok_0;
            law_bindings_compute_values(bindings, bindings.len(), env, offset, values, m);
            let bound = run(frame.code, m);
            let body_code = lowering(*body, frame.env, frame.offset)->Ok_0;
            law_code_computes_value(
                *body,
                frame.env,
                frame.offset,
                values_after(bindings, bindings.len(), values),
                bound,
            );
            lemma_run_concat(frame.code, body_code, m);
        },
        ExprModel::UnOp(op, operand) => {
            law_code_computes_value(*operand, env, offset, values, m);
            lemma_run_push(lowering(*operand, env, offset)->Ok_0, crate::instr::unary_instr(op), m);
        },
        ExprModel::BinOp(op, left, right) => {
            let left_code = lowering(*left, env, offset)->Ok_0;
            let right_code = lowering(*right, env, next_slot(offset))->Ok_0;
            law_code_computes_value(*left, env, offset, values, m);
            let m1 = run(left_code, m);
            let m2 = step(Instr::StoreToSlot(offset), m1);
            lemma_run_push(left_code, Instr::StoreToSlot(offset), m);
            assert(holds_values(env, values, m2, next_slot(offset) as int)) by {
                assert forall|name: Seq<char>| #[trigger] env.contains_key(name) implies env[name]
                    < next_slot(offset) && m2.slots[env[name] as int] == values[name] by {
                    assert(m1.slots[env[name] as int] == m.slots[env[name] as int]);
                }
            }
            law_code_computes_value(*right, env, next_slot(offset), values, m2);
            let m3 = run(right_code, m2);
            lemma_run_concat(left_code.push(Instr::StoreToSlot(offset)), right_code, m);
            lemma_run_push(
                left_code.push(Instr::StoreToSlot(offset)) + right_code,
                crate::instr::binary_instr(op, offset),
                m,
            );
            assert(m3.slots[offset as int] == m2.slots[offset as int]);
            assert forall|slot: int| slot < offset implies #[trigger] m3.slots[slot]
                == m.slots[slot] by {
                assert(m3.slots[slot] == m2.slots[slot]);
                assert(m1.slots[slot] == m.slots[slot]);
            }
        },
    }
}

/// The code of the first `n` bindings of a `let` form leaves the machine
/// holding the value of every name then in scope, and every slot before the
/// form's first as it was.
pub proof fn law_bindings_compute_values(
    bindings: Seq<(Seq<char>, ExprModel)>,
    n: nat,
    env: Map<Seq<char>, i32>,
    offset: i32,
    values: Map<Seq<char>, int>,
    m: Machine,
)
    requires
        n <= bindings.len(),
        lowering_of_bindings(bindings, n, env, offset) is Ok,
        holds_values(env, values, m, offset as int),
    ensures
        ({
            let frame = lowering_of_bindings(bindings, n, env, offset)->Ok_0;
            &&& frame.offset >= offset
            &&& holds_values(
                frame.env,
                values_after(bindings, n, values),
                run(frame.code, m),
                frame.offset as int,
            )
            &&& same_below(m, run(frame.code, m), offset as int)
        }),
    decreases bindings, n,
{
    if n == 0 {
        let frame = lowering_of_bindings(bindings, n, env, offset)->Ok_0;
        assert(frame.code =~= Seq::empty());
    } else {
        let before = (n - 1) as nat;
        law_bindings_compute_values(bindings, before, env, offset, values, m);
        let earlier = lowering_of_bindings(bindings, before, env, offset)->Ok_0;
        let frame = lowering_of_bindings(bindings, n, env, offset)->Ok_0;
        let scope = values_after(bindings, before, values);
        let m1 = run(earlier.code, m);
        let value_code = lowering(bindings[n - 1].1, earlier.env, earlier.offset)->Ok_0;
        law_code_computes_value(bindings[n - 1].1, earlier.env, earlier.offset, scope, m1);
        let m2 = run(value_code, m1);
        let m3 = step(Instr::StoreToSlot(earlier.offset), m2);
        lemma_run_push(value_code, Instr::StoreToSlot(earlier.offset), m1);
        lemma_run_concat(earlier.code, value_code.push(Instr::StoreToSlot(earlier.offset)), m);
        assert(run(frame.code, m) == m3);
        let name = bindings[n - 1].0;
        assert forall|x: Seq<char>| #[trigger] frame.env.contains_key(x) implies frame.env[x]
            < frame.offset && m3.slots[frame.env[x] as int] == values_after(
            bindings,
            n,
            values,
        )[x] by {
            if x != name {
                assert(earlier.env.contains_key(x));
                assert(m2.slots[earlier.env[x] as int] == m1.slots[earlier.env[x] as int]);
            }
        }
        assert forall|slot: int| slot < offset implies #[trigger] m3.slots[slot]
            == m.slots[slot] by {
            assert(m2.slots[slot] == m1.slots[slot]);
            assert(m1.slots[slot] == m.slots[slot]);
        }
    }
}

/// The code of an expression that is compiled with no name bound leaves the
/// expression's value in the accumulator, whatever the machine held before.
pub proof fn law_program_computes_value(e: ExprModel, offset: i32, m: Machine)
    requires
        lowering(e, Map::empty(), offset) is Ok,
    ensures
        run(lowering(e, Map::empty(), offset)->Ok_0, m).acc == value(e, Map::empty()),
{
    law_code_computes_value(e, Map::empty(), offset, Map::empty(), m);
}

} // verus!
