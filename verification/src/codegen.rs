//! The code generator: from an expression, an environment and the next free
//! slot to the instructions that leave the expression's value in the
//! accumulator.
use vstd::prelude::*;
use crate::ast::{bindings_model, Expr, ExprModel};
use crate::env::Environment;
use crate::error::{CompileError, ErrorModel};
use crate::instr::{binary_instr, instr_for_binary, instr_for_unary, unary_instr, Instr};

verus! {

/// The distance between two neighbouring slots.
pub const SLOT_WIDTH: i32 = 8;

/// Whether a slot can follow the one at `offset`.
pub open spec fn has_next_slot(offset: i32) -> bool {
    offset + SLOT_WIDTH <= i32::MAX
}

/// The slot after the one at `offset`.
pub open spec fn next_slot(offset: i32) -> i32 {
    (offset + SLOT_WIDTH) as i32
}

/// What the bindings of a `let` form leave behind: their code, the
/// environment that the body sees, and the next free slot.
pub ghost struct Frame {
    pub code: Seq<Instr>,
    pub env: Map<Seq<char>, i32>,
    pub offset: i32,
}

/// The instructions for `e`, where `env` says which slot each name lives in
/// and no slot from `offset` on is in use; or the first failure met when `e`
/// is walked depth first, left to right.
pub open spec fn lowering(e: ExprModel, env: Map<Seq<char>, i32>, offset: i32) -> Result<
    Seq<Instr>,
    ErrorModel,
>
    decreases e, 0nat,
{
    match e {
        ExprModel::Num(n) => Ok(seq![Instr::LoadImmediate(n)]),
        ExprModel::Var(name) => if env.contains_key(name) {
            Ok(seq![Instr::LoadFromSlot(env[name])])
        } else {
            Err(ErrorModel::UnboundVariable(name))
        },
        ExprModel::Let(bindings, body) => match lowering_of_bindings(
            bindings,
            bindings.len(),
            env,
            offset,
        ) {
            Err(x) => Err(x),
            Ok(frame) => match lowering(*body, frame.env, frame.offset) {
                Err(x) => Err(x),
                Ok(code) => Ok(frame.code + code),
            },
        },
        ExprModel::UnOp(op, operand) => match lowering(*operand, env, offset) {
            Err(x) => Err(x),
            Ok(code) => Ok(code.push(unary_instr(op))),
        },
        ExprModel::BinOp(op, left, right) => match lowering(*left, env, offset) {
            Err(x) => Err(x),
            Ok(left_code) => if !has_next_slot(offset) {
                Err(ErrorModel::SlotOverflow)
            } else {
                match lowering(*right, env, next_slot(offset)) {
                    Err(x) => Err(x),
                    Ok(right_code) => Ok(
                        (left_code.push(Instr::StoreToSlot(offset)) + right_code).push(
                            binary_instr(op, offset),
                        ),
                    ),
                }
            },
        },
    }
}

/// The first `n` bindings of a `let` form, lowered in order: each value is
/// computed in the environment that the earlier bindings left, stored in the
/// next free slot, and its name bound to that slot.
pub open spec fn lowering_of_bindings(
    bindings: Seq<(Seq<char>, ExprModel)>,
    n: nat,
    env: Map<Seq<char>, i32>,
    offset: i32,
) -> Result<Frame, ErrorModel>
    decreases bindings, n,
{
    if n == 0 || n > bindings.len() {
        Ok(Frame { code: Seq::empty(), env, offset })
    } else {
        match lowering_of_bindings(bindings, (n - 1) as nat, env, offset) {
            Err(x) => Err(x),
            Ok(frame) => match lowering(bindings[n - 1].1, frame.env, frame.offset) {
                Err(x) => Err(x),
                Ok(code) => if !has_next_slot(frame.offset) {
                    Err(ErrorModel::SlotOverflow)
                } else {
                    Ok(
                        Frame {
                            code: frame.code + code.push(Instr::StoreToSlot(frame.offset)),
                            env: frame.env.insert(bindings[n - 1].0, frame.offset),
                            offset: next_slot(frame.offset),
                        },
                    )
                },
            },
        }
    }
}

/// Once a binding fails to lower, the failure is that of every longer prefix.
pub proof fn lemma_lowering_failure_stays(
    bindings: Seq<(Seq<char>, ExprModel)>,
    k: nat,
    n: nat,
    env: Map<Seq<char>, i32>,
    offset: i32,
)
    requires
        lowering_of_bindings(bindings, k, env, offset) is Err,
        k <= n <= bindings.len(),
    ensures
        lowering_of_bindings(bindings, n, env, offset) == lowering_of_bindings(
            bindings,
            k,
            env,
            offset,
        ),
    decreases n - k,
{
    if k < n {
        lemma_lowering_failure_stays(bindings, k, (n - 1) as nat, env, offset);
    }
}

fn generate_bindings(bindings: &Vec<(String, Expr)>, env: &Environment, offset: i32) -> (r: Result<
    (Vec<Instr>, Environment, i32),
    CompileError,
>)
    ensures
        match r {
            Ok(out) => lowering_of_bindings(
                bindings_model(bindings@),
                bindings@.len(),
                env@,
                offset,
            ) == Ok::<Frame, ErrorModel>(Frame { code: out.0@, env: out.1@, offset: out.2 }),
            Err(x) => lowering_of_bindings(
                bindings_model(bindings@),
                bindings@.len(),
                env@,
                offset,
            ) == Err::<Frame, ErrorModel>(x@),
        },
    decreases bindings,
{
    let ghost all = bindings_model(bindings@);
    let mut code: Vec<Instr> = Vec::new();
    let mut scope = env.clone();
    let mut current: i32 = offset;
    let mut i: usize = 0;
    while i < bindings.len()
        invariant
            i <= bindings.len(),
            all == bindings_model(bindings@),
            lowering_of_bindings(all, i as nat, env@, offset) == Ok::<Frame, ErrorModel>(
                Frame { code: code@, env: scope@, offset: current },
            ),
        decreases bindings.len() - i,
    {
        let binding = &bindings[i];
        assert(all[i as int] == (binding.0@, binding.1@));
        proof {
            if lowering(binding.1@, scope@, current) is Err || !has_next_slot(current) {
                lemma_lowering_failure_stays(all, (i + 1) as nat, bindings@.len(), env@, offset);
            }
        }
        let mut value_code = match generate(&binding.1, &scope, current) {
            Err(x) => {
                return Err(x);
            },
            Ok(value_code) => value_code,
        };
        if current > i32::MAX - SLOT_WIDTH {
            return Err(CompileError::SlotOverflow);
        }
        value_code.push(Instr::StoreToSlot(current));
        code.append(&mut value_code);
        scope.insert(binding.0.clone(), current);
        current = current + SLOT_WIDTH;
        i += 1;
    }
    Ok((code, scope, current))
}

/// Generates the instructions for `expr`. `env` gives the slot of each name
/// in scope, and the slots from `next_offset` on are free. Fails, with no
/// code at all, on the first name met that `env` and the bindings around it
/// do not bind, or when a slot would lie beyond the largest offset.
pub fn generate(expr: &Expr, env: &Environment, next_offset: i32) -> (r: Result<
    Vec<Instr>,
    CompileError,
>)
    ensures
        match r {
            Ok(code) => lowering(expr@, env@, next_offset) == Ok::<Seq<Instr>, ErrorModel>(code@),
            Err(x) => lowering(expr@, env@, next_offset) == Err::<Seq<Instr>, ErrorModel>(x@),
        },
    decreases expr,
{
    match expr {
        Expr::Num(n) => {
            let mut code: Vec<Instr> = Vec::new();
            code.push(Instr::LoadImmediate(*n));
            assert(code@ =~= seq![Instr::LoadImmediate(*n)]);
            Ok(code)
        },
        Expr::Var(name) => match env.get(name) {
            Some(slot) => {
                let mut code: Vec<Instr> = Vec::new();
                code.push(Instr::LoadFromSlot(slot));
                assert(code@ =~= seq![Instr::LoadFromSlot(slot)]);
                Ok(code)
            },
            None => Err(CompileError::UnboundVariable(name.clone())),
        },
        Expr::Let(bindings, body) => {
            proof {
                crate::ast::lemma_let_model(*bindings, *body);
            }
            let (mut code, scope, current) = match generate_bindings(bindings, env, next_offset) {
                Err(x) => {
                    return Err(x);
                },
                Ok(out) => out,
            };
            match generate(body, &scope, current) {
                Err(x) => Err(x),
                Ok(mut body_code) => {
                    code.append(&mut body_code);
                    Ok(code)
                },
            }
        },
        Expr::UnOp(op, operand) => match generate(operand, env, next_offset) {
            Err(x) => Err(x),
            Ok(mut code) => {
                code.push(instr_for_unary(*op));
                Ok(code)
            },
        },
        Expr::BinOp(op, left, right) => {
            let mut code = match generate(left, env, next_offset) {
                Err(x) => {
                    return Err(x);
                },
                Ok(code) => code,
            };
            if next_offset > i32::MAX - SLOT_WIDTH {
                return Err(CompileError::SlotOverflow);
            }
            let mut right_code = match generate(right, env, next_offset + SLOT_WIDTH) {
                Err(x) => {
                    return Err(x);
                },
                Ok(right_code) => right_code,
            };
            code.push(Instr::StoreToSlot(next_offset));
            code.append(&mut right_code);
            code.push(instr_for_binary(*op, next_offset));
            Ok(code)
        },
    }
}

} // verus!
