//! Laws of the builder and the code generator, stated over their models.
use vstd::prelude::*;
use crate::ast::{BinOp, ExprModel, UnOp};
use crate::builder::{
    bound_in, build, build_bindings, is_binding_form, is_let_form, is_reserved,
    lemma_binding_failure_stays,
};
use crate::codegen::{
    has_next_slot, lowering, lowering_of_bindings, next_slot, SLOT_WIDTH,
};
use crate::error::ErrorModel;
use crate::instr::{binary_instr, unary_instr, Instr};
use crate::term::TermModel;

verus! {

/// An integer atom in the 32-bit signed range builds to a literal, and a
/// literal compiles to exactly one load of its value, whatever the
/// environment and the next free slot.
pub proof fn law_literal(n: int, env: Map<Seq<char>, i32>, offset: i32)
    requires
        i32::MIN <= n <= i32::MAX,
    ensures
        build(TermModel::Int(n)) == Ok::<ExprModel, ErrorModel>(ExprModel::Num(n as i32)),
        lowering(ExprModel::Num(n as i32), env, offset) == Ok::<Seq<Instr>, ErrorModel>(
            seq![Instr::LoadImmediate(n as i32)],
        ),
{
}

/// An integer atom outside the 32-bit signed range does not build.
pub proof fn law_literal_out_of_range(n: int)
    requires
        n < i32::MIN || n > i32::MAX,
    ensures
        build(TermModel::Int(n)) == Err::<ExprModel, ErrorModel>(ErrorModel::IntegerOverflow(n)),
{
}

/// The code of a unary operation is the code of its operand followed by the
/// operator's one instruction; where the operand fails, so does the
/// operation, in the same way.
pub proof fn law_unary_suffix(op: UnOp, e: ExprModel, env: Map<Seq<char>, i32>, offset: i32)
    ensures
        lowering(ExprModel::UnOp(op, Box::new(e)), env, offset) == (match lowering(
            e,
            env,
            offset,
        ) {
            Ok(code) => Ok::<Seq<Instr>, ErrorModel>(code + seq![unary_instr(op)]),
            Err(x) => Err(x),
        }),
        unary_instr(UnOp::Add1) == Instr::Increment,
        unary_instr(UnOp::Sub1) == Instr::Decrement,
        unary_instr(UnOp::Negate) == Instr::NegateAccumulator,
{
    match lowering(e, env, offset) {
        Ok(code) => {
            assert(code.push(unary_instr(op)) =~= code + seq![unary_instr(op)]);
        },
        Err(_) => {},
    }
}

/// In the code of a binary operation the whole code of the left operand
/// comes first, then the store of its value in the next free slot, then the
/// whole code of the right operand, generated with the slot after that one
/// as the next free slot, then the one combining instruction.
pub proof fn law_left_before_right(
    op: BinOp,
    left: ExprModel,
    right: ExprModel,
    env: Map<Seq<char>, i32>,
    offset: i32,
)
    requires
        lowering(ExprModel::BinOp(op, Box::new(left), Box::new(right)), env, offset) is Ok,
    ensures
        has_next_slot(offset),
        lowering(left, env, offset) is Ok,
        lowering(right, env, next_slot(offset)) is Ok,
        ({
            let code = lowering(
                ExprModel::BinOp(op, Box::new(left), Box::new(right)),
                env,
                offset,
            )->Ok_0;
            let first = lowering(left, env, offset)->Ok_0;
            let second = lowering(right, env, next_slot(offset))->Ok_0;
            &&& code == first + seq![Instr::StoreToSlot(offset)] + second + seq![
                binary_instr(op, offset),
            ]
            &&& code.len() == first.len() + second.len() + 2
            &&& code.subrange(0, first.len() as int) == first
            &&& code[first.len() as int] == Instr::StoreToSlot(offset)
            &&& code.subrange(first.len() as int + 1, code.len() as int - 1) == second
            &&& code.last() == binary_instr(op, offset)
        }),
        binary_instr(BinOp::Minus, offset) == Instr::SubtractReversed(offset),
{
    let code = lowering(ExprModel::BinOp(op, Box::new(left), Box::new(right)), env, offset)->Ok_0;
    let first = lowering(left, env, offset)->Ok_0;
    let second = lowering(right, env, next_slot(offset))->Ok_0;
    assert(code =~= first + seq![Instr::StoreToSlot(offset)] + second + seq![
        binary_instr(op, offset),
    ]);
    assert(code.subrange(0, first.len() as int) =~= first);
    assert(code.subrange(first.len() as int + 1, code.len() as int - 1) =~= second);
}

/// A binary operation fails as its left operand does; if that one compiles,
/// as its right operand does.
pub proof fn law_binary_failure(
    op: BinOp,
    left: ExprModel,
    right: ExprModel,
    env: Map<Seq<char>, i32>,
    offset: i32,
)
    ensures
        lowering(left, env, offset) is Err ==> lowering(
            ExprModel::BinOp(op, Box::new(left), Box::new(right)),
            env,
            offset,
        ) == Err::<Seq<Instr>, ErrorModel>(lowering(left, env, offset)->Err_0),
        lowering(left, env, offset) is Ok && has_next_slot(offset) && lowering(
            right,
            env,
            next_slot(offset),
        ) is Err ==> lowering(ExprModel::BinOp(op, Box::new(left), Box::new(right)), env, offset)
            == Err::<Seq<Instr>, ErrorModel>(lowering(right, env, next_slot(offset))->Err_0),
{
}

/// A symbol that is no reserved word builds to a reference, and a reference
/// to a name that the environment does not bind fails to compile, naming it.
pub proof fn law_unbound_variable(name: Seq<char>, env: Map<Seq<char>, i32>, offset: i32)
    requires
        !env.contains_key(name),
    ensures
        !is_reserved(name) ==> build(TermModel::Symbol(name)) == Ok::<ExprModel, ErrorModel>(
            ExprModel::Var(name),
        ),
        lowering(ExprModel::Var(name), env, offset) == Err::<Seq<Instr>, ErrorModel>(
            ErrorModel::UnboundVariable(name),
        ),
{
}

/// A reference to a bound name compiles to one load from the name's slot.
pub proof fn law_bound_variable(name: Seq<char>, env: Map<Seq<char>, i32>, offset: i32)
    requires
        env.contains_key(name),
    ensures
        lowering(ExprModel::Var(name), env, offset) == Ok::<Seq<Instr>, ErrorModel>(
            seq![Instr::LoadFromSlot(env[name])],
        ),
{
}

/// A `let` form fails as its bindings do, whatever its body is.
pub proof fn law_let_fails_with_bindings(form: TermModel)
    requires
        is_let_form(form),
        form->List_0[1]->List_0.len() > 0,
        build_bindings(form->List_0[1]->List_0, form->List_0[1]->List_0.len()) is Err,
    ensures
        build(form) == Err::<ExprModel, ErrorModel>(
            build_bindings(form->List_0[1]->List_0, form->List_0[1]->List_0.len())->Err_0,
        ),
{
}

/// A `let` form without bindings does not build.
pub proof fn law_empty_binding_list(form: TermModel)
    requires
        is_let_form(form),
        form->List_0[1]->List_0.len() == 0,
    ensures
        build(form) == Err::<ExprModel, ErrorModel>(ErrorModel::EmptyBindingList),
{
}

/// Where the bindings before the one at `j` build, and that one binds a name
/// that one of them has bound, the bindings fail with that name as a
/// duplicate: nothing after it is looked at, and no tree is built.
pub proof fn law_duplicate_binding(bindings: Seq<TermModel>, j: nat)
    requires
        j < bindings.len(),
        build_bindings(bindings, j) is Ok,
        is_binding_form(bindings[j as int]),
        bound_in(build_bindings(bindings, j)->Ok_0, bindings[j as int]->List_0[0]->Symbol_0),
    ensures
        build_bindings(bindings, bindings.len()) == Err::<
            Seq<(Seq<char>, ExprModel)>,
            ErrorModel,
        >(ErrorModel::DuplicateBinding(bindings[j as int]->List_0[0]->Symbol_0)),
{
    assert(build_bindings(bindings, j + 1) is Err);
    lemma_binding_failure_stays(bindings, j + 1, bindings.len());
}

/// Where the bindings before the one at `j` build, and that one binds a
/// reserved word that none of them has bound, the bindings fail with that
/// word as misused.
pub proof fn law_reserved_binding_name(bindings: Seq<TermModel>, j: nat)
    requires
        j < bindings.len(),
        build_bindings(bindings, j) is Ok,
        is_binding_form(bindings[j as int]),
        !bound_in(build_bindings(bindings, j)->Ok_0, bindings[j as int]->List_0[0]->Symbol_0),
        is_reserved(bindings[j as int]->List_0[0]->Symbol_0),
    ensures
        build_bindings(bindings, bindings.len()) == Err::<
            Seq<(Seq<char>, ExprModel)>,
            ErrorModel,
        >(ErrorModel::ReservedWordMisuse(bindings[j as int]->List_0[0]->Symbol_0)),
{
    assert(build_bindings(bindings, j + 1) is Err);
    lemma_binding_failure_stays(bindings, j + 1, bindings.len());
}

/// A reserved word that stands alone does not build.
pub proof fn law_reserved_word(name: Seq<char>)
    requires
        is_reserved(name),
    ensures
        build(TermModel::Symbol(name)) == Err::<ExprModel, ErrorModel>(
            ErrorModel::ReservedWordMisuse(name),
        ),
{
}

/// The environment after the first `n` bindings of a `let` form that starts
/// at `offset`: each name in turn is bound to the next slot, in place of
/// what it was bound to.
pub open spec fn scope_after(
    bindings: Seq<(Seq<char>, ExprModel)>,
    n: nat,
    env: Map<Seq<char>, i32>,
    offset: i32,
) -> Map<Seq<char>, i32>
    decreases n,
{
    if n == 0 || n > bindings.len() {
        env
    } else {
        scope_after(bindings, (n - 1) as nat, env, offset).insert(
            bindings[n - 1].0,
            (offset + SLOT_WIDTH * (n - 1)) as i32,
        )
    }
}

/// Bindings are made one after the other. Where the first `n` bindings
/// compile, they take `n` slots in order from `offset`, without a gap; the
/// environment they leave binds each of their names; and each binding's
/// value was compiled in the environment that the bindings before it left,
/// with its own slot as the next free one.
pub proof fn law_sequential_binding(
    bindings: Seq<(Seq<char>, ExprModel)>,
    n: nat,
    env: Map<Seq<char>, i32>,
    offset: i32,
)
    requires
        n <= bindings.len(),
        lowering_of_bindings(bindings, n, env, offset) is Ok,
    ensures
        ({
            let frame = lowering_of_bindings(bindings, n, env, offset)->Ok_0;
            &&& frame.offset == offset + SLOT_WIDTH * n
            &&& frame.env == scope_after(bindings, n, env, offset)
            &&& forall|k: int| 0 <= k < n ==> frame.env.contains_key((#[trigger] bindings[k]).0)
            &&& forall|k: int|
                0 <= k < n ==> lowering(
                    (#[trigger] bindings[k]).1,
                    scope_after(bindings, k as nat, env, offset),
                    (offset + SLOT_WIDTH * k) as i32,
                ) is Ok
        }),
    decreases n,
{
    if n > 0 {
        let before = (n - 1) as nat;
        assert(lowering_of_bindings(bindings, before, env, offset) is Ok);
        law_sequential_binding(bindings, before, env, offset);
    }
}

/// In the environment after the first `n` bindings, a name is found in the
/// slot of the last of them that binds it.
pub proof fn law_last_binding_wins(
    bindings: Seq<(Seq<char>, ExprModel)>,
    n: nat,
    env: Map<Seq<char>, i32>,
    offset: i32,
    k: int,
)
    requires
        0 <= k < n <= bindings.len(),
        forall|m: int| k < m < n ==> (#[trigger] bindings[m]).0 != bindings[k].0,
    ensures
        scope_after(bindings, n, env, offset).contains_key(bindings[k].0),
        scope_after(bindings, n, env, offset)[bindings[k].0] == (offset + SLOT_WIDTH * k) as i32,
    decreases n,
{
    if k < n - 1 {
        law_last_binding_wins(bindings, (n - 1) as nat, env, offset, k);
        assert(bindings[n - 1].0 != bindings[k].0);
    }
}

/// A binding hides whatever bound its name before. The body of a `let` form
/// that is a reference to one of the form's names loads the slot of the last
/// binding of that name, whatever the environment around the form says of
/// the name.
pub proof fn law_shadowing(
    bindings: Seq<(Seq<char>, ExprModel)>,
    env: Map<Seq<char>, i32>,
    offset: i32,
    k: int,
)
    requires
        0 <= k < bindings.len(),
        forall|m: int| k < m < bindings.len() ==> (#[trigger] bindings[m]).0 != bindings[k].0,
        lowering_of_bindings(bindings, bindings.len(), env, offset) is Ok,
    ensures
        lowering(
            ExprModel::Let(bindings, Box::new(ExprModel::Var(bindings[k].0))),
            env,
            offset,
        ) == Ok::<Seq<Instr>, ErrorModel>(
            lowering_of_bindings(bindings, bindings.len(), env, offset)->Ok_0.code
                + seq![Instr::LoadFromSlot((offset + SLOT_WIDTH * k) as i32)],
        ),
        offset + SLOT_WIDTH * k <= i32::MAX,
{
    law_sequential_binding(bindings, bindings.len(), env, offset);
    law_last_binding_wins(bindings, bindings.len(), env, offset, k);
    let frame = lowering_of_bindings(bindings, bindings.len(), env, offset)->Ok_0;
    assert(lowering(ExprModel::Var(bindings[k].0), frame.env, frame.offset) == Ok::<
        Seq<Instr>,
        ErrorModel,
    >(seq![Instr::LoadFromSlot((offset + SLOT_WIDTH * k) as i32)]));
    assert(SLOT_WIDTH * k <= SLOT_WIDTH * bindings.len()) by (nonlinear_arith)
        requires
            k <= bindings.len(),
    ;
}

/// Whether every store of `code` goes to a slot at `offset` or after it.
pub open spec fn stores_from(code: Seq<Instr>, offset: int) -> bool {
    forall|i: int|
        0 <= i < code.len() ==> ((#[trigger] code[i]) matches Instr::StoreToSlot(slot) ==> slot
            >= offset)
}

/// The code of an expression writes to no slot before the next free one:
/// what is kept in the slots in use, the values of the names in scope and
/// the left operands that wait for their right ones, is never overwritten.
pub proof fn law_slots_in_use_are_kept(e: ExprModel, env: Map<Seq<char>, i32>, offset: i32)
    requires
        lowering(e, env, offset) is Ok,
    ensures
        stores_from(lowering(e, env, offset)->Ok_0, offset as int),
    decreases e, 0nat,
{
    match e {
        ExprModel::Num(_) => {},
        ExprModel::Var(_) => {},
        ExprModel::Let(bindings, body) => {
            law_bindings_keep_slots(bindings, bindings.len(), env, offset);
            let frame = lowering_of_bindings(bindings, bindings.len(), env, offset)->Ok_0;
            law_slots_in_use_are_kept(*body, frame.env, frame.offset);
        },
        ExprModel::UnOp(_, operand) => {
            law_slots_in_use_are_kept(*operand, env, offset);
        },
        ExprModel::BinOp(_, left, right) => {
            law_slots_in_use_are_kept(*left, env, offset);
            law_slots_in_use_are_kept(*right, env, next_slot(offset));
        },
    }
}

/// The code of the first `n` bindings of a `let` form writes to no slot
/// before the first that the form may use, and the next free slot never
/// moves back.
pub proof fn law_bindings_keep_slots(
    bindings: Seq<(Seq<char>, ExprModel)>,
    n: nat,
    env: Map<Seq<char>, i32>,
    offset: i32,
)
    requires
        n <= bindings.len(),
        lowering_of_bindings(bindings, n, env, offset) is Ok,
    ensures
        stores_from(lowering_of_bindings(bindings, n, env, offset)->Ok_0.code, offset as int),
        lowering_of_bindings(bindings, n, env, offset)->Ok_0.offset >= offset,
    decreases bindings, n,
{
    if n > 0 {
        let before = (n - 1) as nat;
        law_bindings_keep_slots(bindings, before, env, offset);
        let frame = lowering_of_bindings(bindings, before, env, offset)->Ok_0;
        law_slots_in_use_are_kept(bindings[n - 1].1, frame.env, frame.offset);
    }
}

/// Where the bindings of a `let` form before the one at `j` build, and that
/// one binds a name again, the whole form fails with that name as a
/// duplicate, whatever follows it and whatever the body is.
pub proof fn law_duplicate_binding_in_let(form: TermModel, j: nat)
    requires
        is_let_form(form),
        j < form->List_0[1]->List_0.len(),
        build_bindings(form->List_0[1]->List_0, j) is Ok,
        is_binding_form(form->List_0[1]->List_0[j as int]),
        bound_in(
            build_bindings(form->List_0[1]->List_0, j)->Ok_0,
            form->List_0[1]->List_0[j as int]->List_0[0]->Symbol_0,
        ),
    ensures
        build(form) == Err::<ExprModel, ErrorModel>(
            ErrorModel::DuplicateBinding(form->List_0[1]->List_0[j as int]->List_0[0]->Symbol_0),
        ),
{
    law_duplicate_binding(form->List_0[1]->List_0, j);
}

/// Where the bindings of a `let` form before the one at `j` build, and that
/// one binds a reserved word, the whole form fails with that word as
/// misused.
pub proof fn law_reserved_binding_name_in_let(form: TermModel, j: nat)
    requires
        is_let_form(form),
        j < form->List_0[1]->List_0.len(),
        build_bindings(form->List_0[1]->List_0, j) is Ok,
        is_binding_form(form->List_0[1]->List_0[j as int]),
        !bound_in(
            build_bindings(form->List_0[1]->List_0, j)->Ok_0,
            form->List_0[1]->List_0[j as int]->List_0[0]->Symbol_0,
        ),
        is_reserved(form->List_0[1]->List_0[j as int]->List_0[0]->Symbol_0),
    ensures
        build(form) == Err::<ExprModel, ErrorModel>(
            ErrorModel::ReservedWordMisuse(
                form->List_0[1]->List_0[j as int]->List_0[0]->Symbol_0,
            ),
        ),
{
    law_reserved_binding_name(form->List_0[1]->List_0, j);
}

} // verus!
