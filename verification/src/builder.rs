//! Construction of the expression tree from a term, with its static checks.
use vstd::prelude::*;
use vstd::string::*;
use crate::ast::{bindings_model, lemma_let_model, BinOp, Expr, ExprModel, UnOp};
use crate::error::{CompileError, ErrorModel};
use crate::term::{lemma_list_model, terms_model, Term, TermModel};

verus! {

/// The words that cannot name a variable.
pub open spec fn is_reserved(name: Seq<char>) -> bool {
    ||| name == "let"@
    ||| name == "add1"@
    ||| name == "sub1"@
    ||| name == "negate"@
    ||| name == "+"@
    ||| name == "-"@
    ||| name == "*"@
}

/// The unary operator that a head symbol stands for, if any.
pub open spec fn unary_op(symbol: Seq<char>) -> Option<UnOp> {
    if symbol == "add1"@ {
        Some(UnOp::Add1)
    } else if symbol == "sub1"@ {
        Some(UnOp::Sub1)
    } else if symbol == "negate"@ {
        Some(UnOp::Negate)
    } else {
        None
    }
}

/// The binary operator that a head symbol stands for, if any.
pub open spec fn binary_op(symbol: Seq<char>) -> Option<BinOp> {
    if symbol == "+"@ {
        Some(BinOp::Plus)
    } else if symbol == "-"@ {
        Some(BinOp::Minus)
    } else if symbol == "*"@ {
        Some(BinOp::Times)
    } else {
        None
    }
}

/// A list of three terms: the symbol `let`, a list, and a body.
pub open spec fn is_let_form(t: TermModel) -> bool {
    &&& t is List
    &&& t->List_0.len() == 3
    &&& t->List_0[0] == TermModel::Symbol("let"@)
    &&& t->List_0[1] is List
}

/// A list of two terms, the first a symbol.
pub open spec fn is_binding_form(t: TermModel) -> bool {
    &&& t is List
    &&& t->List_0.len() == 2
    &&& t->List_0[0] is Symbol
}

/// Whether one of the bindings made so far has this name.
pub open spec fn bound_in(done: Seq<(Seq<char>, ExprModel)>, name: Seq<char>) -> bool {
    exists|j: int| 0 <= j < done.len() && (#[trigger] done[j]).0 == name
}

/// The expression that a term stands for, or the first failure met when the
/// term is read depth first, left to right.
pub open spec fn build(t: TermModel) -> Result<ExprModel, ErrorModel>
    decreases t, 0nat,
{
    match t {
        TermModel::Int(n) => if i32::MIN <= n <= i32::MAX {
            Ok(ExprModel::Num(n as i32))
        } else {
            Err(ErrorModel::IntegerOverflow(n))
        },
        TermModel::Real(_) => Err(ErrorModel::MalformedExpression(t)),
        TermModel::Symbol(s) => if is_reserved(s) {
            Err(ErrorModel::ReservedWordMisuse(s))
        } else {
            Ok(ExprModel::Var(s))
        },
        TermModel::List(items) => if is_let_form(t) {
            let bindings = items[1]->List_0;
            if bindings.len() == 0 {
                Err(ErrorModel::EmptyBindingList)
            } else {
                match build_bindings(bindings, bindings.len()) {
                    Err(e) => Err(e),
                    Ok(bound) => match build(items[2]) {
                        Err(e) => Err(e),
                        Ok(body) => Ok(ExprModel::Let(bound, Box::new(body))),
                    },
                }
            }
        } else if items.len() == 2 && items[0] is Symbol && unary_op(items[0]->Symbol_0) is Some {
            match build(items[1]) {
                Err(e) => Err(e),
                Ok(operand) => Ok(
                    ExprModel::UnOp(unary_op(items[0]->Symbol_0)->Some_0, Box::new(operand)),
                ),
            }
        } else if items.len() == 3 && items[0] is Symbol && binary_op(items[0]->Symbol_0) is Some {
            match build(items[1]) {
                Err(e) => Err(e),
                Ok(left) => match build(items[2]) {
                    Err(e) => Err(e),
                    Ok(right) => Ok(
                        ExprModel::BinOp(
                            binary_op(items[0]->Symbol_0)->Some_0,
                            Box::new(left),
                            Box::new(right),
                        ),
                    ),
                },
            }
        } else {
            Err(ErrorModel::MalformedExpression(t))
        },
    }
}

/// The first `n` bindings of a `let` form, built in order. Each must be a
/// pair of a fresh, unreserved name and a term that builds.
pub open spec fn build_bindings(bindings: Seq<TermModel>, n: nat) -> Result<
    Seq<(Seq<char>, ExprModel)>,
    ErrorModel,
>
    decreases bindings, n,
{
    if n == 0 || n > bindings.len() {
        Ok(Seq::empty())
    } else {
        match build_bindings(bindings, (n - 1) as nat) {
            Err(e) => Err(e),
            Ok(done) => {
                let binding = bindings[n - 1];
                if !is_binding_form(binding) {
                    Err(ErrorModel::MalformedExpression(binding))
                } else {
                    let name = binding->List_0[0]->Symbol_0;
                    if bound_in(done, name) {
                        Err(ErrorModel::DuplicateBinding(name))
                    } else if is_reserved(name) {
                        Err(ErrorModel::ReservedWordMisuse(name))
                    } else {
                        match build(binding->List_0[1]) {
                            Err(e) => Err(e),
                            Ok(value) => Ok(done.push((name, value))),
                        }
                    }
                }
            },
        }
    }
}

/// Whether the names of the bindings are unreserved and pairwise distinct.
pub open spec fn names_are_sound(bindings: Seq<(Seq<char>, ExprModel)>) -> bool {
    &&& forall|i: int| 0 <= i < bindings.len() ==> !is_reserved((#[trigger] bindings[i]).0)
    &&& forall|i: int, j: int|
        0 <= i < j < bindings.len() ==> (#[trigger] bindings[i]).0 != (#[trigger] bindings[j]).0
}

/// What holds of every tree that the builder makes: no reference and no
/// binding is named by a reserved word, and every `let` node has at least one
/// binding and no name twice.
pub open spec fn well_formed(e: ExprModel) -> bool
    decreases e,
{
    match e {
        ExprModel::Num(_) => true,
        ExprModel::Var(name) => !is_reserved(name),
        ExprModel::Let(bindings, body) => {
            &&& bindings.len() > 0
            &&& names_are_sound(bindings)
            &&& forall|i: int| 0 <= i < bindings.len() ==> well_formed((#[trigger] bindings[i]).1)
            &&& well_formed(*body)
        },
        ExprModel::UnOp(_, operand) => well_formed(*operand),
        ExprModel::BinOp(_, left, right) => well_formed(*left) && well_formed(*right),
    }
}

/// Every tree that is built is well formed.
pub proof fn law_built_is_well_formed(t: TermModel)
    requires
        build(t) is Ok,
    ensures
        well_formed(build(t)->Ok_0),
    decreases t, 0nat,
{
    match t {
        TermModel::List(items) => {
            if is_let_form(t) {
                let bindings = items[1]->List_0;
                law_built_bindings_are_well_formed(bindings, bindings.len());
                law_built_is_well_formed(items[2]);
            } else if items.len() == 2 {
                law_built_is_well_formed(items[1]);
            } else {
                law_built_is_well_formed(items[1]);
                law_built_is_well_formed(items[2]);
            }
        },
        _ => {},
    }
}

/// The first `n` bindings of a `let` form, where they build, are as many
/// pairs, each with the name of its term, with sound names and well-formed
/// values.
pub proof fn law_built_bindings_are_well_formed(bindings: Seq<TermModel>, n: nat)
    requires
        n <= bindings.len(),
        build_bindings(bindings, n) is Ok,
    ensures
        build_bindings(bindings, n)->Ok_0.len() == n,
        names_are_sound(build_bindings(bindings, n)->Ok_0),
        forall|i: int|
            0 <= i < n ==> well_formed((#[trigger] build_bindings(bindings, n)->Ok_0[i]).1),
        forall|i: int|
            0 <= i < n ==> is_binding_form(#[trigger] bindings[i]) && build_bindings(
                bindings,
                n,
            )->Ok_0[i].0 == bindings[i]->List_0[0]->Symbol_0,
    decreases bindings, n,
{
    if n > 0 {
        let before = (n - 1) as nat;
        law_built_bindings_are_well_formed(bindings, before);
        law_built_is_well_formed(bindings[n - 1]->List_0[1]);
        let earlier = build_bindings(bindings, before)->Ok_0;
        let all = build_bindings(bindings, n)->Ok_0;
        assert forall|i: int| 0 <= i < n implies is_binding_form(#[trigger] bindings[i])
            && all[i].0 == bindings[i]->List_0[0]->Symbol_0 by {
            if i < before {
                assert(all[i] == earlier[i]);
            }
        }
    }
}

/// Once a binding fails, the failure is that of every longer prefix.
pub proof fn lemma_binding_failure_stays(bindings: Seq<TermModel>, k: nat, n: nat)
    requires
        build_bindings(bindings, k) is Err,
        k <= n <= bindings.len(),
    ensures
        build_bindings(bindings, n) == build_bindings(bindings, k),
    decreases n - k,
{
    if k < n {
        lemma_binding_failure_stays(bindings, k, (n - 1) as nat);
    }
}

fn text_is(name: &String, word: &str) -> (same: bool)
    ensures
        same == (name@ == word@),
{
    let other = String::from_str(word);
    *name == other
}

/// Whether `name` is a reserved word.
pub fn is_reserved_word(name: &String) -> (reserved: bool)
    ensures
        reserved == is_reserved(name@),
{
    text_is(name, "let") || text_is(name, "add1") || text_is(name, "sub1") || text_is(
        name,
        "negate",
    ) || text_is(name, "+") || text_is(name, "-") || text_is(name, "*")
}

/// The unary operator that `symbol` names.
pub fn unary_operator(symbol: &String) -> (op: Option<UnOp>)
    ensures
        op == unary_op(symbol@),
{
    if text_is(symbol, "add1") {
        Some(UnOp::Add1)
    } else if text_is(symbol, "sub1") {
        Some(UnOp::Sub1)
    } else if text_is(symbol, "negate") {
        Some(UnOp::Negate)
    } else {
        None
    }
}

/// The binary operator that `symbol` names.
pub fn binary_operator(symbol: &String) -> (op: Option<BinOp>)
    ensures
        op == binary_op(symbol@),
{
    if text_is(symbol, "+") {
        Some(BinOp::Plus)
    } else if text_is(symbol, "-") {
        Some(BinOp::Minus)
    } else if text_is(symbol, "*") {
        Some(BinOp::Times)
    } else {
        None
    }
}

fn is_bound(done: &Vec<(String, Expr)>, name: &String) -> (found: bool)
    ensures
        found == bound_in(bindings_model(done@), name@),
{
    let ghost names = bindings_model(done@);
    let mut i: usize = 0;
    while i < done.len()
        invariant
            i <= done.len(),
            names == bindings_model(done@),
            forall|j: int| 0 <= j < i ==> (#[trigger] names[j]).0 != name@,
        decreases done.len() - i,
    {
        if done[i].0 == *name {
            assert(names[i as int].0 == name@);
            return true;
        }
        i += 1;
    }
    false
}

fn parse_bindings(bindings: &Vec<Term>) -> (r: Result<Vec<(String, Expr)>, CompileError>)
    ensures
        match r {
            Ok(v) => build_bindings(terms_model(bindings@), bindings@.len()) == Ok::<
                Seq<(Seq<char>, ExprModel)>,
                ErrorModel,
            >(bindings_model(v@)),
            Err(e) => build_bindings(terms_model(bindings@), bindings@.len()) == Err::<
                Seq<(Seq<char>, ExprModel)>,
                ErrorModel,
            >(e@),
        },
    decreases bindings,
{
    let ghost all = terms_model(bindings@);
    let mut done: Vec<(String, Expr)> = Vec::new();
    let mut i: usize = 0;
    assert(bindings_model(done@) =~= Seq::empty());
    while i < bindings.len()
        invariant
            i <= bindings.len(),
            all == terms_model(bindings@),
            build_bindings(all, i as nat) == Ok::<Seq<(Seq<char>, ExprModel)>, ErrorModel>(
                bindings_model(done@),
            ),
        decreases bindings.len() - i,
    {
        let binding = &bindings[i];
        assert(all[i as int] == binding@);
        proof {
            if !is_binding_form(binding@) || bound_in(
                bindings_model(done@),
                binding@->List_0[0]->Symbol_0,
            ) || is_reserved(binding@->List_0[0]->Symbol_0) || build(binding@->List_0[1]) is Err {
                lemma_binding_failure_stays(all, (i + 1) as nat, bindings@.len());
            }
        }
        match binding {
            Term::List(pair) => {
                proof {
                    lemma_list_model(*pair);
                }
                if pair.len() != 2 {
                    return Err(CompileError::MalformedExpression(binding.clone()));
                }
                assert(binding@->List_0[0] == pair[0]@);
                assert(binding@->List_0[1] == pair[1]@);
                match &pair[0] {
                    Term::Symbol(name) => {
                        if is_bound(&done, name) {
                            return Err(CompileError::DuplicateBinding(name.clone()));
                        }
                        if is_reserved_word(name) {
                            return Err(CompileError::ReservedWordMisuse(name.clone()));
                        }
                        match parse_expr(&pair[1]) {
                            Err(e) => {
                                return Err(e);
                            },
                            Ok(value) => {
                                let ghost before = bindings_model(done@);
                                done.push((name.clone(), value));
                                assert(bindings_model(done@) =~= before.push((name@, value@)));
                            },
                        }
                    },
                    _ => {
                        return Err(CompileError::MalformedExpression(binding.clone()));
                    },
                }
            },
            _ => {
                return Err(CompileError::MalformedExpression(binding.clone()));
            },
        }
        i += 1;
    }
    Ok(done)
}

/// Builds the expression that `term` stands for. Fails on the first term,
/// read depth first and left to right, that breaks a rule; then nothing of
/// the tree is returned. A tree that is returned is well formed.
pub fn parse_expr(term: &Term) -> (r: Result<Expr, CompileError>)
    ensures
        match r {
            Ok(e) => build(term@) == Ok::<ExprModel, ErrorModel>(e@) && well_formed(e@),
            Err(x) => build(term@) == Err::<ExprModel, ErrorModel>(x@),
        },
    decreases term,
{
    proof {
        if build(term@) is Ok {
            law_built_is_well_formed(term@);
        }
    }
    match term {
        Term::Int(n) => {
            if *n < -2147483648 || *n > 2147483647 {
                Err(CompileError::IntegerOverflow(*n))
            } else {
                Ok(Expr::Num(*n as i32))
            }
        },
        Term::Real(_) => Err(CompileError::MalformedExpression(term.clone())),
        Term::Symbol(name) => {
            if is_reserved_word(name) {
                Err(CompileError::ReservedWordMisuse(name.clone()))
            } else {
                Ok(Expr::Var(name.clone()))
            }
        },
        Term::List(items) => {
            proof {
                lemma_list_model(*items);
            }
            if items.len() == 2 {
                assert(term@->List_0[0] == items[0]@);
                assert(term@->List_0[1] == items[1]@);
                match &items[0] {
                    Term::Symbol(head) => match unary_operator(head) {
                        Some(op) => match parse_expr(&items[1]) {
                            Err(e) => Err(e),
                            Ok(operand) => Ok(Expr::UnOp(op, Box::new(operand))),
                        },
                        None => Err(CompileError::MalformedExpression(term.clone())),
                    },
                    _ => Err(CompileError::MalformedExpression(term.clone())),
                }
            } else if items.len() == 3 {
                assert(term@->List_0[0] == items[0]@);
                assert(term@->List_0[1] == items[1]@);
                assert(term@->List_0[2] == items[2]@);
                match &items[0] {
                    Term::Symbol(head) => {
                        if text_is(head, "let") {
                            match &items[1] {
                                Term::List(bindings) => {
                                    proof {
                                        lemma_list_model(*bindings);
                                    }
                                    if bindings.len() == 0 {
                                        return Err(CompileError::EmptyBindingList);
                                    }
                                    let bound = match parse_bindings(bindings) {
                                        Err(e) => {
                                            return Err(e);
                                        },
                                        Ok(bound) => bound,
                                    };
                                    return match parse_expr(&items[2]) {
                                        Err(e) => Err(e),
                                        Ok(body) => {
                                            proof {
                                                lemma_let_model(bound, Box::new(body));
                                            }
                                            Ok(Expr::Let(bound, Box::new(body)))
                                        },
                                    };
                                },
                                _ => {},
                            }
                        }
                        match binary_operator(head) {
                            Some(op) => match parse_expr(&items[1]) {
                                Err(e) => Err(e),
                                Ok(left) => match parse_expr(&items[2]) {
                                    Err(e) => Err(e),
                                    Ok(right) => Ok(
                                        Expr::BinOp(op, Box::new(left), Box::new(right)),
                                    ),
                                },
                            },
                            None => Err(CompileError::MalformedExpression(term.clone())),
                        }
                    },
                    _ => Err(CompileError::MalformedExpression(term.clone())),
                }
            } else {
                Err(CompileError::MalformedExpression(term.clone()))
            }
        },
    }
}

} // verus!
