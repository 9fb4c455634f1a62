use boa_compiler::ast::{BinOp, Expr, UnOp};
use boa_compiler::builder::{binary_operator, is_reserved_word, parse_expr, unary_operator};
use boa_compiler::codegen::generate;
use boa_compiler::compiler::{compile_expr, compile_source, compile_term, SourceError};
use boa_compiler::env::Environment;
use boa_compiler::error::CompileError;
use boa_compiler::instr::{instr_for_binary, instr_for_unary, Instr};
use boa_compiler::reader::read_term;
use boa_compiler::render::{decimal_string, render, render_instr, render_program};
use boa_compiler::term::Term;

fn sym(name: &str) -> Term {
    Term::Symbol(name.to_string())
}

fn built(text: &str) -> Result<Expr, CompileError> {
    parse_expr(&read_term(text).unwrap())
}

fn code_of(text: &str) -> Result<Vec<Instr>, CompileError> {
    generate(&built(text).unwrap(), &Environment::new(), 8)
}

#[test]
fn test_parse_let() {
    let sexp = read_term("(let ((x 5)) x)").unwrap();
    let expr = parse_expr(&sexp).unwrap();
    assert!(matches!(expr, Expr::Let(_, _)));
}

#[test]
fn test_compile_variable() {
    let expr = Expr::Let(
        vec![("x".to_string(), Expr::Num(5))],
        Box::new(Expr::Var("x".to_string())),
    );
    let env = Environment::new();
    let text = compile_expr(&expr, &env, 8).unwrap();
    assert!(text.contains("mov rax, 5"));
    assert!(text.contains("[rsp - 8]"));
}

#[test]
fn test_compile_binop() {
    let expr = Expr::BinOp(BinOp::Plus, Box::new(Expr::Num(3)), Box::new(Expr::Num(4)));
    let env = Environment::new();
    let text = compile_expr(&expr, &env, 8).unwrap();
    assert!(text.contains("add rax"));
}

#[test]
fn test_unbound_variable() {
    let expr = Expr::Var("x".to_string());
    let env = Environment::new();
    assert_eq!(
        compile_expr(&expr, &env, 8),
        Err(CompileError::UnboundVariable("x".to_string()))
    );
}

#[test]
fn test_duplicate_binding() {
    let sexp = read_term("(let ((x 1) (x 2)) x)").unwrap();
    assert_eq!(parse_expr(&sexp), Err(CompileError::DuplicateBinding("x".to_string())));
}

#[test]
fn reader_copies_every_kind_of_atom() {
    assert_eq!(
        read_term("(let -7 2.5 (a))").unwrap(),
        Term::List(vec![
            sym("let"),
            Term::Int(-7),
            Term::Real(0x4004000000000000),
            Term::List(vec![sym("a")]),
        ])
    );
}

#[test]
fn reader_reports_where_the_text_ends_early() {
    let e = read_term("(aaaa").unwrap_err();
    assert_eq!(e.message, "unexpected eof");
    assert_eq!((e.line, e.column, e.index), (1, 4, 5));
}

#[test]
fn literal_gives_one_load() {
    for n in [0, 1, -1, 42, i32::MAX, i32::MIN] {
        let term = Term::Int(n as i64);
        let expr = parse_expr(&term).unwrap();
        assert_eq!(expr, Expr::Num(n));
        assert_eq!(
            generate(&expr, &Environment::new(), 8),
            Ok(vec![Instr::LoadImmediate(n)])
        );
    }
}

#[test]
fn literal_out_of_range_is_rejected() {
    assert_eq!(
        parse_expr(&Term::Int(2147483648)),
        Err(CompileError::IntegerOverflow(2147483648))
    );
    assert_eq!(
        parse_expr(&Term::Int(-2147483649)),
        Err(CompileError::IntegerOverflow(-2147483649))
    );
    assert_eq!(built("(add1 4294967296)"), Err(CompileError::IntegerOverflow(4294967296)));
}

#[test]
fn unary_operation_appends_one_instruction() {
    let inner = code_of("(let ((x 5)) (+ x 2))").unwrap();
    for (word, instr) in [
        ("add1", Instr::Increment),
        ("sub1", Instr::Decrement),
        ("negate", Instr::NegateAccumulator),
    ] {
        let mut expected = inner.clone();
        expected.push(instr);
        assert_eq!(code_of(&format!("({} (let ((x 5)) (+ x 2)))", word)), Ok(expected));
    }
}

#[test]
fn bindings_are_made_in_order() {
    assert_eq!(
        code_of("(let ((x 1) (y x)) y)"),
        Ok(vec![
            Instr::LoadImmediate(1),
            Instr::StoreToSlot(8),
            Instr::LoadFromSlot(8),
            Instr::StoreToSlot(16),
            Instr::LoadFromSlot(16),
        ])
    );
}

#[test]
fn later_binding_is_not_seen_earlier() {
    assert_eq!(
        code_of("(let ((y x) (x 1)) y)"),
        Err(CompileError::UnboundVariable("x".to_string()))
    );
}

#[test]
fn inner_binding_shadows_outer() {
    assert_eq!(
        code_of("(let ((x 1)) (let ((x 2)) x))"),
        Ok(vec![
            Instr::LoadImmediate(1),
            Instr::StoreToSlot(8),
            Instr::LoadImmediate(2),
            Instr::StoreToSlot(16),
            Instr::LoadFromSlot(16),
        ])
    );
}

#[test]
fn outer_binding_returns_after_inner_scope() {
    assert_eq!(
        code_of("(+ (let ((x 1)) x) (let ((y 2)) y))"),
        Ok(vec![
            Instr::LoadImmediate(1),
            Instr::StoreToSlot(8),
            Instr::LoadFromSlot(8),
            Instr::StoreToSlot(8),
            Instr::LoadImmediate(2),
            Instr::StoreToSlot(16),
            Instr::LoadFromSlot(16),
            Instr::AddFromSlot(8),
        ])
    );
    assert_eq!(
        code_of("(+ (let ((x 1)) x) x)"),
        Err(CompileError::UnboundVariable("x".to_string()))
    );
}

#[test]
fn subtraction_evaluates_left_then_right() {
    assert_eq!(
        code_of("(- (add1 10) (negate 3))"),
        Ok(vec![
            Instr::LoadImmediate(10),
            Instr::Increment,
            Instr::StoreToSlot(8),
            Instr::LoadImmediate(3),
            Instr::NegateAccumulator,
            Instr::SubtractReversed(8),
        ])
    );
    assert_eq!(
        compile_expr(&built("(- 10 3)").unwrap(), &Environment::new(), 8).unwrap(),
        "mov rax, 10\n  mov [rsp - 8], rax\n  mov rax, 3\n  mov rbx, [rsp - 8]\n  sub rbx, rax\n  mov rax, rbx"
    );
}

#[test]
fn left_failure_comes_before_right_failure() {
    assert_eq!(code_of("(- a b)"), Err(CompileError::UnboundVariable("a".to_string())));
}

#[test]
fn unbound_variable_is_rejected() {
    let expr = built("z").unwrap();
    assert_eq!(expr, Expr::Var("z".to_string()));
    assert_eq!(
        generate(&expr, &Environment::new(), 8),
        Err(CompileError::UnboundVariable("z".to_string()))
    );
}

#[test]
fn reserved_word_as_binding_name_is_rejected() {
    assert_eq!(
        built("(let ((add1 1)) 2)"),
        Err(CompileError::ReservedWordMisuse("add1".to_string()))
    );
    assert_eq!(built("(let ((x let)) 2)"), Err(CompileError::ReservedWordMisuse("let".to_string())));
    assert_eq!(built("negate"), Err(CompileError::ReservedWordMisuse("negate".to_string())));
    assert_eq!(built("(add1 +)"), Err(CompileError::ReservedWordMisuse("+".to_string())));
}

#[test]
fn reserved_words_and_operators() {
    for word in ["let", "add1", "sub1", "negate", "+", "-", "*"] {
        assert!(is_reserved_word(&word.to_string()));
    }
    for word in ["x", "Let", "add", "", "add11", "/"] {
        assert!(!is_reserved_word(&word.to_string()));
    }
    assert_eq!(unary_operator(&"add1".to_string()), Some(UnOp::Add1));
    assert_eq!(unary_operator(&"sub1".to_string()), Some(UnOp::Sub1));
    assert_eq!(unary_operator(&"negate".to_string()), Some(UnOp::Negate));
    assert_eq!(unary_operator(&"+".to_string()), None);
    assert_eq!(binary_operator(&"+".to_string()), Some(BinOp::Plus));
    assert_eq!(binary_operator(&"-".to_string()), Some(BinOp::Minus));
    assert_eq!(binary_operator(&"*".to_string()), Some(BinOp::Times));
    assert_eq!(binary_operator(&"add1".to_string()), None);
    assert_eq!(instr_for_unary(UnOp::Sub1), Instr::Decrement);
    assert_eq!(instr_for_binary(BinOp::Times, 24), Instr::MultiplyFromSlot(24));
}

#[test]
fn duplicate_is_found_before_what_follows() {
    assert_eq!(
        built("(let ((x 1) (y 2) (x (bad))) (worse))"),
        Err(CompileError::DuplicateBinding("x".to_string()))
    );
    assert_eq!(
        built("(let ((let 1) (let 2)) 3)"),
        Err(CompileError::ReservedWordMisuse("let".to_string()))
    );
}

#[test]
fn empty_binding_list_is_rejected() {
    assert_eq!(built("(let () 1)"), Err(CompileError::EmptyBindingList));
}

#[test]
fn malformed_terms_are_reported() {
    let cases = ["()", "(add1)", "(add1 1 2)", "(+ 1)", "(+ 1 2 3)", "(foo 1)", "((add1) 1)", "(let x 1)", "(let ((x 1)))", "2.5", "(1 2)"];
    for text in cases {
        let term = read_term(text).unwrap();
        assert_eq!(parse_expr(&term), Err(CompileError::MalformedExpression(term.clone())));
    }
    assert_eq!(
        built("(let ((x 1) y) x)"),
        Err(CompileError::MalformedExpression(sym("y")))
    );
    assert_eq!(
        built("(let ((x 1 2)) x)"),
        Err(CompileError::MalformedExpression(Term::List(vec![sym("x"), Term::Int(1), Term::Int(2)])))
    );
    assert_eq!(
        built("(let ((3 1)) 2)"),
        Err(CompileError::MalformedExpression(Term::List(vec![Term::Int(3), Term::Int(1)])))
    );
}

#[test]
fn build_gives_the_whole_tree() {
    assert_eq!(
        built("(let ((x 5) (y (sub1 x))) (* x (- y 2)))"),
        Ok(Expr::Let(
            vec![
                ("x".to_string(), Expr::Num(5)),
                (
                    "y".to_string(),
                    Expr::UnOp(UnOp::Sub1, Box::new(Expr::Var("x".to_string())))
                ),
            ],
            Box::new(Expr::BinOp(
                BinOp::Times,
                Box::new(Expr::Var("x".to_string())),
                Box::new(Expr::BinOp(
                    BinOp::Minus,
                    Box::new(Expr::Var("y".to_string())),
                    Box::new(Expr::Num(2))
                )),
            )),
        ))
    );
}

#[test]
fn end_to_end_scenario() {
    let code = code_of("(let ((x 5) (y 6)) (+ x (* y 2)))").unwrap();
    assert_eq!(
        code,
        vec![
            Instr::LoadImmediate(5),
            Instr::StoreToSlot(8),
            Instr::LoadImmediate(6),
            Instr::StoreToSlot(16),
            Instr::LoadFromSlot(8),
            Instr::StoreToSlot(24),
            Instr::LoadFromSlot(16),
            Instr::StoreToSlot(32),
            Instr::LoadImmediate(2),
            Instr::MultiplyFromSlot(32),
            Instr::AddFromSlot(24),
        ]
    );
    assert_eq!(
        render(&code),
        "mov rax, 5\n  mov [rsp - 8], rax\n  mov rax, 6\n  mov [rsp - 16], rax\n  mov rax, [rsp - 8]\n  mov [rsp - 24], rax\n  mov rax, [rsp - 16]\n  mov [rsp - 32], rax\n  mov rax, 2\n  imul rax, [rsp - 32]\n  add rax, [rsp - 24]"
    );
}

#[test]
fn each_instruction_has_its_text() {
    assert_eq!(render_instr(&Instr::LoadImmediate(-2147483648)), "mov rax, -2147483648");
    assert_eq!(render_instr(&Instr::LoadImmediate(2147483647)), "mov rax, 2147483647");
    assert_eq!(render_instr(&Instr::LoadImmediate(0)), "mov rax, 0");
    assert_eq!(render_instr(&Instr::LoadFromSlot(16)), "mov rax, [rsp - 16]");
    assert_eq!(render_instr(&Instr::StoreToSlot(104)), "mov [rsp - 104], rax");
    assert_eq!(render_instr(&Instr::Increment), "add rax, 1");
    assert_eq!(render_instr(&Instr::Decrement), "sub rax, 1");
    assert_eq!(render_instr(&Instr::NegateAccumulator), "imul rax, -1");
    assert_eq!(render_instr(&Instr::AddFromSlot(8)), "add rax, [rsp - 8]");
    assert_eq!(render_instr(&Instr::MultiplyFromSlot(8)), "imul rax, [rsp - 8]");
    assert_eq!(
        render_instr(&Instr::SubtractReversed(8)),
        "mov rbx, [rsp - 8]\n  sub rbx, rax\n  mov rax, rbx"
    );
    assert_eq!(render(&vec![]), "");
    assert_eq!(render(&vec![Instr::Increment]), "add rax, 1");
}

#[test]
fn environment_binds_and_shadows() {
    let mut env = Environment::new();
    assert_eq!(env.get(&"x".to_string()), None);
    env.insert("x".to_string(), 8);
    env.insert("y".to_string(), 16);
    let outer = env.clone();
    env.insert("x".to_string(), 24);
    assert_eq!(env.get(&"x".to_string()), Some(24));
    assert_eq!(env.get(&"y".to_string()), Some(16));
    assert_eq!(outer.get(&"x".to_string()), Some(8));
    assert_eq!(
        generate(&Expr::Var("x".to_string()), &outer, 32),
        Ok(vec![Instr::LoadFromSlot(8)])
    );
}

#[test]
fn slot_beyond_the_largest_offset_is_rejected() {
    let sum = Expr::BinOp(BinOp::Plus, Box::new(Expr::Num(1)), Box::new(Expr::Num(2)));
    assert_eq!(
        generate(&sum, &Environment::new(), i32::MAX - 7),
        Err(CompileError::SlotOverflow)
    );
    assert_eq!(
        generate(&sum, &Environment::new(), i32::MAX - 8),
        Ok(vec![
            Instr::LoadImmediate(1),
            Instr::StoreToSlot(i32::MAX - 8),
            Instr::LoadImmediate(2),
            Instr::AddFromSlot(i32::MAX - 8),
        ])
    );
    let bind = Expr::Let(vec![("x".to_string(), Expr::Num(1))], Box::new(Expr::Num(2)));
    assert_eq!(
        generate(&bind, &Environment::new(), i32::MAX - 7),
        Err(CompileError::SlotOverflow)
    );
}

#[test]
fn whole_program_has_its_frame() {
    assert_eq!(
        render_program("mov rax, 1"),
        "section .text\nglobal our_code_starts_here\nour_code_starts_here:\n  mov rax, 1\n  ret\n"
    );
    assert_eq!(
        compile_term(&read_term("(sub1 (let ((a 3)) a))").unwrap()).unwrap(),
        "section .text\nglobal our_code_starts_here\nour_code_starts_here:\n  mov rax, 3\n  mov [rsp - 8], rax\n  mov rax, [rsp - 8]\n  sub rax, 1\n  ret\n"
    );
    assert_eq!(
        compile_source("(* 2 3) ; product").unwrap(),
        "section .text\nglobal our_code_starts_here\nour_code_starts_here:\n  mov rax, 2\n  mov [rsp - 8], rax\n  mov rax, 3\n  imul rax, [rsp - 8]\n  ret\n"
    );
}

#[test]
fn source_failures_keep_their_kind() {
    assert!(matches!(compile_source("(add1 1"), Err(SourceError::Syntax(_))));
    assert_eq!(
        compile_source("(add1 y)"),
        Err(SourceError::Invalid(CompileError::UnboundVariable("y".to_string())))
    );
    assert_eq!(
        compile_source("(let ((x 1) (x 2)) x)"),
        Err(SourceError::Invalid(CompileError::DuplicateBinding("x".to_string())))
    );
}

#[test]
fn term_clone_is_equal() {
    let term = read_term("(let ((x 1)) (+ x 2.5))").unwrap();
    assert_eq!(term.clone(), term);
}

#[test]
fn expr_clone_is_equal() {
    let expr = built("(let ((x 5) (y (sub1 x))) (* x (- y 2)))").unwrap();
    assert_eq!(expr.clone(), expr);
}

#[test]
fn built_tree_of_nested_lets() {
    assert_eq!(
        code_of("(let ((x 1) (y (let ((x 7)) (add1 x)))) (- y x))"),
        Ok(vec![
            Instr::LoadImmediate(1),
            Instr::StoreToSlot(8),
            Instr::LoadImmediate(7),
            Instr::StoreToSlot(16),
            Instr::LoadFromSlot(16),
            Instr::Increment,
            Instr::StoreToSlot(16),
            Instr::LoadFromSlot(16),
            Instr::StoreToSlot(24),
            Instr::LoadFromSlot(8),
            Instr::SubtractReversed(24),
        ])
    );
}

fn run(code: &[Instr]) -> i64 {
    let mut acc: i64 = 0;
    let mut slots = std::collections::HashMap::new();
    for instr in code {
        match *instr {
            Instr::LoadImmediate(n) => acc = n as i64,
            Instr::LoadFromSlot(slot) => acc = slots[&slot],
            Instr::StoreToSlot(slot) => {
                slots.insert(slot, acc);
            }
            Instr::Increment => acc += 1,
            Instr::Decrement => acc -= 1,
            Instr::NegateAccumulator => acc = -acc,
            Instr::AddFromSlot(slot) => acc = slots[&slot] + acc,
            Instr::MultiplyFromSlot(slot) => acc = slots[&slot] * acc,
            Instr::SubtractReversed(slot) => acc = slots[&slot] - acc,
        }
    }
    acc
}

#[test]
fn generated_code_computes_the_value() {
    assert_eq!(run(&code_of("(let ((x 5) (y 6)) (+ x (* y 2)))").unwrap()), 17);
    assert_eq!(run(&code_of("(- 10 3)").unwrap()), 7);
    assert_eq!(run(&code_of("(- (- 10 3) (- 2 (negate 4)))").unwrap()), 1);
    assert_eq!(run(&code_of("(let ((x 1)) (let ((x 2)) x))").unwrap()), 2);
    assert_eq!(run(&code_of("(let ((x 1) (y x)) y)").unwrap()), 1);
    assert_eq!(run(&code_of("(let ((x 3)) (* (let ((x (add1 x))) (* x x)) (sub1 x)))").unwrap()), 32);
}

#[test]
fn decimal_notation() {
    assert_eq!(decimal_string(0), "0");
    assert_eq!(decimal_string(7), "7");
    assert_eq!(decimal_string(10), "10");
    assert_eq!(decimal_string(-10), "-10");
    assert_eq!(decimal_string(1234567890), "1234567890");
    assert_eq!(decimal_string(i32::MAX), "2147483647");
    assert_eq!(decimal_string(i32::MIN), "-2147483648");
    for n in [-1000001, -99, -1, 5, 42, 100, 65536, 999999999] {
        assert_eq!(decimal_string(n), n.to_string());
    }
}
