use boa_compiler::ast::{Expr, UnOp};
use boa_compiler::builder::parse_expr;
use boa_compiler::compiler::compile_expr;
use boa_compiler::env::Environment;
use boa_compiler::reader::read_term;

fn unary(op: UnOp, operand: Expr) -> Expr {
    Expr::UnOp(op, Box::new(operand))
}

fn text_of(expr: &Expr) -> String {
    compile_expr(expr, &Environment::new(), 8).unwrap()
}

#[test]
fn test_parse_number() {
    let sexp = read_term("42").unwrap();
    let expr = parse_expr(&sexp).unwrap();
    assert!(matches!(expr, Expr::Num(42)));
}

#[test]
fn test_parse_add1() {
    let sexp = read_term("(add1 5)").unwrap();
    let expr = parse_expr(&sexp).unwrap();
    assert!(matches!(expr, Expr::UnOp(UnOp::Add1, _)));
}

#[test]
fn test_compile_number() {
    let expr = Expr::Num(42);
    let text = text_of(&expr);
    assert_eq!(text, "mov rax, 42");
}

#[test]
fn test_compile_add1() {
    let expr = unary(UnOp::Add1, Expr::Num(5));
    let text = text_of(&expr);
    assert!(text.contains("mov rax, 5"));
    assert!(text.contains("add rax, 1"));
}

#[test]
fn test_compile_nested() {
    let expr = unary(UnOp::Add1, unary(UnOp::Sub1, Expr::Num(10)));
    let text = text_of(&expr);
    assert!(text.contains("mov rax, 10"));
    assert!(text.contains("sub rax, 1"));
    assert!(text.contains("add rax, 1"));
}

#[test]
fn test_parse_integer_literal() {
    let sexp = read_term("73").unwrap();
    let expr = parse_expr(&sexp).unwrap();
    assert!(matches!(expr, Expr::Num(73)));
}

#[test]
fn test_parse_add1_operation() {
    let sexp = read_term("(add1 8)").unwrap();
    let expr = parse_expr(&sexp).unwrap();
    assert!(matches!(expr, Expr::UnOp(UnOp::Add1, _)));
}

#[test]
fn test_parse_sub1_operation() {
    let sexp = read_term("(sub1 15)").unwrap();
    let expr = parse_expr(&sexp).unwrap();
    assert!(matches!(expr, Expr::UnOp(UnOp::Sub1, _)));
}

#[test]
fn test_parse_negate_operation() {
    let sexp = read_term("(negate 9)").unwrap();
    let expr = parse_expr(&sexp).unwrap();
    assert!(matches!(expr, Expr::UnOp(UnOp::Negate, _)));
}

#[test]
fn test_compile_integer() {
    let expr = Expr::Num(73);
    let text = text_of(&expr);
    assert_eq!(text, "mov rax, 73");
}

#[test]
fn main_test_compile_add1() {
    let expr = unary(UnOp::Add1, Expr::Num(8));
    let text = text_of(&expr);
    assert!(text.contains("mov rax, 8"));
    assert!(text.contains("add rax, 1"));
}

#[test]
fn test_compile_sub1() {
    let expr = unary(UnOp::Sub1, Expr::Num(20));
    let text = text_of(&expr);
    assert!(text.contains("mov rax, 20"));
    assert!(text.contains("sub rax, 1"));
}

#[test]
fn test_compile_negate() {
    let expr = unary(UnOp::Negate, Expr::Num(12));
    let text = text_of(&expr);
    assert!(text.contains("mov rax, 12"));
    assert!(text.contains("imul rax, -1"));
}

#[test]
fn test_compile_chained_operations() {
    let expr = unary(UnOp::Sub1, unary(UnOp::Add1, Expr::Num(25)));
    let text = text_of(&expr);
    assert!(text.contains("mov rax, 25"));
    assert!(text.contains("add rax, 1"));
    assert!(text.contains("sub rax, 1"));
}

#[test]
fn test_compile_nested_negate() {
    let expr = unary(UnOp::Negate, unary(UnOp::Add1, Expr::Num(6)));
    let text = text_of(&expr);
    assert!(text.contains("mov rax, 6"));
    assert!(text.contains("add rax, 1"));
    assert!(text.contains("imul rax, -1"));
}

#[test]
fn chained_operations_come_in_order() {
    let expr = unary(UnOp::Negate, unary(UnOp::Sub1, unary(UnOp::Add1, Expr::Num(-3))));
    assert_eq!(text_of(&expr), "mov rax, -3\n  add rax, 1\n  sub rax, 1\n  imul rax, -1");
}
