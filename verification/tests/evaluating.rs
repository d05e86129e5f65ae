use vamp::ast::{Expr, ExprKind};
use vamp::eval::{eval_expr, eval_module, eval_stmt, scope_lookup, Error};
use vamp::parser::{parse_expr, parse_module, parse_stmt};
use vamp::sym::{Interner, Sym};
use vamp::tuple::{Tuple, TupleEntry};
use vamp::value::{Scope, Value};

const FUEL: u64 = 1_000_000;

fn eval_string(source: &str) -> Result<Value, Error> {
    let mut interner = Interner::new();
    let expr = parse_expr(source.as_bytes(), &mut interner).unwrap();
    let mut arena = vec![Scope::new(None), Scope::new(None)];
    eval_expr(&expr, &mut arena, 0, 1, FUEL)
}

#[test]
fn lib_test_void() {
    assert_eq!(eval_string("{}"), Err(Error::Void));
}

#[test]
fn test_sym() {
    assert_eq!(eval_string("'abc'"), Ok(Value::Sym(Sym(0))));
}

#[test]
fn test_str() {
    assert_eq!(eval_string("\"abc\""), Ok(Value::Str(b"abc".to_vec())));
}

#[test]
fn lib_test_int() {
    assert_eq!(eval_string("123"), Ok(Value::Int(123)));
}

#[test]
fn lib_test_float() {
    match eval_string("3.14") {
        Ok(Value::Float(lexeme)) => {
            let value: f64 = std::str::from_utf8(&lexeme).unwrap().parse().unwrap();
            assert_eq!(value, 3.14);
        }
        other => panic!("expected a float value, got {:?}", other),
    }
}

#[test]
fn test_tuple() {
    assert_eq!(eval_string("()"), Ok(Value::Tuple(Tuple::new())));
    assert_eq!(
        eval_string("(1, 2, 3)"),
        Ok(Value::Tuple(Tuple::from_entries(vec![
            TupleEntry::Pos(Value::Int(1)),
            TupleEntry::Pos(Value::Int(2)),
            TupleEntry::Pos(Value::Int(3))
        ])))
    );
    assert_eq!(eval_string("(1, {}, 3)"), Err(Error::Void));
}

#[test]
fn test_list() {
    assert_eq!(eval_string("[]"), Ok(Value::List(vec![])));
    assert_eq!(
        eval_string("[1, 2, 3]"),
        Ok(Value::List(vec![
            Value::Int(1),
            Value::Int(2),
            Value::Int(3),
        ]))
    );
    assert_eq!(eval_string("[1, {}, 3]"), Err(Error::Void));
}

#[test]
fn test_arithmetic() {
    assert_eq!(eval_string("2 * -1 + 10 / 2"), Ok(Value::Int(3)));
    assert_eq!(eval_string("0 * 'abc'"), Err(Error::Types));
}

#[test]
fn tuple_named_lookup() {
    assert_eq!(eval_string("(x: 1, y: 2).y"), Ok(Value::Int(2)));
    assert_eq!(eval_string("(1, 2, 3).1"), Ok(Value::Int(2)));
    assert_eq!(eval_string("(x: 1).z"), Err(Error::KeyNotFound));
}

#[test]
fn closure_application() {
    assert_eq!(
        eval_string("{ let add = |x| |y| x + y, add(2)(3) }"),
        Ok(Value::Int(5))
    );
}

#[test]
fn closure_capture() {
    assert_eq!(
        eval_string("{ let f = { let x = 1, |y| x + y }, f(2) }"),
        Ok(Value::Int(3))
    );
}

#[test]
fn closure_sees_later_binding() {
    assert_eq!(
        eval_string("{ let x = 1, let f = |y| x + y, let x = 2, f(0) }"),
        Ok(Value::Int(2))
    );
}

#[test]
fn short_circuit() {
    assert_eq!(eval_string("true || 0 * 'abc'"), Ok(Value::Bool(true)));
    assert_eq!(eval_string("false && 0 * 'abc'"), Ok(Value::Bool(false)));
    assert_eq!(eval_string("false || 0 * 'abc'"), Err(Error::Types));
}

#[test]
fn comparisons() {
    assert_eq!(eval_string("1 < 2"), Ok(Value::Bool(true)));
    assert_eq!(eval_string("\"abc\" < \"abd\""), Ok(Value::Bool(true)));
    assert_eq!(eval_string("\"b\" <= \"ab\""), Ok(Value::Bool(false)));
    assert_eq!(eval_string("1 == 2"), Ok(Value::Bool(false)));
    assert_eq!(eval_string("(1, 2) == (1, 2)"), Ok(Value::Bool(true)));
    assert_eq!(eval_string("1 == 'a'"), Err(Error::Types));
}

#[test]
fn division_by_zero() {
    assert_eq!(eval_string("1 / 0"), Err(Error::Types));
    assert_eq!(eval_string("1 % 0"), Err(Error::Types));
}

#[test]
fn exponentiation() {
    assert_eq!(eval_string("2 ** 10"), Ok(Value::Int(1024)));
    assert_eq!(eval_string("2 ** -1"), Err(Error::Types));
}

#[test]
fn context_identifiers() {
    assert_eq!(
        eval_string("{ let @c = 7, @c + 1 }"),
        Ok(Value::Int(8))
    );
}

#[test]
fn pattern_binding() {
    assert_eq!(
        eval_string("{ let (a, b) = (1, 2), a + b }"),
        Ok(Value::Int(3))
    );
    assert_eq!(
        eval_string("{ let (a, x: b) = (1, x: 5), a + b }"),
        Ok(Value::Int(6))
    );
    assert_eq!(eval_string("{ let (a, b) = (1,), a }"), Err(Error::Mismatch));
}

#[test]
fn unbound_identifier() {
    assert_eq!(eval_string("nowhere"), Err(Error::Unbound));
}

#[test]
fn module_definitions() {
    let mut interner = Interner::new();
    let module = parse_module(b"let x = 42, let y = x", &mut interner).unwrap();
    let mut arena = vec![Scope::new(None), Scope::new(None)];
    let record = eval_module(&module, &mut arena, 0, 1, FUEL).unwrap();
    assert_eq!(record.deps, vec![]);
    let y = interner.intern(b"y");
    assert_eq!(scope_lookup(&arena, 0, y), Ok(Value::Int(42)));
}

#[test]
fn statement_evaluation() {
    let mut interner = Interner::new();
    let mut arena = vec![Scope::new(None), Scope::new(None)];
    let stmt = parse_stmt(b"let x = 41", &mut interner).unwrap();
    assert_eq!(eval_stmt(&stmt, &mut arena, 0, 1, FUEL), Ok(None));
    let stmt2 = parse_stmt(b"x + 1", &mut interner).unwrap();
    assert_eq!(eval_stmt(&stmt2, &mut arena, 0, 1, FUEL), Ok(Some(Value::Int(42))));
}

#[test]
fn negated_float_literal() {
    match eval_string("-3.14") {
        Ok(Value::Float(lexeme)) => {
            let value: f64 = std::str::from_utf8(&lexeme).unwrap().parse().unwrap();
            assert_eq!(value, -3.14);
        }
        other => panic!("expected a float value, got {:?}", other),
    }
}

#[test]
fn wrapping_arithmetic() {
    assert_eq!(
        eval_string("9223372036854775807 + 1"),
        Ok(Value::Int(i64::MIN))
    );
    assert_eq!(eval_string("~0"), Ok(Value::Int(-1)));
}

#[test]
fn if_else_evaluation() {
    assert_eq!(eval_string("if 1 < 2 { 10 } else { 20 }"), Ok(Value::Int(10)));
    assert_eq!(eval_string("if 2 < 1 { 10 } else { 20 }"), Ok(Value::Int(20)));
    assert_eq!(eval_string("if 3 { 10 } else { 20 }"), Err(Error::Types));
}

#[test]
fn block_first_expression_wins() {
    assert_eq!(eval_string("{ let a = 1, a + 1, a + 10 }"), Ok(Value::Int(2)));
}

#[test]
fn void_expression() {
    let mut interner = Interner::new();
    let expr: Expr = parse_expr(b"", &mut interner).unwrap();
    assert_eq!(expr, Expr::unknown(ExprKind::Void));
    let mut arena = vec![Scope::new(None), Scope::new(None)];
    assert_eq!(eval_expr(&expr, &mut arena, 0, 1, FUEL), Err(Error::Void));
}

#[test]
fn config_defaults() {
    let package = vamp::config::Package::default();
    assert_eq!(package.name, None);
    assert_eq!(package.version, None);
    assert_eq!(package.dependencies, Vec::<String>::new());
    assert_eq!(package.root, "src");
    assert_eq!(package.entry, "main.vamp");
    assert_eq!(vamp::config::default_root(), "src");
    assert_eq!(vamp::config::default_entry(), "main.vamp");
}
