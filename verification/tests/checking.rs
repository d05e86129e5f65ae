use vamp::check::check_expr;
use vamp::parser::parse_expr;
use vamp::sym::Interner;
use vamp::ty::Ty;

#[test]
fn test_void() {
    let mut interner = Interner::new();
    let mut expr = parse_expr(b"{}", &mut interner).unwrap();
    check_expr(&mut expr).unwrap();
    assert_eq!(expr.ty, Ty::Void);
}

#[test]
fn test_symbol() {
    let mut interner = Interner::new();
    let mut expr = parse_expr(b"'symbol'", &mut interner).unwrap();
    check_expr(&mut expr).unwrap();
    assert_eq!(expr.ty, Ty::Sym);
}

#[test]
fn test_string() {
    let mut interner = Interner::new();
    let mut expr = parse_expr(b"\"string\"", &mut interner).unwrap();
    check_expr(&mut expr).unwrap();
    assert_eq!(expr.ty, Ty::Str);
}

#[test]
fn test_int() {
    let mut interner = Interner::new();
    let mut expr = parse_expr(b"123", &mut interner).unwrap();
    check_expr(&mut expr).unwrap();
    assert_eq!(expr.ty, Ty::Int);
}

#[test]
fn test_float() {
    let mut interner = Interner::new();
    let mut expr = parse_expr(b"3.14", &mut interner).unwrap();
    check_expr(&mut expr).unwrap();
    assert_eq!(expr.ty, Ty::Float);
}

#[test]
fn test_arith_types() {
    let mut interner = Interner::new();
    let mut expr = parse_expr(b"1 + 2", &mut interner).unwrap();
    check_expr(&mut expr).unwrap();
    assert_eq!(expr.ty, Ty::Int);
    let mut mixed = parse_expr(b"1 + 2.0", &mut interner).unwrap();
    assert!(check_expr(&mut mixed).is_err());
}
