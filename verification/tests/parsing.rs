use vamp::ast::{BinOp, Dep, Expr, ExprKind, Mod, ModPath, Pat, Stmt};
use vamp::error::ErrorKind;
use vamp::parser::{parse_expr, parse_module};
use vamp::sym::{Interner, Sym};
use vamp::tuple::{Tuple, TupleEntry};

#[test]
fn intern() {
    let mut table = Interner::new();
    assert_eq!(table.intern(b""), Sym(0));
    assert_eq!(table.intern(b""), table.intern(b""));
    assert_eq!(table.intern(b"abc"), Sym(1));
    assert_eq!(table.intern(b"abc"), table.intern(b"abc"));
}

#[test]
fn lookup() {
    let mut table = Interner::new();
    let strings = ["", "x0", "@self", "d013397b-f874-49e0-9f38-01fa235caabc"];
    let symbols: Vec<_> = strings.iter().map(|s| table.intern(s.as_bytes())).collect();
    for i in 0..symbols.len() {
        assert_eq!(table.lookup(symbols[i]), strings[i].as_bytes().to_vec());
    }
}

#[test]
fn positional() {
    let mut tuple = Tuple::new();
    tuple.push(0);
    tuple.push(1);
    tuple.push(2);
    assert_eq!(tuple.len(), 3);
    assert_eq!(tuple.keys_len(), 0);
    assert_eq!(tuple.get_pos(0), Some(&0));
    assert_eq!(tuple.get_pos(1), Some(&1));
    assert_eq!(tuple.get_pos(2), Some(&2));
}

#[test]
fn named() {
    let mut tuple = Tuple::new();
    tuple.insert(Sym(2), "a");
    tuple.insert(Sym(1), "b");
    tuple.insert(Sym(0), "c");
    assert_eq!(tuple.len(), 3);
    assert_eq!(tuple.keys_len(), 3);
    assert_eq!(tuple.key_position(Sym(2)), Some(2));
    assert_eq!(tuple.key_position(Sym(1)), Some(1));
    assert_eq!(tuple.key_position(Sym(0)), Some(0));
    assert_eq!(tuple.get_named(Sym(2)), Some(&"a"));
    assert_eq!(tuple.get_named(Sym(1)), Some(&"b"));
    assert_eq!(tuple.get_named(Sym(0)), Some(&"c"));
}

#[test]
fn collect() {
    let tuple = Tuple::from_entries(vec![
        TupleEntry::Pos("a"),
        TupleEntry::Pos("b"),
        TupleEntry::Named(Sym(0), "c"),
        TupleEntry::Pos("d"),
        TupleEntry::Named(Sym(1), "e"),
    ]);
    assert_eq!(tuple.get_pos(0), Some(&"a"));
    assert_eq!(tuple.get_pos(1), Some(&"b"));
    assert_eq!(tuple.get_pos(2), Some(&"d"));
    assert_eq!(tuple.get_named(Sym(0)), Some(&"c"));
    assert_eq!(tuple.get_named(Sym(1)), Some(&"e"));
}

fn parse(src: &str, it: &mut Interner) -> Result<Expr, vamp::error::Error> {
    parse_expr(src.as_bytes(), it)
}

#[test]
fn test_idents() {
    let mut interner = Interner::new();
    let x = interner.intern(b"x");
    let y2 = interner.intern(b"y2");
    let at_0 = interner.intern(b"@0");
    let at_self = interner.intern(b"@self");
    let lower_snake_case = interner.intern(b"lower_snake_case");
    let upper_snake_case = interner.intern(b"UPPER_SNAKE_CASE");
    let lower_camel_case = interner.intern(b"lowerCamelCase");
    let upper_camel_case = interner.intern(b"UpperCamelCase");
    assert_eq!(
        parse("x", &mut interner),
        Ok(Expr::unknown(ExprKind::Ident(x)))
    );
    assert_eq!(
        parse("y2", &mut interner),
        Ok(Expr::unknown(ExprKind::Ident(y2)))
    );
    assert_eq!(
        parse("@0", &mut interner),
        Ok(Expr::unknown(ExprKind::CtxIdent(at_0)))
    );
    assert_eq!(
        parse("@self", &mut interner),
        Ok(Expr::unknown(ExprKind::CtxIdent(at_self)))
    );
    assert_eq!(
        parse("lower_snake_case", &mut interner),
        Ok(Expr::unknown(ExprKind::Ident(lower_snake_case)))
    );
    assert_eq!(
        parse("UPPER_SNAKE_CASE", &mut interner),
        Ok(Expr::unknown(ExprKind::Ident(upper_snake_case)))
    );
    assert_eq!(
        parse("lowerCamelCase", &mut interner),
        Ok(Expr::unknown(ExprKind::Ident(lower_camel_case)))
    );
    assert_eq!(
        parse("UpperCamelCase", &mut interner),
        Ok(Expr::unknown(ExprKind::Ident(upper_camel_case)))
    );
}

#[test]
fn test_syms() {
    let mut interner = Interner::new();
    let s1 = interner.intern(b"");
    let s2 = interner.intern(b"\\");
    let s3 = interner.intern(b"x");
    assert_eq!(parse("''", &mut interner), Ok(Expr::unknown(ExprKind::Sym(s1))));
    assert_eq!(
        parse(r#"'\\'"#, &mut interner),
        Ok(Expr::unknown(ExprKind::Sym(s2)))
    );
    assert_eq!(
        parse("'x'", &mut interner),
        Ok(Expr::unknown(ExprKind::Sym(s3)))
    );
}

#[test]
fn test_strs() {
    let mut interner = Interner::new();
    assert_eq!(
        parse(r#""""#, &mut interner),
        Ok(Expr::unknown(ExprKind::Str(b"".to_vec())))
    );
    assert_eq!(
        parse(r#""\"""#, &mut interner),
        Ok(Expr::unknown(ExprKind::Str(b"\"".to_vec())))
    );
    assert_eq!(
        parse(r#""\\""#, &mut interner),
        Ok(Expr::unknown(ExprKind::Str(b"\\".to_vec())))
    );
    assert_eq!(
        parse(r#""\0\a\b\t\v\f\n\r""#, &mut interner),
        Ok(Expr::unknown(ExprKind::Str(
            b"\0\x07\x08\t\x0B\x0C\n\r".to_vec()
        )))
    );
    assert_eq!(
        parse(r#""\x00\x01\x02\x03\x04\x05""#, &mut interner),
        Ok(Expr::unknown(ExprKind::Str(
            b"\x00\x01\x02\x03\x04\x05".to_vec()
        )))
    );
}

#[test]
fn test_str_esc_seq_invalid() {
    let mut interner = Interner::new();
    assert_eq!(
        parse(r#""\z""#, &mut interner).unwrap_err().kind,
        ErrorKind::StringEscSeqInvalid
    );
    assert_eq!(
        parse(r#""\xFF""#, &mut interner).unwrap_err().kind,
        ErrorKind::StringEscSeqInvalid
    );
}

#[test]
fn test_ints() {
    let mut interner = Interner::new();
    assert_eq!(parse("0", &mut interner), Ok(Expr::unknown(ExprKind::Int(0))));
    assert_eq!(parse("7", &mut interner), Ok(Expr::unknown(ExprKind::Int(7))));
    assert_eq!(
        parse("123", &mut interner),
        Ok(Expr::unknown(ExprKind::Int(123)))
    );
    assert_eq!(
        parse("0o747", &mut interner),
        Ok(Expr::unknown(ExprKind::Int(0o747)))
    );
    assert_eq!(
        parse("9223372036854775807", &mut interner),
        Ok(Expr::unknown(ExprKind::Int(9223372036854775807)))
    );
    assert_eq!(
        parse("9223372036854775808", &mut interner).unwrap_err().kind,
        ErrorKind::IntInvalid
    );
}

#[test]
fn tests_test_floats() {
    let mut interner = Interner::new();
    for (src, expected) in [("0.0", 0.0f64), ("1.0", 1.0), ("3.141592", 3.141592)] {
        match parse(src, &mut interner) {
            Ok(Expr {
                kind: ExprKind::Float(lexeme),
                ..
            }) => {
                let value: f64 = std::str::from_utf8(&lexeme).unwrap().parse().unwrap();
                assert_eq!(value, expected);
            }
            other => panic!("expected a float literal, got {:?}", other),
        }
    }
}

#[test]
fn test_bools() {
    let mut interner = Interner::new();
    assert_eq!(
        parse("true", &mut interner),
        Ok(Expr::unknown(ExprKind::Bool(true)))
    );
    assert_eq!(
        parse("false", &mut interner),
        Ok(Expr::unknown(ExprKind::Bool(false)))
    );
}

#[test]
fn test_tuples() {
    let mut interner = Interner::new();
    let x = interner.intern(b"x");
    let y = interner.intern(b"y");
    let name = interner.intern(b"name");
    let age = interner.intern(b"age");
    assert_eq!(
        parse("()", &mut interner),
        Ok(Expr::unknown(ExprKind::Tuple(Tuple::new())))
    );
    assert_eq!(
        parse("(1)", &mut interner),
        Ok(Expr::unknown(ExprKind::Tuple(Tuple::from_entries(vec![
            TupleEntry::Pos(Expr::unknown(ExprKind::Int(1)))
        ]))))
    );
    assert_eq!(
        parse("(1, 2, 3)", &mut interner),
        Ok(Expr::unknown(ExprKind::Tuple(Tuple::from_entries(vec![
            TupleEntry::Pos(Expr::unknown(ExprKind::Int(1))),
            TupleEntry::Pos(Expr::unknown(ExprKind::Int(2))),
            TupleEntry::Pos(Expr::unknown(ExprKind::Int(3))),
        ]))))
    );
    assert_eq!(
        parse("(x: 1, y: 2)", &mut interner),
        Ok(Expr::unknown(ExprKind::Tuple(Tuple::from_entries(vec![
            TupleEntry::Named(x, Expr::unknown(ExprKind::Int(1))),
            TupleEntry::Named(y, Expr::unknown(ExprKind::Int(2)))
        ]))))
    );
    assert_eq!(
        parse(r#"("id", name: "Bob", age: 49)"#, &mut interner),
        Ok(Expr::unknown(ExprKind::Tuple(Tuple::from_entries(vec![
            TupleEntry::Pos(Expr::unknown(ExprKind::Str(b"id".to_vec()))),
            TupleEntry::Named(name, Expr::unknown(ExprKind::Str(b"Bob".to_vec()))),
            TupleEntry::Named(age, Expr::unknown(ExprKind::Int(49)))
        ]))))
    );
}

#[test]
fn test_lists() {
    let mut interner = Interner::new();
    assert_eq!(
        parse("[]", &mut interner),
        Ok(Expr::unknown(ExprKind::List(vec![])))
    );
    assert_eq!(
        parse("[1]", &mut interner),
        Ok(Expr::unknown(ExprKind::List(vec![Expr::unknown(
            ExprKind::Int(1)
        )])))
    );
    assert_eq!(
        parse("[1, 2, 3]", &mut interner),
        Ok(Expr::unknown(ExprKind::List(vec![
            Expr::unknown(ExprKind::Int(1)),
            Expr::unknown(ExprKind::Int(2)),
            Expr::unknown(ExprKind::Int(3))
        ])))
    )
}

#[test]
fn test_prec() {
    let mut interner = Interner::new();
    assert_eq!(
        parse("0 + 0", &mut interner),
        Ok(Expr::unknown(ExprKind::BinOp(
            BinOp::Add,
            Box::new(Expr::unknown(ExprKind::Int(0))),
            Box::new(Expr::unknown(ExprKind::Int(0)))
        )))
    );
    assert_eq!(
        parse("0 * 0", &mut interner),
        Ok(Expr::unknown(ExprKind::BinOp(
            BinOp::Mul,
            Box::new(Expr::unknown(ExprKind::Int(0))),
            Box::new(Expr::unknown(ExprKind::Int(0)))
        )))
    );
    assert_eq!(
        parse("0 + 0 * 0", &mut interner),
        Ok(Expr::unknown(ExprKind::BinOp(
            BinOp::Add,
            Box::new(Expr::unknown(ExprKind::Int(0))),
            Box::new(Expr::unknown(ExprKind::BinOp(
                BinOp::Mul,
                Box::new(Expr::unknown(ExprKind::Int(0))),
                Box::new(Expr::unknown(ExprKind::Int(0)))
            )))
        )))
    );
    assert_eq!(
        parse("0 * 0 + 0 / 0 - 0", &mut interner),
        Ok(Expr::unknown(ExprKind::BinOp(
            BinOp::Sub,
            Box::new(Expr::unknown(ExprKind::BinOp(
                BinOp::Add,
                Box::new(Expr::unknown(ExprKind::BinOp(
                    BinOp::Mul,
                    Box::new(Expr::unknown(ExprKind::Int(0))),
                    Box::new(Expr::unknown(ExprKind::Int(0)))
                ))),
                Box::new(Expr::unknown(ExprKind::BinOp(
                    BinOp::Div,
                    Box::new(Expr::unknown(ExprKind::Int(0))),
                    Box::new(Expr::unknown(ExprKind::Int(0)))
                ))),
            ))),
            Box::new(Expr::unknown(ExprKind::Int(0))),
        ))),
    );
    let f = interner.intern(b"f");
    let g = interner.intern(b"g");
    let h = interner.intern(b"h");
    let x = interner.intern(b"x");
    let y = interner.intern(b"y");
    let z = interner.intern(b"z");
    assert_eq!(
        parse("f(x) * g(y) + h(z)", &mut interner),
        Ok(Expr::unknown(ExprKind::BinOp(
            BinOp::Add,
            Box::new(Expr::unknown(ExprKind::BinOp(
                BinOp::Mul,
                Box::new(Expr::unknown(ExprKind::Call(
                    Box::new(Expr::unknown(ExprKind::Ident(f))),
                    Tuple::from_entries(vec![TupleEntry::Pos(Expr::unknown(ExprKind::Ident(x)))]),
                ))),
                Box::new(Expr::unknown(ExprKind::Call(
                    Box::new(Expr::unknown(ExprKind::Ident(g))),
                    Tuple::from_entries(vec![TupleEntry::Pos(Expr::unknown(ExprKind::Ident(y)))]),
                )))
            ))),
            Box::new(Expr::unknown(ExprKind::Call(
                Box::new(Expr::unknown(ExprKind::Ident(h))),
                Tuple::from_entries(vec![TupleEntry::Pos(Expr::unknown(ExprKind::Ident(z)))]),
            )))
        ))),
    );
}

#[test]
fn test_functions() {
    let mut interner = Interner::new();
    let x = interner.intern(b"x");
    let y = interner.intern(b"y");
    let z = interner.intern(b"z");
    assert_eq!(
        parse("|x| x", &mut interner),
        Ok(Expr::unknown(ExprKind::Fn(
            Tuple::from_entries(vec![TupleEntry::Pos(Pat::Ident(x))]),
            Box::new(Expr::unknown(ExprKind::Ident(x)))
        )))
    );
    assert_eq!(
        parse("|x, y, z| x(y, z)", &mut interner),
        Ok(Expr::unknown(ExprKind::Fn(
            Tuple::from_entries(vec![
                TupleEntry::Pos(Pat::Ident(x)),
                TupleEntry::Pos(Pat::Ident(y)),
                TupleEntry::Pos(Pat::Ident(z)),
            ]),
            Box::new(Expr::unknown(ExprKind::Call(
                Box::new(Expr::unknown(ExprKind::Ident(x))),
                Tuple::from_entries(vec![
                    TupleEntry::Pos(Expr::unknown(ExprKind::Ident(y))),
                    TupleEntry::Pos(Expr::unknown(ExprKind::Ident(z)))
                ])
            )))
        )))
    )
}

#[test]
fn test_blocks() {
    let mut interner = Interner::new();
    let x = interner.intern(b"x");
    let y = interner.intern(b"y");
    assert_eq!(parse("{}", &mut interner), Ok(Expr::unknown(ExprKind::Void)));
    assert_eq!(
        parse("{{{{{}}}}}", &mut interner),
        Ok(Expr::unknown(ExprKind::Void))
    );
    assert_eq!(
        parse("{ let x = 0, let y = 1, [x, y] }", &mut interner),
        Ok(Expr::unknown(ExprKind::Block(vec![
            Stmt::Let(Pat::Ident(x), Expr::unknown(ExprKind::Int(0))),
            Stmt::Let(Pat::Ident(y), Expr::unknown(ExprKind::Int(1))),
            Stmt::Expr(Expr::unknown(ExprKind::List(vec![
                Expr::unknown(ExprKind::Ident(x)),
                Expr::unknown(ExprKind::Ident(y))
            ]))),
        ])))
    );
    assert_eq!(
        parse("{{1}}", &mut interner),
        Ok(Expr::unknown(ExprKind::Int(1)))
    );
}

#[test]
fn test_if_else() {
    let mut interner = Interner::new();
    let x = interner.intern(b"x");
    let y = interner.intern(b"y");
    assert_eq!(
        parse("if x < 10 { x } else { 10 }", &mut interner),
        Ok(Expr::unknown(ExprKind::IfElse(
            Box::new(Expr::unknown(ExprKind::BinOp(
                BinOp::Lt,
                Box::new(Expr::unknown(ExprKind::Ident(x))),
                Box::new(Expr::unknown(ExprKind::Int(10)))
            ))),
            Box::new(Expr::unknown(ExprKind::Ident(x))),
            Box::new(Expr::unknown(ExprKind::Int(10))),
        )))
    );
    assert_eq!(
        parse("if x < y { x } else if y < 10 { y } else { 10 }", &mut interner),
        Ok(Expr::unknown(ExprKind::IfElse(
            Box::new(Expr::unknown(ExprKind::BinOp(
                BinOp::Lt,
                Box::new(Expr::unknown(ExprKind::Ident(x))),
                Box::new(Expr::unknown(ExprKind::Ident(y)))
            ))),
            Box::new(Expr::unknown(ExprKind::Ident(x))),
            Box::new(Expr::unknown(ExprKind::IfElse(
                Box::new(Expr::unknown(ExprKind::BinOp(
                    BinOp::Lt,
                    Box::new(Expr::unknown(ExprKind::Ident(y))),
                    Box::new(Expr::unknown(ExprKind::Int(10)))
                ))),
                Box::new(Expr::unknown(ExprKind::Ident(y))),
                Box::new(Expr::unknown(ExprKind::Int(10))),
            ))),
        )))
    );
}

#[test]
fn test_modules() {
    let mut interner = Interner::new();
    let x = interner.intern(b"x");
    let y = interner.intern(b"y");
    let z = interner.intern(b"z");
    let w = interner.intern(b"w");
    let q = interner.intern(b"q");
    assert_eq!(
        parse_module(
            b"
            use {
                x.y.z (w)
            }
            let q = w
            ",
            &mut interner
        ),
        Ok(Mod {
            deps: vec![Dep {
                path: ModPath {
                    local: false,
                    segments: vec![x, y, z],
                },
                bindings: vec![(w, w)],
            }],
            defs: vec![Stmt::Let(Pat::Ident(q), Expr::unknown(ExprKind::Ident(w)))],
        })
    );
}
