use leo_compiler::ast;
use leo_compiler::errors::CompilerError;
use leo_compiler::types::{BinaryOperator, Expression, Integer, Parameter, RangeOrExpression, Type};

fn name(s: &str) -> ast::Variable {
    ast::Variable { value: s.to_string() }
}

fn u32_lit(s: &str) -> ast::Expression {
    ast::Expression::Value(ast::Value::U32(s.to_string()))
}

fn avar(s: &str) -> ast::Expression {
    ast::Expression::Variable(name(s))
}

#[test]
fn get_count_reads_integer_literal() {
    assert_eq!(Expression::get_count(&ast::Value::U32("12".to_string())), Ok(12));
    assert_eq!(Expression::get_count(&ast::Value::U32("1x".to_string())), Err(CompilerError::MalformedTree));
    assert_eq!(Expression::get_count(&ast::Value::Field("3".to_string())), Err(CompilerError::MalformedTree));
    assert_eq!(Expression::get_count(&ast::Value::U32("4294967296".to_string())), Ok(4294967296));
    assert_eq!(
        Expression::get_count(&ast::Value::U32("18446744073709551614".to_string())),
        Ok(18446744073709551614)
    );
    assert_eq!(
        Expression::get_count(&ast::Value::U32("18446744073709551615".to_string())),
        Err(CompilerError::MalformedTree)
    );
}

#[test]
fn literals_are_read_by_type() {
    assert!(matches!(Expression::from_ast(&u32_lit("42")), Ok(Expression::Integer(Integer::U32(42)))));
    let f = ast::Expression::Value(ast::Value::Field("18446744069414584320".to_string()));
    assert!(matches!(Expression::from_ast(&f), Ok(Expression::FieldElement(18446744069414584320))));
    let too_big = ast::Expression::Value(ast::Value::Field("18446744069414584321".to_string()));
    assert!(matches!(Expression::from_ast(&too_big), Err(CompilerError::MalformedTree)));
    let b = ast::Expression::Value(ast::Value::Boolean("false".to_string()));
    assert!(matches!(Expression::from_ast(&b), Ok(Expression::Boolean(false))));
    let bad = ast::Expression::Value(ast::Value::Boolean("False".to_string()));
    assert!(matches!(Expression::from_ast(&bad), Err(CompilerError::MalformedTree)));
}

#[test]
fn not_equal_becomes_negated_equality() {
    let e = ast::Expression::Binary(ast::BinaryOperator::Neq, Box::new(avar("a")), Box::new(u32_lit("1")));
    match Expression::from_ast(&e) {
        Ok(Expression::Not(inner)) => match *inner {
            Expression::Binary(BinaryOperator::Eq, l, r) => {
                assert!(matches!(*l, Expression::Variable(ref v) if v.name == "a"));
                assert!(matches!(*r, Expression::Integer(Integer::U32(1))));
            },
            other => panic!("unexpected {:?}", other),
        },
        other => panic!("unexpected {:?}", other),
    }
}

#[test]
fn postfix_accesses_apply_left_to_right() {
    let e = ast::Expression::Postfix(
        name("f"),
        vec![
            ast::Access::Call(vec![u32_lit("1")]),
            ast::Access::Member(name("m")),
            ast::Access::Array(ast::RangeOrExpression::Range(Some(u32_lit("1")), None)),
        ],
    );
    match Expression::from_ast(&e) {
        Ok(Expression::ArrayAccess(base, index)) => {
            assert!(matches!(*index, RangeOrExpression::Range(Some(Integer::U32(1)), None)));
            match *base {
                Expression::StructMemberAccess(call, m) => {
                    assert_eq!(m.name, "m");
                    assert!(matches!(*call, Expression::FunctionCall(_, ref args) if args.len() == 1));
                },
                other => panic!("unexpected {:?}", other),
            }
        },
        other => panic!("unexpected {:?}", other),
    }
}

#[test]
fn only_a_name_can_be_called() {
    let e = ast::Expression::Postfix(
        name("s"),
        vec![ast::Access::Member(name("f")), ast::Access::Call(vec![])],
    );
    assert!(matches!(Expression::from_ast(&e), Err(CompilerError::MalformedTree)));
}

#[test]
fn range_bounds_must_be_integer_literals() {
    let e = ast::Expression::Postfix(
        name("a"),
        vec![ast::Access::Array(ast::RangeOrExpression::Range(Some(avar("i")), None))],
    );
    assert!(matches!(Expression::from_ast(&e), Err(CompilerError::MalformedTree)));
}

#[test]
fn array_initializer_repeats_element() {
    let e = ast::Expression::ArrayInitializer(
        Box::new(ast::SpreadOrExpression::Expression(u32_lit("7"))),
        ast::Value::U32("3".to_string()),
    );
    match Expression::from_ast(&e) {
        Ok(Expression::Array(items)) => assert_eq!(items.len(), 3),
        other => panic!("unexpected {:?}", other),
    }
}

#[test]
fn inline_struct_needs_declared_type() {
    let literal = ast::Expression::StructInline(
        name("Point"),
        vec![ast::InlineStructMember { variable: name("x"), expression: u32_lit("1") }],
    );
    assert!(matches!(Expression::from_ast(&literal), Err(CompilerError::MalformedTree)));
    let point = ast::StructType { variable: name("Point") };
    match Expression::from_struct(&point, &literal) {
        Ok(Expression::Struct(v, members)) => {
            assert_eq!(v.name, "Point");
            assert_eq!(members.len(), 1);
            assert_eq!(members[0].variable.name, "x");
        },
        other => panic!("unexpected {:?}", other),
    }
    let other = ast::StructType { variable: name("Other") };
    assert!(matches!(Expression::from_struct(&other, &literal), Err(CompilerError::MalformedTree)));
    assert!(matches!(Expression::from_struct(&point, &u32_lit("1")), Err(CompilerError::MalformedTree)));
    let ty = ast::Type::Struct(ast::StructType { variable: name("Point") });
    assert!(matches!(Expression::from_type(&ty, &literal), Ok(Expression::Struct(_, _))));
    let basic = ast::Type::Basic(ast::BasicType::U32);
    assert!(matches!(Expression::from_type(&basic, &u32_lit("5")), Ok(Expression::Integer(Integer::U32(5)))));
}

#[test]
fn types_and_parameters() {
    let t = ast::Type::Array(Box::new(ast::Type::Basic(ast::BasicType::Field)), ast::Value::U32("4".to_string()));
    match Type::from_ast(&t) {
        Ok(Type::Array(inner, 4)) => assert!(matches!(*inner, Type::FieldElement)),
        other => panic!("unexpected {:?}", other),
    }
    let unspecified = ast::Parameter { variable: name("a"), ty: ast::Type::Basic(ast::BasicType::U32), visibility: None };
    let public = ast::Parameter {
        variable: name("b"),
        ty: ast::Type::Basic(ast::BasicType::Boolean),
        visibility: Some(ast::Visibility::Public),
    };
    let private = ast::Parameter {
        variable: name("c"),
        ty: ast::Type::Basic(ast::BasicType::U32),
        visibility: Some(ast::Visibility::Private),
    };
    assert!(matches!(Parameter::from_ast(&unspecified), Ok(Parameter { private: true, .. })));
    assert!(matches!(Parameter::from_ast(&public), Ok(Parameter { private: false, ty: Type::Boolean, .. })));
    assert!(matches!(Parameter::from_ast(&private), Ok(Parameter { private: true, .. })));
}
