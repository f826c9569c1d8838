use leo_compiler::circuit::{Circuit, GateOp, Visibility, Wire, Witness};
use leo_compiler::errors::CompilerError;
use leo_compiler::program::ResolvedProgram;
use leo_compiler::types::{
    Assignee, BinaryOperator, Block, ConditionalNestedOrEndStatement, ConditionalStatement,
    Expression, Function, FunctionName, Integer, Parameter, Program, RangeOrExpression,
    SpreadOrExpression, Statement, Struct, StructField, StructMember, Type, Variable,
};
use leo_compiler::value::ResolvedValue;

const FUEL: usize = 16;

fn var(name: &str) -> Variable {
    Variable { name: name.to_string() }
}

fn v(name: &str) -> Expression {
    Expression::Variable(var(name))
}

fn num(n: u32) -> Expression {
    Expression::Integer(Integer::U32(n))
}

fn field(f: u64) -> Expression {
    Expression::FieldElement(f)
}

fn bin(op: BinaryOperator, l: Expression, r: Expression) -> Expression {
    Expression::Binary(op, Box::new(l), Box::new(r))
}

fn def(name: &str, e: Expression) -> Statement {
    Statement::Definition(Assignee::Variable(var(name)), e)
}

fn ret(es: Vec<Expression>) -> Statement {
    Statement::Return(es)
}

fn param(name: &str, ty: Type, private: bool) -> Parameter {
    Parameter { private, ty, variable: var(name) }
}

fn func(name: &str, parameters: Vec<Parameter>, statements: Vec<Statement>) -> Function {
    Function { function_name: FunctionName(name.to_string()), parameters, returns: vec![], statements }
}

fn program(structs: Vec<Struct>, functions: Vec<Function>) -> ResolvedProgram {
    ResolvedProgram::new(Program { name: var("test"), imports: vec![], structs, functions })
}

fn run_with(p: &ResolvedProgram, inputs: &[&str]) -> (Result<Vec<ResolvedValue>, CompilerError>, Circuit) {
    let mut cs = Circuit::new();
    let inputs: Vec<String> = inputs.iter().map(|s| s.to_string()).collect();
    let r = p.generate_constraints(&mut cs, &"main".to_string(), &inputs, FUEL);
    (r, cs)
}

fn run_main(statements: Vec<Statement>) -> (Result<Vec<ResolvedValue>, CompilerError>, Circuit) {
    let p = program(vec![], vec![func("main", vec![], statements)]);
    run_with(&p, &[])
}

fn u32s(values: &[ResolvedValue]) -> Vec<u32> {
    values
        .iter()
        .map(|v| match v {
            ResolvedValue::U32(n, _) => *n,
            other => panic!("not an integer: {:?}", other),
        })
        .collect()
}

fn array_of(values: &[u32]) -> Expression {
    Expression::Array(values.iter().map(|n| SpreadOrExpression::Expression(num(*n))).collect())
}

fn slice_of_five(from: Option<u32>, to: Option<u32>) -> Result<Vec<ResolvedValue>, CompilerError> {
    let access = Expression::ArrayAccess(
        Box::new(v("a")),
        Box::new(RangeOrExpression::Range(from.map(Integer::U32), to.map(Integer::U32))),
    );
    let (r, _) = run_main(vec![def("a", array_of(&[1, 2, 3, 4, 5])), ret(vec![access])]);
    r
}

fn only_array(r: Result<Vec<ResolvedValue>, CompilerError>) -> Vec<u32> {
    let values = r.expect("compilation failed");
    assert_eq!(values.len(), 1);
    match &values[0] {
        ResolvedValue::Array(items) => u32s(items),
        other => panic!("not an array: {:?}", other),
    }
}

#[test]
fn slice_with_both_bounds() {
    assert_eq!(only_array(slice_of_five(Some(1), Some(3))), vec![2, 3]);
}

#[test]
fn slice_without_lower_bound() {
    assert_eq!(only_array(slice_of_five(None, Some(2))), vec![1, 2]);
}

#[test]
fn slice_without_upper_bound() {
    assert_eq!(only_array(slice_of_five(Some(3), None)), vec![4, 5]);
}

#[test]
fn slice_past_the_end_is_fatal() {
    assert!(matches!(slice_of_five(Some(1), Some(6)), Err(CompilerError::OutOfBounds)));
    assert!(matches!(slice_of_five(Some(4), Some(2)), Err(CompilerError::OutOfBounds)));
}

fn point_struct() -> Struct {
    Struct {
        variable: var("Point"),
        fields: vec![
            StructField { variable: var("x"), ty: Type::U32 },
            StructField { variable: var("y"), ty: Type::U32 },
        ],
    }
}

fn point_literal(order: &[(&str, u32)]) -> Expression {
    Expression::Struct(
        var("Point"),
        order.iter().map(|(n, value)| StructMember { variable: var(n), expression: num(*value) }).collect(),
    )
}

#[test]
fn struct_literal_in_declared_order() {
    let access = Expression::StructMemberAccess(Box::new(v("p")), var("y"));
    let p = program(
        vec![point_struct()],
        vec![func("main", vec![], vec![def("p", point_literal(&[("x", 1), ("y", 2)])), ret(vec![access])])],
    );
    let (r, _) = run_with(&p, &[]);
    assert_eq!(u32s(&r.unwrap()), vec![2]);
}

#[test]
fn struct_literal_reordered_is_rejected() {
    let p = program(
        vec![point_struct()],
        vec![func("main", vec![], vec![def("p", point_literal(&[("y", 2), ("x", 1)])), ret(vec![v("p")])])],
    );
    let (r, cs) = run_with(&p, &[]);
    assert!(matches!(r, Err(CompilerError::StructShapeMismatch)));
    assert!(cs.gates.is_empty());
}

#[test]
fn struct_literal_missing_field_is_rejected() {
    let p = program(vec![point_struct()], vec![func("main", vec![], vec![ret(vec![point_literal(&[("x", 1)])])])]);
    let (r, _) = run_with(&p, &[]);
    assert!(matches!(r, Err(CompilerError::StructShapeMismatch)));
}

#[test]
fn struct_literal_of_undeclared_struct() {
    let (r, _) = run_main(vec![ret(vec![point_literal(&[("x", 1), ("y", 2)])])]);
    assert!(matches!(r, Err(CompilerError::UndeclaredType)));
}

#[test]
fn unknown_struct_member_is_fatal() {
    let access = Expression::StructMemberAccess(Box::new(v("p")), var("z"));
    let p = program(
        vec![point_struct()],
        vec![func("main", vec![], vec![def("p", point_literal(&[("x", 1), ("y", 2)])), ret(vec![access])])],
    );
    let (r, _) = run_with(&p, &[]);
    assert!(matches!(r, Err(CompilerError::StructShapeMismatch)));
}

fn conditional(cond: Expression, then: Vec<Statement>, otherwise: Option<Vec<Statement>>) -> Statement {
    Statement::Conditional(ConditionalStatement {
        condition: cond,
        block: Block { statements: then },
        next: otherwise.map(|s| ConditionalNestedOrEndStatement::End(Block { statements: s })),
    })
}

#[test]
fn constant_conditional_takes_first_branch() {
    let else_branch = vec![ret(vec![bin(BinaryOperator::Add, num(1), num(1))])];
    let (r, cs) = run_main(vec![conditional(
        Expression::Boolean(true),
        vec![ret(vec![num(1)])],
        Some(else_branch),
    )]);
    assert_eq!(u32s(&r.unwrap()), vec![1]);
    assert_eq!(cs.gates.len(), 0);
}

#[test]
fn false_conditional_takes_else_branch() {
    let (r, cs) = run_main(vec![conditional(
        Expression::Boolean(false),
        vec![ret(vec![bin(BinaryOperator::Add, num(1), num(1))])],
        Some(vec![ret(vec![num(2)])]),
    )]);
    assert_eq!(u32s(&r.unwrap()), vec![2]);
    assert_eq!(cs.gates.len(), 0);
}

#[test]
fn else_if_chain() {
    let nested = ConditionalStatement {
        condition: Expression::Boolean(true),
        block: Block { statements: vec![ret(vec![num(7)])] },
        next: None,
    };
    let (r, _) = run_main(vec![Statement::Conditional(ConditionalStatement {
        condition: Expression::Boolean(false),
        block: Block { statements: vec![ret(vec![num(1)])] },
        next: Some(ConditionalNestedOrEndStatement::Nested(Box::new(nested))),
    })]);
    assert_eq!(u32s(&r.unwrap()), vec![7]);
}

#[test]
fn conditional_on_integer_is_type_mismatch() {
    let (r, _) = run_main(vec![conditional(num(1), vec![ret(vec![num(1)])], None)]);
    assert!(matches!(r, Err(CompilerError::TypeMismatch)));
}

fn for_loop(index: &str, from: u32, to: u32, body: Vec<Statement>) -> Statement {
    Statement::For(var(index), Integer::U32(from), Integer::U32(to), body)
}

#[test]
fn loop_unrolls_three_additions() {
    let (r, cs) = run_main(vec![
        def("x", num(0)),
        for_loop("i", 0, 3, vec![def("x", bin(BinaryOperator::Add, v("x"), v("i")))]),
        ret(vec![v("x")]),
    ]);
    assert_eq!(u32s(&r.unwrap()), vec![3]);
    assert_eq!(cs.gates.iter().filter(|g| g.op == GateOp::Add).count(), 3);
    assert_eq!(cs.gates.len(), 3);
}

#[test]
fn loop_body_binding_is_invisible_after_loop() {
    let (r, _) = run_main(vec![for_loop("i", 0, 2, vec![def("t", v("i"))]), ret(vec![v("t")])]);
    assert!(matches!(r, Err(CompilerError::UnresolvedVariable)));
}

#[test]
fn loop_index_is_invisible_after_loop() {
    let (r, _) = run_main(vec![for_loop("i", 0, 2, vec![]), ret(vec![v("i")])]);
    assert!(matches!(r, Err(CompilerError::UnresolvedVariable)));
}

#[test]
fn iteration_does_not_see_previous_iteration_bindings() {
    // the second iteration reads `seen` before binding it
    let body = vec![conditional(
        bin(BinaryOperator::Eq, v("i"), num(1)),
        vec![ret(vec![v("seen")])],
        None,
    ), def("seen", v("i"))];
    let (r, _) = run_main(vec![for_loop("i", 0, 2, body)]);
    assert!(matches!(r, Err(CompilerError::UnresolvedVariable)));
}

#[test]
fn conditional_block_binding_is_invisible_after_block() {
    let (r, _) = run_main(vec![conditional(Expression::Boolean(true), vec![def("t", num(1))], None), ret(vec![v("t")])]);
    assert!(matches!(r, Err(CompilerError::UnresolvedVariable)));
}

#[test]
fn empty_loop_range_runs_nothing() {
    let (r, cs) = run_main(vec![
        def("x", num(5)),
        for_loop("i", 3, 3, vec![def("x", bin(BinaryOperator::Add, v("x"), num(1)))]),
        ret(vec![v("x")]),
    ]);
    assert_eq!(u32s(&r.unwrap()), vec![5]);
    assert!(cs.gates.is_empty());
}

#[test]
fn public_and_private_parameters() {
    let p = program(
        vec![],
        vec![func(
            "main",
            vec![param("a", Type::U32, false), param("b", Type::U32, true)],
            vec![ret(vec![bin(BinaryOperator::Mul, v("a"), v("b"))])],
        )],
    );
    let (r, cs) = run_with(&p, &["6", "7"]);
    assert_eq!(u32s(&r.unwrap()), vec![42]);
    assert_eq!(cs.allocations.len(), 2);
    assert_eq!(cs.allocations[0].visibility, Visibility::Public);
    assert_eq!(cs.allocations[0].witness, Witness::U32(6));
    assert_eq!(cs.allocations[1].visibility, Visibility::Private);
    assert_eq!(cs.gates[0].left, Wire::Input(0));
    assert_eq!(cs.gates[0].right, Wire::Input(1));
}

#[test]
fn variable_used_three_times_is_allocated_once() {
    let p = program(
        vec![],
        vec![func(
            "main",
            vec![param("x", Type::U32, true)],
            vec![ret(vec![bin(BinaryOperator::Add, bin(BinaryOperator::Add, v("x"), v("x")), v("x"))])],
        )],
    );
    let (r, cs) = run_with(&p, &["5"]);
    assert_eq!(u32s(&r.unwrap()), vec![15]);
    assert_eq!(cs.allocations.len(), 1);
    let reads = cs
        .gates
        .iter()
        .map(|g| [g.left, g.right].iter().filter(|w| **w == Wire::Input(0)).count())
        .sum::<usize>();
    assert_eq!(reads, 3);
}

#[test]
fn same_inputs_give_identical_circuits() {
    let p = program(
        vec![],
        vec![func(
            "main",
            vec![param("a", Type::FieldElement, false), param("b", Type::Boolean, true)],
            vec![
                def("c", bin(BinaryOperator::Mul, v("a"), field(3))),
                ret(vec![bin(BinaryOperator::And, v("b"), bin(BinaryOperator::Eq, v("c"), field(12)))]),
            ],
        )],
    );
    let (r1, c1) = run_with(&p, &["4", "true"]);
    let (r2, c2) = run_with(&p, &["4", "true"]);
    assert_eq!(format!("{:?}", r1), format!("{:?}", r2));
    assert_eq!(c1.gates, c2.gates);
    assert_eq!(c1.allocations, c2.allocations);
    match &r1.unwrap()[0] {
        ResolvedValue::Boolean(b, _) => assert!(*b),
        other => panic!("not a boolean: {:?}", other),
    }
}

#[test]
fn missing_input_is_fatal() {
    let p = program(vec![], vec![func("main", vec![param("a", Type::U32, true)], vec![ret(vec![v("a")])])]);
    let (r, cs) = run_with(&p, &[]);
    assert!(matches!(r, Err(CompilerError::MissingInput)));
    assert!(cs.allocations.is_empty());
}

#[test]
fn unreadable_input_is_fatal() {
    let p = program(
        vec![],
        vec![func("main", vec![param("a", Type::U32, true), param("b", Type::Boolean, true)], vec![ret(vec![v("a")])])],
    );
    assert!(matches!(run_with(&p, &["12x", "true"]).0, Err(CompilerError::InvalidInput)));
    assert!(matches!(run_with(&p, &["4294967296", "true"]).0, Err(CompilerError::InvalidInput)));
    assert!(matches!(run_with(&p, &["1", "yes"]).0, Err(CompilerError::InvalidInput)));
    let (r, cs) = run_with(&p, &["4294967295", "false"]);
    assert_eq!(u32s(&r.unwrap()), vec![4294967295]);
    assert_eq!(cs.allocations[1].witness, Witness::Boolean(false));
}

#[test]
fn field_input_must_be_below_modulus() {
    let p = program(vec![], vec![func("main", vec![param("a", Type::FieldElement, true)], vec![ret(vec![v("a")])])]);
    assert!(matches!(run_with(&p, &["18446744069414584321"]).0, Err(CompilerError::InvalidInput)));
    let (r, _) = run_with(&p, &["18446744069414584320"]);
    assert!(matches!(r.unwrap()[0], ResolvedValue::FieldElement(18446744069414584320, Wire::Input(0))));
}

#[test]
fn composite_parameter_is_unsupported() {
    let p = program(
        vec![],
        vec![func("main", vec![param("a", Type::Array(Box::new(Type::FieldElement), 2), true)], vec![])],
    );
    let (r, cs) = run_with(&p, &["1"]);
    assert!(matches!(r, Err(CompilerError::UnsupportedConstruct)));
    assert!(cs.allocations.is_empty());
}

#[test]
fn unknown_target_function() {
    let p = program(vec![], vec![]);
    assert!(matches!(run_with(&p, &[]).0, Err(CompilerError::UnresolvedVariable)));
}

fn single(statements: Vec<Statement>) -> Result<ResolvedValue, CompilerError> {
    let (r, _) = run_main(statements);
    r.map(|mut v| v.remove(0))
}

#[test]
fn integer_arithmetic_values() {
    let r = single(vec![ret(vec![bin(BinaryOperator::Sub, bin(BinaryOperator::Div, num(17), num(5)), num(1))])]);
    assert!(matches!(r, Ok(ResolvedValue::U32(2, Wire::Gate(1)))));
    let r = single(vec![ret(vec![bin(BinaryOperator::Pow, num(2), num(10))])]);
    assert!(matches!(r, Ok(ResolvedValue::U32(1024, _))));
    let r = single(vec![ret(vec![bin(BinaryOperator::Pow, num(0), num(0))])]);
    assert!(matches!(r, Ok(ResolvedValue::U32(1, _))));
}

#[test]
fn integer_overflow_and_division_by_zero_fail() {
    let r = single(vec![ret(vec![bin(BinaryOperator::Add, num(4294967295), num(1))])]);
    assert!(matches!(r, Err(CompilerError::SynthesisFailure)));
    let r = single(vec![ret(vec![bin(BinaryOperator::Sub, num(1), num(2))])]);
    assert!(matches!(r, Err(CompilerError::SynthesisFailure)));
    let r = single(vec![ret(vec![bin(BinaryOperator::Div, num(1), num(0))])]);
    assert!(matches!(r, Err(CompilerError::SynthesisFailure)));
    let r = single(vec![ret(vec![bin(BinaryOperator::Pow, num(2), num(32))])]);
    assert!(matches!(r, Err(CompilerError::SynthesisFailure)));
}

#[test]
fn field_arithmetic_values() {
    let p: u64 = 18446744069414584321;
    let r = single(vec![ret(vec![bin(BinaryOperator::Div, field(6), field(3))])]);
    assert!(matches!(r, Ok(ResolvedValue::FieldElement(2, _))));
    let r = single(vec![ret(vec![bin(BinaryOperator::Div, field(1), field(2))])]);
    assert!(matches!(r, Ok(ResolvedValue::FieldElement(x, _)) if x == (p + 1) / 2));
    let r = single(vec![ret(vec![bin(BinaryOperator::Sub, field(1), field(2))])]);
    assert!(matches!(r, Ok(ResolvedValue::FieldElement(x, _)) if x == p - 1));
    let r = single(vec![ret(vec![bin(BinaryOperator::Add, field(p - 1), field(5))])]);
    assert!(matches!(r, Ok(ResolvedValue::FieldElement(4, _))));
    let r = single(vec![ret(vec![bin(BinaryOperator::Mul, field(1 << 32), field(1 << 32))])]);
    assert!(matches!(r, Ok(ResolvedValue::FieldElement(x, _)) if x == (1u64 << 32) - 1));
}

#[test]
fn field_division_by_zero_and_pow_fail() {
    let r = single(vec![ret(vec![bin(BinaryOperator::Div, field(1), field(0))])]);
    assert!(matches!(r, Err(CompilerError::SynthesisFailure)));
    let r = single(vec![ret(vec![bin(BinaryOperator::Pow, field(2), field(2))])]);
    assert!(matches!(r, Err(CompilerError::UnsupportedConstruct)));
}

#[test]
fn mixed_operand_kinds_are_type_mismatch() {
    let r = single(vec![ret(vec![bin(BinaryOperator::Add, num(1), field(1))])]);
    assert!(matches!(r, Err(CompilerError::TypeMismatch)));
    let r = single(vec![ret(vec![bin(BinaryOperator::Eq, Expression::Boolean(true), num(1))])]);
    assert!(matches!(r, Err(CompilerError::TypeMismatch)));
    let r = single(vec![ret(vec![Expression::Not(Box::new(num(1)))])]);
    assert!(matches!(r, Err(CompilerError::TypeMismatch)));
}

#[test]
fn comparisons_are_unsupported_and_emit_nothing() {
    for op in [BinaryOperator::Geq, BinaryOperator::Gt, BinaryOperator::Leq, BinaryOperator::Lt] {
        let (r, cs) = run_main(vec![ret(vec![bin(op, bin(BinaryOperator::Add, num(1), num(1)), num(1))])]);
        assert!(matches!(r, Err(CompilerError::UnsupportedConstruct)));
        assert!(cs.gates.is_empty());
    }
}

#[test]
fn constant_boolean_operations_fold() {
    let e = bin(
        BinaryOperator::Or,
        Expression::Not(Box::new(Expression::Boolean(true))),
        bin(BinaryOperator::And, Expression::Boolean(true), bin(BinaryOperator::Eq, num(2), num(2))),
    );
    let (r, cs) = run_main(vec![ret(vec![e])]);
    assert!(matches!(r.unwrap()[0], ResolvedValue::Boolean(true, Wire::Constant)));
    assert!(cs.gates.is_empty());
}

#[test]
fn boolean_gadgets_on_inputs() {
    let p = program(
        vec![],
        vec![func(
            "main",
            vec![param("a", Type::Boolean, true)],
            vec![ret(vec![bin(
                BinaryOperator::Or,
                Expression::Not(Box::new(v("a"))),
                bin(BinaryOperator::And, v("a"), Expression::Boolean(true)),
            )])],
        )],
    );
    let (r, cs) = run_with(&p, &["true"]);
    assert!(matches!(r.unwrap()[0], ResolvedValue::Boolean(true, Wire::Gate(2))));
    let ops: Vec<GateOp> = cs.gates.iter().map(|g| g.op).collect();
    assert_eq!(ops, vec![GateOp::Not, GateOp::And, GateOp::Or]);
}

#[test]
fn if_else_expression_evaluates_selected_branch_only() {
    let e = Expression::IfElse(
        Box::new(bin(BinaryOperator::Eq, num(1), num(2))),
        Box::new(bin(BinaryOperator::Add, num(1), num(1))),
        Box::new(num(9)),
    );
    let (r, cs) = run_main(vec![ret(vec![e])]);
    assert_eq!(u32s(&r.unwrap()), vec![9]);
    assert!(cs.gates.is_empty());
}

#[test]
fn condition_on_an_input_is_refused() {
    let choose = Expression::IfElse(Box::new(v("a")), Box::new(num(1)), Box::new(num(2)));
    let p = program(vec![], vec![func("main", vec![param("a", Type::Boolean, true)], vec![ret(vec![choose])])]);
    let (r, cs) = run_with(&p, &["true"]);
    assert!(matches!(r, Err(CompilerError::TypeMismatch)));
    assert!(cs.gates.is_empty());
    let p = program(
        vec![],
        vec![func(
            "main",
            vec![param("a", Type::U32, true)],
            vec![conditional(bin(BinaryOperator::Eq, v("a"), num(1)), vec![ret(vec![num(1)])], None)],
        )],
    );
    let (r, cs) = run_with(&p, &["1"]);
    assert!(matches!(r, Err(CompilerError::TypeMismatch)));
    assert_eq!(cs.gates.len(), 1);
}

#[test]
fn array_index_and_spread() {
    let spread = Expression::Array(vec![
        SpreadOrExpression::Spread(v("a")),
        SpreadOrExpression::Expression(num(6)),
    ]);
    let index = Expression::ArrayAccess(Box::new(v("b")), Box::new(RangeOrExpression::Expression(num(5))));
    let (r, _) = run_main(vec![def("a", array_of(&[1, 2, 3, 4, 5])), def("b", spread), ret(vec![index, v("b")])]);
    let values = r.unwrap();
    assert!(matches!(values[0], ResolvedValue::U32(6, _)));
    match &values[1] {
        ResolvedValue::Array(items) => assert_eq!(u32s(items), vec![1, 2, 3, 4, 5, 6]),
        other => panic!("not an array: {:?}", other),
    }
}

#[test]
fn array_index_out_of_range_is_fatal() {
    let index = Expression::ArrayAccess(Box::new(v("a")), Box::new(RangeOrExpression::Expression(num(3))));
    let r = single(vec![def("a", array_of(&[1, 2, 3])), ret(vec![index])]);
    assert!(matches!(r, Err(CompilerError::OutOfBounds)));
}

#[test]
fn spread_of_non_array_is_fatal() {
    let spread = Expression::Array(vec![SpreadOrExpression::Spread(v("a"))]);
    let r = single(vec![def("a", num(1)), ret(vec![spread])]);
    assert!(matches!(r, Err(CompilerError::TypeMismatch)));
}

#[test]
fn index_must_be_integer() {
    let index = Expression::ArrayAccess(Box::new(v("a")), Box::new(RangeOrExpression::Expression(Expression::Boolean(true))));
    let r = single(vec![def("a", array_of(&[1])), ret(vec![index])]);
    assert!(matches!(r, Err(CompilerError::TypeMismatch)));
}

#[test]
fn compound_assignment_targets() {
    let element = Assignee::Array(Box::new(Assignee::Variable(var("a"))), RangeOrExpression::Expression(num(1)));
    let member = Assignee::StructMember(Box::new(Assignee::Variable(var("p"))), var("x"));
    let range = Assignee::Array(
        Box::new(Assignee::Variable(var("a"))),
        RangeOrExpression::Range(Some(Integer::U32(2)), None),
    );
    let p = program(
        vec![point_struct()],
        vec![func(
            "main",
            vec![],
            vec![
                def("a", array_of(&[1, 2, 3, 4])),
                Statement::Definition(element, num(9)),
                Statement::Definition(range, array_of(&[7, 8])),
                def("p", point_literal(&[("x", 1), ("y", 2)])),
                Statement::Definition(member, num(5)),
                ret(vec![v("a"), Expression::StructMemberAccess(Box::new(v("p")), var("x"))]),
            ],
        )],
    );
    let (r, _) = run_with(&p, &[]);
    let values = r.unwrap();
    match &values[0] {
        ResolvedValue::Array(items) => assert_eq!(u32s(items), vec![1, 9, 7, 8]),
        other => panic!("not an array: {:?}", other),
    }
    assert!(matches!(values[1], ResolvedValue::U32(5, _)));
}

#[test]
fn assignment_into_unbound_variable_is_fatal() {
    let element = Assignee::Array(Box::new(Assignee::Variable(var("a"))), RangeOrExpression::Expression(num(0)));
    let r = single(vec![Statement::Definition(element, num(1)), ret(vec![])]);
    assert!(matches!(r, Err(CompilerError::UnresolvedVariable)));
}

#[test]
fn function_call_and_first_return() {
    let double = func(
        "double",
        vec![param("n", Type::U32, true)],
        vec![ret(vec![bin(BinaryOperator::Mul, v("n"), num(2))]), ret(vec![num(0)])],
    );
    let call = Expression::FunctionCall(Box::new(v("double")), vec![num(21)]);
    let p = program(vec![], vec![func("main", vec![], vec![ret(vec![call])]), double]);
    let (r, cs) = run_with(&p, &[]);
    assert_eq!(u32s(&r.unwrap()), vec![42]);
    assert!(cs.allocations.is_empty());
}

#[test]
fn callee_does_not_see_caller_locals() {
    let peek = func("peek", vec![], vec![ret(vec![v("secret")])]);
    let call = Expression::FunctionCall(Box::new(v("peek")), vec![]);
    let p = program(vec![], vec![func("main", vec![], vec![def("secret", num(1)), ret(vec![call])]), peek]);
    assert!(matches!(run_with(&p, &[]).0, Err(CompilerError::UnresolvedVariable)));
}

#[test]
fn calling_a_non_function_is_fatal() {
    let call = Expression::FunctionCall(Box::new(v("x")), vec![]);
    let r = single(vec![def("x", num(1)), ret(vec![call])]);
    assert!(matches!(r, Err(CompilerError::TypeMismatch)));
}

#[test]
fn unbounded_recursion_exhausts_the_call_budget() {
    let call = Expression::FunctionCall(Box::new(v("main")), vec![]);
    let (r, _) = run_main(vec![ret(vec![call])]);
    assert!(matches!(r, Err(CompilerError::CallDepthExceeded)));
}

#[test]
fn unresolved_variable_is_fatal() {
    assert!(matches!(single(vec![ret(vec![v("nope")])]), Err(CompilerError::UnresolvedVariable)));
}

#[test]
fn field_literal_is_reduced() {
    let r = single(vec![ret(vec![field(18446744069414584322)])]);
    assert!(matches!(r, Ok(ResolvedValue::FieldElement(1, Wire::Constant))));
}

#[test]
fn spread_of_array_literal_is_rejected() {
    let spread = Expression::Array(vec![SpreadOrExpression::Spread(array_of(&[1]))]);
    let (r, _) = run_main(vec![ret(vec![spread])]);
    assert!(matches!(r, Err(CompilerError::TypeMismatch)));
}

#[test]
fn spread_of_unbound_name_is_fatal() {
    let spread = Expression::Array(vec![SpreadOrExpression::Spread(v("missing"))]);
    let (r, _) = run_main(vec![ret(vec![spread])]);
    assert!(matches!(r, Err(CompilerError::UnresolvedVariable)));
}

#[test]
fn later_declaration_of_a_name_wins() {
    let first = func("main", vec![], vec![ret(vec![num(1)])]);
    let second = func("main", vec![], vec![ret(vec![num(2)])]);
    let p = program(vec![], vec![first, second]);
    let (r, _) = run_with(&p, &[]);
    assert_eq!(u32s(&r.unwrap()), vec![2]);
    let short = Struct { variable: var("Point"), fields: vec![StructField { variable: var("x"), ty: Type::U32 }] };
    let p = program(
        vec![short, point_struct()],
        vec![func("main", vec![], vec![ret(vec![point_literal(&[("x", 1), ("y", 2)])])])],
    );
    assert!(run_with(&p, &[]).0.is_ok());
}
