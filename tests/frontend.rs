use leo_compiler::ast;
use leo_compiler::circuit::{Circuit, GateOp};
use leo_compiler::errors::CompilerError;
use leo_compiler::program::ResolvedProgram;
use leo_compiler::scope::Scope;
use leo_compiler::types::{Assignee, ConditionalStatement, Program, Statement};
use leo_compiler::value::ResolvedValue;
use leo_compiler::circuit::{Visibility, Wire, Witness};
use leo_compiler::types::{Parameter, Type, Variable};

fn name(s: &str) -> ast::Variable {
    ast::Variable { value: s.to_string() }
}

fn lit(s: &str) -> ast::Expression {
    ast::Expression::Value(ast::Value::U32(s.to_string()))
}

fn u32_type() -> ast::Type {
    ast::Type::Basic(ast::BasicType::U32)
}

fn sum_program() -> ast::File {
    // fn main(n: u32) -> u32 { let x: u32 = 0; for i in 0..3 { x = x + n; } return x }
    let body = vec![
        ast::Statement::Definition(name("x"), u32_type(), lit("0")),
        ast::Statement::Iteration(
            name("i"),
            lit("0"),
            lit("3"),
            vec![ast::Statement::Assign(
                ast::Assignee { variable: name("x"), accesses: vec![] },
                ast::Expression::Binary(
                    ast::BinaryOperator::Add,
                    Box::new(ast::Expression::Variable(name("x"))),
                    Box::new(ast::Expression::Variable(name("n"))),
                ),
            )],
        ),
        ast::Statement::Return(vec![ast::Expression::Variable(name("x"))]),
    ];
    ast::File {
        imports: vec![ast::Import {
            symbol: Some("Point".to_string()),
            source: "geometry".to_string(),
            alias: None,
        }],
        structs: vec![ast::Struct {
            variable: name("Point"),
            fields: vec![ast::StructField { variable: name("x"), ty: u32_type() }],
        }],
        functions: vec![ast::Function {
            function_name: name("main"),
            parameters: vec![ast::Parameter { variable: name("n"), ty: u32_type(), visibility: None }],
            returns: vec![u32_type()],
            statements: body,
        }],
    }
}

#[test]
fn lowered_program_compiles() {
    let program = Program::from_ast(&sum_program()).unwrap();
    assert_eq!(program.structs.len(), 1);
    assert_eq!(program.functions.len(), 1);
    assert!(program.functions[0].parameters[0].private);
    let resolved = ResolvedProgram::new(program);
    let mut cs = Circuit::new();
    let r = resolved.generate_constraints(&mut cs, &"main".to_string(), &vec!["4".to_string()], 8).unwrap();
    assert!(matches!(r[0], ResolvedValue::U32(12, Wire::Gate(2))));
    assert_eq!(cs.gates.iter().filter(|g| g.op == GateOp::Add).count(), 3);
}

#[test]
fn loop_bounds_must_be_integer_literals() {
    let s = ast::Statement::Iteration(name("i"), lit("0"), ast::Expression::Variable(name("n")), vec![]);
    assert!(matches!(Statement::from_ast(&s), Err(CompilerError::MalformedTree)));
    let ok = ast::Statement::Iteration(name("i"), lit("1"), lit("4"), vec![]);
    assert!(matches!(Statement::from_ast(&ok), Ok(Statement::For(_, _, _, _))));
}

#[test]
fn assignment_target_steps() {
    let a = ast::Assignee {
        variable: name("a"),
        accesses: vec![
            ast::AssigneeAccess::Array(ast::RangeOrExpression::Expression(lit("1"))),
            ast::AssigneeAccess::Member(name("x")),
        ],
    };
    match Assignee::from_ast(&a) {
        Ok(Assignee::StructMember(inner, member)) => {
            assert_eq!(member.name, "x");
            assert!(matches!(*inner, Assignee::Array(_, _)));
        },
        other => panic!("unexpected {:?}", other),
    }
}

#[test]
fn conditional_statement_lowering() {
    let c = ast::ConditionalStatement {
        condition: ast::Expression::Value(ast::Value::Boolean("true".to_string())),
        block: ast::Block { statements: vec![ast::Statement::Return(vec![lit("1")])] },
        next: Some(ast::ConditionalNestedOrEndStatement::End(ast::Block { statements: vec![] })),
    };
    let lowered = ConditionalStatement::from_ast(&c).unwrap();
    assert_eq!(lowered.block.statements.len(), 1);
    assert!(lowered.next.is_some());
    let bad = ast::ConditionalStatement {
        condition: ast::Expression::Value(ast::Value::Boolean("yes".to_string())),
        block: ast::Block { statements: vec![] },
        next: None,
    };
    assert!(matches!(ConditionalStatement::from_ast(&bad), Err(CompilerError::MalformedTree)));
}

#[test]
fn struct_definition_with_wrong_literal_is_rejected() {
    let s = ast::Statement::Definition(
        name("p"),
        ast::Type::Struct(ast::StructType { variable: name("Point") }),
        lit("1"),
    );
    assert!(matches!(Statement::from_ast(&s), Err(CompilerError::MalformedTree)));
}

#[test]
fn scope_lookup_store_and_frames() {
    let mut scope = Scope::new();
    let x = "x".to_string();
    assert!(!scope.contains_name(&x));
    scope.store(x.clone(), ResolvedValue::U32(1, Wire::Constant));
    scope.push_frame();
    scope.store(x.clone(), ResolvedValue::U32(2, Wire::Constant));
    scope.store("y".to_string(), ResolvedValue::Boolean(true, Wire::Constant));
    scope.bind(x.clone(), ResolvedValue::U32(3, Wire::Constant));
    assert!(matches!(scope.get(&x), Some(ResolvedValue::U32(3, _))));
    scope.pop_frame();
    // the overwrite of the outer slot stays; the bindings made in the frame are gone
    assert!(matches!(scope.get(&x), Some(ResolvedValue::U32(2, _))));
    assert!(scope.get(&"y".to_string()).is_none());
}

#[test]
fn global_names_resolve_to_declarations() {
    let program = Program::from_ast(&sum_program()).unwrap();
    let resolved = ResolvedProgram::new(program);
    assert!(matches!(resolved.get_global(&"Point".to_string()), Some(ResolvedValue::StructDefinition(_))));
    assert!(matches!(resolved.get_global(&"main".to_string()), Some(ResolvedValue::Function(_))));
    assert!(resolved.get_global(&"nothing".to_string()).is_none());
    assert!(resolved.contains_variable(&"main".to_string()));
}

#[test]
fn lowered_program_has_empty_name() {
    let program = Program::from_ast(&sum_program()).unwrap();
    assert!(program.name.name.is_empty());
}

fn field_parameter(private: bool) -> Parameter {
    Parameter { private, ty: Type::FieldElement, variable: Variable { name: "f".to_string() } }
}

#[test]
fn field_parameter_binding_by_visibility() {
    let resolved = ResolvedProgram::new(Program::from_ast(&sum_program()).unwrap());
    for (private, visibility) in [(false, Visibility::Public), (true, Visibility::Private)] {
        let mut cs = Circuit::new();
        let mut scope = Scope::new();
        let wire = resolved.field_element_from_parameter(&mut cs, &mut scope, &field_parameter(private), &"9".to_string());
        assert_eq!(wire, Ok(Wire::Input(0)));
        assert_eq!(cs.allocations.len(), 1);
        assert_eq!(cs.allocations[0].visibility, visibility);
        assert_eq!(cs.allocations[0].witness, Witness::FieldElement(9));
        assert!(matches!(scope.get(&"f".to_string()), Some(ResolvedValue::FieldElement(9, Wire::Input(0)))));
    }
}

#[test]
fn unreadable_field_parameter_binds_nothing() {
    let resolved = ResolvedProgram::new(Program::from_ast(&sum_program()).unwrap());
    let mut cs = Circuit::new();
    let mut scope = Scope::new();
    let r = resolved.field_element_from_parameter(&mut cs, &mut scope, &field_parameter(true), &"x9".to_string());
    assert_eq!(r, Err(CompilerError::InvalidInput));
    assert!(cs.allocations.is_empty());
    assert!(scope.get(&"f".to_string()).is_none());
}

#[test]
fn bind_parameter_reads_by_type() {
    let resolved = ResolvedProgram::new(Program::from_ast(&sum_program()).unwrap());
    let mut cs = Circuit::new();
    let mut scope = Scope::new();
    let p = Parameter { private: false, ty: Type::Boolean, variable: Variable { name: "b".to_string() } };
    assert_eq!(resolved.bind_parameter(&mut cs, &mut scope, &p, &"true".to_string()), Ok(Wire::Input(0)));
    assert_eq!(cs.allocations[0].witness, Witness::Boolean(true));
    assert_eq!(resolved.bind_parameter(&mut cs, &mut scope, &p, &"1".to_string()), Err(CompilerError::InvalidInput));
    assert_eq!(cs.allocations.len(), 1);
}

#[test]
fn imports_are_carried_in_order() {
    let program = Program::from_ast(&sum_program()).unwrap();
    assert_eq!(program.imports.len(), 1);
    assert_eq!(program.imports[0].symbol.as_deref(), Some("Point"));
    assert_eq!(program.imports[0].source, "geometry");
    assert!(program.imports[0].alias.is_none());
}
