//! Lowering untyped declarations: structs, functions and whole files.
use crate::ast;
use crate::errors::CompilerError;
use crate::lowering::{lower_parameter, lower_type};
use crate::statement_lowering::{lower_statements, stmt_models, StmtModel};
use crate::types::{Function, FunctionName, Import, Parameter, Program, Struct, StructField, Type, Variable};
use vstd::prelude::*;

verus! {

pub ghost struct StructModel {
    pub name: Seq<char>,
    pub fields: Seq<StructField>,
}

pub ghost struct FunctionModel {
    pub name: Seq<char>,
    pub parameters: Seq<Parameter>,
    pub returns: Seq<Type>,
    pub statements: Seq<StmtModel>,
}

/// The model of an import: its symbol, source and alias.
pub ghost struct ImportModel {
    pub symbol: Option<Seq<char>>,
    pub source: Seq<char>,
    pub alias: Option<Seq<char>>,
}

pub open spec fn view_option(o: Option<String>) -> Option<Seq<char>> {
    match o {
        Some(s) => Some(s@),
        None => None,
    }
}

pub open spec fn import_model(i: Import) -> ImportModel {
    ImportModel { symbol: view_option(i.symbol), source: i.source@, alias: view_option(i.alias) }
}

/// An import is carried over as written.
pub open spec fn lower_import(i: ast::Import) -> ImportModel {
    ImportModel { symbol: view_option(i.symbol), source: i.source@, alias: view_option(i.alias) }
}

pub ghost struct ProgramModel {
    pub imports: Seq<ImportModel>,
    pub structs: Seq<StructModel>,
    pub functions: Seq<FunctionModel>,
}

pub open spec fn struct_model(s: Struct) -> StructModel {
    StructModel { name: s.variable.name@, fields: s.fields@ }
}

pub open spec fn function_model(f: Function) -> FunctionModel {
    FunctionModel {
        name: f.function_name.0@,
        parameters: f.parameters@,
        returns: f.returns@,
        statements: stmt_models(f.statements@),
    }
}

pub open spec fn program_model(p: Program) -> ProgramModel {
    ProgramModel {
        imports: p.imports@.map_values(|i: Import| import_model(i)),
        structs: p.structs@.map_values(|s: Struct| struct_model(s)),
        functions: p.functions@.map_values(|f: Function| function_model(f)),
    }
}

pub open spec fn lower_fields(s: Seq<ast::StructField>, k: int, acc: Seq<StructField>) -> Option<Seq<StructField>>
    decreases s.len() - k,
{
    if k < 0 || k >= s.len() {
        Some(acc)
    } else {
        match lower_type(s[k].ty) {
            Some(ty) => lower_fields(s, k + 1, acc.push(StructField { variable: Variable { name: s[k].variable.value }, ty })),
            None => None,
        }
    }
}

pub open spec fn lower_struct_declaration(s: ast::Struct) -> Option<StructModel> {
    match lower_fields(s.fields@, 0, Seq::empty()) {
        Some(fields) => Some(StructModel { name: s.variable.value@, fields }),
        None => None,
    }
}

pub open spec fn lower_parameters(s: Seq<ast::Parameter>, k: int, acc: Seq<Parameter>) -> Option<Seq<Parameter>>
    decreases s.len() - k,
{
    if k < 0 || k >= s.len() {
        Some(acc)
    } else {
        match lower_parameter(s[k]) {
            Some(p) => lower_parameters(s, k + 1, acc.push(p)),
            None => None,
        }
    }
}

pub open spec fn lower_types(s: Seq<ast::Type>, k: int, acc: Seq<Type>) -> Option<Seq<Type>>
    decreases s.len() - k,
{
    if k < 0 || k >= s.len() {
        Some(acc)
    } else {
        match lower_type(s[k]) {
            Some(t) => lower_types(s, k + 1, acc.push(t)),
            None => None,
        }
    }
}

pub open spec fn lower_function(f: ast::Function) -> Option<FunctionModel> {
    match (
        lower_parameters(f.parameters@, 0, Seq::empty()),
        lower_types(f.returns@, 0, Seq::empty()),
        lower_statements(f.statements, 0, Seq::empty()),
    ) {
        (Some(ps), Some(ts), Some(ss)) => Some(
            FunctionModel { name: f.function_name.value@, parameters: ps, returns: ts, statements: ss },
        ),
        _ => None,
    }
}

pub open spec fn lower_structs(s: Seq<ast::Struct>, k: int, acc: Seq<StructModel>) -> Option<Seq<StructModel>>
    decreases s.len() - k,
{
    if k < 0 || k >= s.len() {
        Some(acc)
    } else {
        match lower_struct_declaration(s[k]) {
            Some(m) => lower_structs(s, k + 1, acc.push(m)),
            None => None,
        }
    }
}

pub open spec fn lower_functions(s: Seq<ast::Function>, k: int, acc: Seq<FunctionModel>) -> Option<Seq<FunctionModel>>
    decreases s.len() - k,
{
    if k < 0 || k >= s.len() {
        Some(acc)
    } else {
        match lower_function(s[k]) {
            Some(m) => lower_functions(s, k + 1, acc.push(m)),
            None => None,
        }
    }
}

/// A file lowers when each of its declarations does, kept in order; its
/// imports are carried over in order.
pub open spec fn lower_file(f: ast::File) -> Option<ProgramModel> {
    match (lower_structs(f.structs@, 0, Seq::empty()), lower_functions(f.functions@, 0, Seq::empty())) {
        (Some(ss), Some(fs)) => Some(
            ProgramModel { imports: f.imports@.map_values(|i: ast::Import| lower_import(i)), structs: ss, functions: fs },
        ),
        _ => None,
    }
}

impl Struct {
    pub fn from_ast(s: &ast::Struct) -> (r: Result<Struct, CompilerError>)
        ensures
            match r {
                Ok(t) => lower_struct_declaration(*s) == Some(struct_model(t)),
                Err(e) => lower_struct_declaration(*s) is None && e == CompilerError::MalformedTree,
            },
    {
        let mut fields: Vec<StructField> = Vec::new();
        let mut k: usize = 0;
        while k < s.fields.len()
            invariant
                k <= s.fields@.len(),
                lower_fields(s.fields@, 0, Seq::empty()) == lower_fields(s.fields@, k as int, fields@),
            decreases s.fields.len() - k,
        {
            match Type::from_ast(&s.fields[k].ty) {
                Ok(ty) => {
                    fields.push(StructField { variable: Variable { name: s.fields[k].variable.value.clone() }, ty });
                },
                Err(e) => {
                    return Err(e);
                },
            }
            k = k + 1;
        }
        Ok(Struct { variable: Variable { name: s.variable.value.clone() }, fields })
    }
}

impl Function {
    pub fn from_ast(f: &ast::Function) -> (r: Result<Function, CompilerError>)
        ensures
            match r {
                Ok(t) => lower_function(*f) == Some(function_model(t)),
                Err(e) => lower_function(*f) is None && e == CompilerError::MalformedTree,
            },
    {
        let mut parameters: Vec<Parameter> = Vec::new();
        let mut k: usize = 0;
        while k < f.parameters.len()
            invariant
                k <= f.parameters@.len(),
                lower_parameters(f.parameters@, 0, Seq::empty()) == lower_parameters(f.parameters@, k as int, parameters@),
            decreases f.parameters.len() - k,
        {
            match Parameter::from_ast(&f.parameters[k]) {
                Ok(p) => {
                    parameters.push(p);
                },
                Err(e) => {
                    return Err(e);
                },
            }
            k = k + 1;
        }
        let mut return_types: Vec<Type> = Vec::new();
        let mut k: usize = 0;
        while k < f.returns.len()
            invariant
                k <= f.returns@.len(),
                lower_types(f.returns@, 0, Seq::empty()) == lower_types(f.returns@, k as int, return_types@),
                lower_parameters(f.parameters@, 0, Seq::empty()) == Some(parameters@),
            decreases f.returns.len() - k,
        {
            match Type::from_ast(&f.returns[k]) {
                Ok(t) => {
                    return_types.push(t);
                },
                Err(e) => {
                    return Err(e);
                },
            }
            k = k + 1;
        }
        match crate::types::Statement::all_from_ast(&f.statements) {
            Ok(statements) => Ok(
                Function {
                    function_name: FunctionName(f.function_name.value.clone()),
                    parameters,
                    returns: return_types,
                    statements,
                },
            ),
            Err(e) => Err(e),
        }
    }
}

impl Program {
    /// Lowers a whole file, its declarations kept in order. Where a name is
    /// declared twice, lookups in the program take the later declaration.
    pub fn from_ast(file: &ast::File) -> (r: Result<Program, CompilerError>)
        ensures
            match r {
                Ok(t) => lower_file(*file) == Some(program_model(t)),
                Err(e) => lower_file(*file) is None && e == CompilerError::MalformedTree,
            },
            r matches Ok(t) ==> t.name.name@ == Seq::<char>::empty(),
    {
        let mut structs: Vec<Struct> = Vec::new();
        let mut k: usize = 0;
        assert(structs@.map_values(|s: Struct| struct_model(s)) =~= Seq::<StructModel>::empty());
        while k < file.structs.len()
            invariant
                k <= file.structs@.len(),
                lower_structs(file.structs@, 0, Seq::empty()) == lower_structs(
                    file.structs@,
                    k as int,
                    structs@.map_values(|s: Struct| struct_model(s)),
                ),
            decreases file.structs.len() - k,
        {
            match Struct::from_ast(&file.structs[k]) {
                Ok(s) => {
                    let ghost before = structs@;
                    structs.push(s);
                    assert(structs@.map_values(|s: Struct| struct_model(s)) =~= before.map_values(
                        |s: Struct| struct_model(s),
                    ).push(struct_model(s)));
                },
                Err(e) => {
                    return Err(e);
                },
            }
            k = k + 1;
        }
        let mut functions: Vec<Function> = Vec::new();
        let mut k: usize = 0;
        assert(functions@.map_values(|f: Function| function_model(f)) =~= Seq::<FunctionModel>::empty());
        while k < file.functions.len()
            invariant
                k <= file.functions@.len(),
                lower_functions(file.functions@, 0, Seq::empty()) == lower_functions(
                    file.functions@,
                    k as int,
                    functions@.map_values(|f: Function| function_model(f)),
                ),
                lower_structs(file.structs@, 0, Seq::empty()) == Some(structs@.map_values(|s: Struct| struct_model(s))),
            decreases file.functions.len() - k,
        {
            match Function::from_ast(&file.functions[k]) {
                Ok(f) => {
                    let ghost before = functions@;
                    functions.push(f);
                    assert(functions@.map_values(|f: Function| function_model(f)) =~= before.map_values(
                        |f: Function| function_model(f),
                    ).push(function_model(f)));
                },
                Err(e) => {
                    return Err(e);
                },
            }
            k = k + 1;
        }
        let mut imports: Vec<Import> = Vec::new();
        let mut k: usize = 0;
        while k < file.imports.len()
            invariant
                k <= file.imports@.len(),
                imports@.len() == k,
                forall|j: int| 0 <= j < k ==> #[trigger] import_model(imports@[j]) == lower_import(file.imports@[j]),
                lower_structs(file.structs@, 0, Seq::empty()) == Some(structs@.map_values(|s: Struct| struct_model(s))),
                lower_functions(file.functions@, 0, Seq::empty()) == Some(functions@.map_values(|f: Function| function_model(f))),
            decreases file.imports.len() - k,
        {
            imports.push(Self::copy_import(&file.imports[k]));
            k = k + 1;
        }
        assert(imports@.map_values(|i: Import| import_model(i)) =~= file.imports@.map_values(|i: ast::Import| lower_import(i)));
        Ok(Program { name: Variable { name: String::new() }, imports, structs, functions })
    }

    fn copy_import(i: &ast::Import) -> (r: Import)
        ensures
            import_model(r) == lower_import(*i),
    {
        let symbol = match &i.symbol {
            Some(s) => Some(s.clone()),
            None => None,
        };
        let alias = match &i.alias {
            Some(s) => Some(s.clone()),
            None => None,
        };
        Import { symbol, source: i.source.clone(), alias }
    }
}

} // verus!
