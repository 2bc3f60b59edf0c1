//! Generation of three-address code from a symbol table: a walk through the
//! scopes in source order.

use vstd::prelude::*;
use crate::symbol_declaration::{mangled, to_var_name, BasicType};
use crate::symbol_table::{ConditionalStatement, ConditionalStatementType, SymbolEntry, SymbolTable};
use crate::tac::{program_text, program_view, TacCommand, TacProgram, TacStatement, TacStatementView,
    TacValueView};
use crate::tac_program_builder::{assign_element, assign_tree, builtin_code, if_code, program_of,
    while_code, BuilderModel, TacError, TacProgramBuilder, MAX_DEPTH};

verus! {

/// The scope of the `else` part that follows entry `i` of `symbols`, where
/// the next entry is one.
pub open spec fn else_body(symbols: Seq<SymbolEntry>, i: int) -> Option<usize> {
    if 0 <= i && i + 1 < symbols.len() {
        match symbols[i + 1] {
            SymbolEntry::ConditionalStatement(next) => if next.statement_type
                == ConditionalStatementType::Else {
                Some(next.body_scope)
            } else {
                None
            },
            _ => None,
        }
    } else {
        None
    }
}

/// The builder with the jump to `label` appended to its current function.
pub open spec fn with_goto(b: BuilderModel, label: Seq<char>) -> BuilderModel {
    b.with_curr(
        b.curr().emit(TacStatementView::Command(TacCommand::Goto, Some(TacValueView::Label(label)))),
    )
}

/// The builder with the label `label` appended to its current function.
pub open spec fn with_label(b: BuilderModel, label: Seq<char>) -> BuilderModel {
    b.with_curr(b.curr().emit(TacStatementView::Label(label)))
}

/// The code of a `while`: its opening, the code of its body, the jump back
/// and the label of its end.
pub open spec fn gen_while(table: SymbolTable, cond: ConditionalStatement, depth: nat, b: BuilderModel) -> Result<
    BuilderModel,
    TacError,
>
    decreases depth, 1nat,
{
    match cond.condition {
        None => Err(TacError::MissingCondition),
        Some(condition) => match while_code(b.curr(), condition, MAX_DEPTH as nat) {
            Err(e) => Err(e),
            Ok((f, while_label, end_label)) => match gen_scope(
                table,
                cond.body_scope,
                depth,
                b.with_curr(f),
            ) {
                Err(e) => Err(e),
                Ok(b1) => Ok(with_label(with_goto(b1, while_label), end_label)),
            },
        },
    }
}

/// The code of an `if` whose `else` part, where it has one, has its body in
/// `else_scope`: the opening, the code of the body, with an `else` part the
/// jump to the end, the label of the `else` part and the code of its body,
/// and the label of the end.
pub open spec fn gen_if(
    table: SymbolTable,
    cond: ConditionalStatement,
    else_scope: Option<usize>,
    depth: nat,
    b: BuilderModel,
) -> Result<BuilderModel, TacError>
    decreases depth, 1nat,
{
    match cond.condition {
        None => Err(TacError::MissingCondition),
        Some(condition) => match if_code(b.curr(), condition, else_scope is Some, MAX_DEPTH as nat) {
            Err(e) => Err(e),
            Ok((f, else_label, end_label)) => match gen_scope(
                table,
                cond.body_scope,
                depth,
                b.with_curr(f),
            ) {
                Err(e) => Err(e),
                Ok(b1) => match else_scope {
                    None => Ok(with_label(b1, end_label)),
                    Some(scope) => match gen_scope(
                        table,
                        scope,
                        depth,
                        with_label(with_goto(b1, end_label), else_label),
                    ) {
                        Err(e) => Err(e),
                        Ok(b2) => Ok(with_label(b2, end_label)),
                    },
                },
            },
        },
    }
}

/// The code of entry `i` of scope `scope`, and the number of entries it
/// takes: two for an `if` with its `else` part, one for any other.
pub open spec fn gen_entry(table: SymbolTable, scope: usize, i: int, depth: nat, b: BuilderModel) -> Result<
    (BuilderModel, int),
    TacError,
>
    decreases depth, 2nat,
{
    let symbols = table.scopes@[scope as int].symbols@;
    match symbols[i] {
        SymbolEntry::Decl(id) => match table.lookup(id.0@, id.1) {
            Some(decl) => match decl.var_type {
                BasicType::Function(info) => match gen_scope(
                    table,
                    info.body_scope,
                    depth,
                    b.add_function(mangled(decl.name@, decl.scope as nat)),
                ) {
                    Err(e) => Err(e),
                    Ok(b1) => Ok((b1.reset(), 1)),
                },
                _ => Ok((b, 1)),
            },
            None => Ok((b, 1)),
        },
        SymbolEntry::Parameter(id) => match table.lookup(id.0@, id.1) {
            Some(decl) => Ok(
                (
                    b.add_parameter(
                        mangled(decl.name@, decl.scope as nat),
                        decl.var_type@.size() as u64,
                    ),
                    1,
                ),
            ),
            None => Ok((b, 1)),
        },
        SymbolEntry::Scope(inner) => match gen_scope(table, inner, depth, b) {
            Err(e) => Err(e),
            Ok(b1) => Ok((b1, 1)),
        },
        SymbolEntry::BuiltInFunction(func) => match builtin_code(
            b.curr(),
            func.func_type,
            func.statement,
            MAX_DEPTH as nat,
        ) {
            Err(e) => Err(e),
            Ok((f, _)) => Ok((b.with_curr(f), 1)),
        },
        SymbolEntry::Assignment(info) => match info.index {
            Some(index) => match table.lookup(info.var.0@, info.var.1) {
                Some(arr) => match arr.var_type {
                    BasicType::Array(_, len) => match assign_element(
                        b.curr(),
                        mangled(info.var.0@, info.var.1 as nat),
                        index,
                        info.assignment,
                        len as u64,
                        MAX_DEPTH as nat,
                    ) {
                        Err(e) => Err(e),
                        Ok(f) => Ok((b.with_curr(f), 1)),
                    },
                    _ => Ok((b, 1)),
                },
                None => Ok((b, 1)),
            },
            None => match assign_tree(
                b.curr(),
                mangled(info.var.0@, info.var.1 as nat),
                info.assignment,
                MAX_DEPTH as nat,
            ) {
                Err(e) => Err(e),
                Ok(f) => Ok((b.with_curr(f), 1)),
            },
        },
        SymbolEntry::ConditionalStatement(cond) => match cond.statement_type {
            ConditionalStatementType::While => match gen_while(table, cond, depth, b) {
                Err(e) => Err(e),
                Ok(b1) => Ok((b1, 1)),
            },
            ConditionalStatementType::If => match gen_if(
                table,
                cond,
                else_body(symbols, i),
                depth,
                b,
            ) {
                Err(e) => Err(e),
                Ok(b1) => Ok((b1, if else_body(symbols, i) is Some { 2 } else { 1 })),
            },
            ConditionalStatementType::Else => Ok((b, 1)),
        },
        SymbolEntry::StatementTree(_) => Ok((b, 1)),
    }
}

/// The code of the entries of scope `scope` from entry `i` on.
pub open spec fn gen_entries(table: SymbolTable, scope: usize, i: int, depth: nat, b: BuilderModel) -> Result<
    BuilderModel,
    TacError,
>
    decreases depth, 3 + table.scopes@[scope as int].symbols@.len() - i,
{
    if i < 0 || i >= table.scopes@[scope as int].symbols@.len() {
        Ok(b)
    } else {
        match gen_entry(table, scope, i, depth, b) {
            Err(e) => Err(e),
            Ok((b1, step)) => gen_entries(table, scope, if step == 2 { i + 2 } else { i + 1 }, depth, b1),
        }
    }
}

/// The code of scope `scope`, where scopes lie at most `depth` deep in one
/// another.
pub open spec fn gen_scope(table: SymbolTable, scope: usize, depth: nat, b: BuilderModel) -> Result<
    BuilderModel,
    TacError,
>
    decreases depth, 0nat,
{
    if depth == 0 || scope >= table.scopes@.len() {
        Err(TacError::UnknownScope)
    } else {
        gen_entries(table, scope, 0, (depth - 1) as nat, b)
    }
}

/// The program of the symbol table `table`: the code of the global scope,
/// generated into the main program, with each function in a record of its
/// own.
pub open spec fn generated(table: SymbolTable) -> Result<Seq<TacStatementView>, TacError> {
    match gen_scope(
        table,
        0,
        table.scopes@.len(),
        TacProgramBuilder::new_model(),
    ) {
        Err(e) => Err(e),
        Ok(b) => program_of(b.funcs),
    }
}

/// Two programs generated from one symbol table have the same text.
pub proof fn lemma_generation_repeatable(
    table: SymbolTable,
    first: Seq<TacStatement>,
    second: Seq<TacStatement>,
)
    requires
        generated(table) == Ok::<Seq<TacStatementView>, TacError>(program_view(first)),
        generated(table) == Ok::<Seq<TacStatementView>, TacError>(program_view(second)),
    ensures
        program_text(program_view(first)) == program_text(program_view(second)),
{
}

/// The program of the symbol table `table`.
pub fn perform_intermediate_code_generation(table: &SymbolTable) -> (r: Result<TacProgram, TacError>)
    requires
        table.scopes_wf(),
        table.decls_wf(),
    ensures
        match generated(*table) {
            Ok(code) => r matches Ok(p) && program_view(p@) == code,
            Err(e) => r == Err::<TacProgram, TacError>(e),
        },
{
    let mut program_builder = TacProgramBuilder::new();
    generate_scope_code(0, table, &mut program_builder, table.get_scope_count())?;
    program_builder.get_program()
}

/// Generates the code of a `while`.
fn generate_while(
    cond: &ConditionalStatement,
    curr_scope: usize,
    table: &SymbolTable,
    program_builder: &mut TacProgramBuilder,
    depth: usize,
) -> (r: Result<(), TacError>)
    requires
        table.scopes_wf(),
        table.decls_wf(),
        old(program_builder).wf(),
    ensures
        final(program_builder).wf(),
        match gen_while(*table, *cond, depth as nat, old(program_builder)@) {
            Ok(b) => r is Ok && final(program_builder)@ == b,
            Err(e) => r == Err::<(), TacError>(e),
        },
    decreases depth, 1nat,
{
    match &cond.condition {
        None => Err(TacError::MissingCondition),
        Some(condition) => {
            let (while_label, end_while_label) = program_builder.add_while_statement(
                condition,
                curr_scope,
            )?;
            generate_scope_code(cond.body_scope, table, program_builder, depth)?;
            program_builder.add_goto(while_label);
            program_builder.add_label(end_while_label);
            Ok(())
        },
    }
}

/// Generates the code of an `if` with its `else` part, where its body is in
/// `else_scope`.
fn generate_if(
    cond: &ConditionalStatement,
    else_scope: Option<usize>,
    curr_scope: usize,
    table: &SymbolTable,
    program_builder: &mut TacProgramBuilder,
    depth: usize,
) -> (r: Result<(), TacError>)
    requires
        table.scopes_wf(),
        table.decls_wf(),
        old(program_builder).wf(),
    ensures
        final(program_builder).wf(),
        match gen_if(*table, *cond, else_scope, depth as nat, old(program_builder)@) {
            Ok(b) => r is Ok && final(program_builder)@ == b,
            Err(e) => r == Err::<(), TacError>(e),
        },
    decreases depth, 1nat,
{
    match &cond.condition {
        None => Err(TacError::MissingCondition),
        Some(condition) => {
            let (else_label, end_if_label) = program_builder.add_if(
                condition,
                curr_scope,
                else_scope.is_some(),
            )?;
            generate_scope_code(cond.body_scope, table, program_builder, depth)?;
            if let Some(body_scope) = else_scope {
                program_builder.add_goto(end_if_label.clone());
                program_builder.add_label(else_label);
                generate_scope_code(body_scope, table, program_builder, depth)?;
            }
            program_builder.add_label(end_if_label);
            Ok(())
        },
    }
}

/// Generates the code of entry `i` of scope `curr_scope` and returns the
/// number of entries it took.
fn generate_entry(
    curr_scope: usize,
    i: usize,
    table: &SymbolTable,
    program_builder: &mut TacProgramBuilder,
    depth: usize,
) -> (r: Result<usize, TacError>)
    requires
        table.scopes_wf(),
        table.decls_wf(),
        old(program_builder).wf(),
        curr_scope < table.scopes@.len(),
        i < table.scopes@[curr_scope as int].symbols@.len(),
    ensures
        final(program_builder).wf(),
        match gen_entry(*table, curr_scope, i as int, depth as nat, old(program_builder)@) {
            Ok((b, step)) => r matches Ok(n) && n == step && final(program_builder)@ == b && 1 <= n
                <= 2 && (n == 2 ==> i + 1 < table.scopes@[curr_scope as int].symbols@.len()),
            Err(e) => r == Err::<usize, TacError>(e),
        },
    decreases depth, 2nat,
{
    let symbols = table.get_scope(curr_scope).get_symbols();
    match &symbols[i] {
        SymbolEntry::Decl(decl_id) => {
            if let Some(decl) = table.find_decl_by_id(decl_id) {
                if let BasicType::Function(func_info) = &decl.var_type {
                    program_builder.add_function(decl.to_var_name());
                    generate_scope_code(func_info.body_scope, table, program_builder, depth)?;
                    program_builder.reset_curr_func();
                }
            }
            Ok(1)
        },
        SymbolEntry::Parameter(decl_id) => {
            if let Some(decl) = table.find_decl_by_id(decl_id) {
                program_builder.add_parameter(decl);
            }
            Ok(1)
        },
        SymbolEntry::Scope(new_scope) => {
            generate_scope_code(*new_scope, table, program_builder, depth)?;
            Ok(1)
        },
        SymbolEntry::BuiltInFunction(builtin_func) => {
            program_builder.add_builtin_func(builtin_func, curr_scope)?;
            Ok(1)
        },
        SymbolEntry::Assignment(assignment_info) => {
            match &assignment_info.index {
                Some(index) => {
                    if let Some(arr) = table.find_decl_by_id(&assignment_info.var) {
                        if let BasicType::Array(_, size) = &arr.var_type {
                            program_builder.add_array_assignment(
                                to_var_name(&assignment_info.var),
                                index,
                                &assignment_info.assignment,
                                *size,
                                curr_scope,
                            )?;
                        }
                    }
                },
                None => {
                    program_builder.add_assignment_statement(
                        to_var_name(&assignment_info.var),
                        &assignment_info.assignment,
                        curr_scope,
                    )?;
                },
            }
            Ok(1)
        },
        SymbolEntry::ConditionalStatement(cond) => match cond.statement_type {
            ConditionalStatementType::While => {
                generate_while(cond, curr_scope, table, program_builder, depth)?;
                Ok(1)
            },
            ConditionalStatementType::If => {
                let mut else_scope: Option<usize> = None;
                if symbols.len() - i > 1 {
                    if let SymbolEntry::ConditionalStatement(next_cond) = &symbols[i + 1] {
                        if let ConditionalStatementType::Else = next_cond.statement_type {
                            else_scope = Some(next_cond.body_scope);
                        }
                    }
                }
                generate_if(cond, else_scope, curr_scope, table, program_builder, depth)?;
                if else_scope.is_some() {
                    Ok(2)
                } else {
                    Ok(1)
                }
            },
            ConditionalStatementType::Else => Ok(1),
        },
        SymbolEntry::StatementTree(_) => Ok(1),
    }
}

/// Generates the code of scope `curr_scope`, where scopes lie at most
/// `depth` deep in one another.
pub fn generate_scope_code(
    curr_scope: usize,
    table: &SymbolTable,
    program_builder: &mut TacProgramBuilder,
    depth: usize,
) -> (r: Result<(), TacError>)
    requires
        table.scopes_wf(),
        table.decls_wf(),
        old(program_builder).wf(),
    ensures
        final(program_builder).wf(),
        match gen_scope(*table, curr_scope, depth as nat, old(program_builder)@) {
            Ok(b) => r is Ok && final(program_builder)@ == b,
            Err(e) => r == Err::<(), TacError>(e),
        },
    decreases depth, 0nat,
{
    if depth == 0 || curr_scope >= table.get_scope_count() {
        return Err(TacError::UnknownScope);
    }
    generate_entries(curr_scope, table, program_builder, depth - 1)
}

/// Generates the code of the entries of scope `curr_scope`.
fn generate_entries(
    curr_scope: usize,
    table: &SymbolTable,
    program_builder: &mut TacProgramBuilder,
    depth: usize,
) -> (r: Result<(), TacError>)
    requires
        table.scopes_wf(),
        table.decls_wf(),
        old(program_builder).wf(),
        curr_scope < table.scopes@.len(),
    ensures
        final(program_builder).wf(),
        match gen_entries(*table, curr_scope, 0, depth as nat, old(program_builder)@) {
            Ok(b) => r is Ok && final(program_builder)@ == b,
            Err(e) => r == Err::<(), TacError>(e),
        },
    decreases depth, 3nat,
{
    let count = table.get_scope(curr_scope).get_symbols().len();
    let mut i: usize = 0;
    while i < count
        invariant
            table.scopes_wf(),
            table.decls_wf(),
            program_builder.wf(),
            curr_scope < table.scopes@.len(),
            count == table.scopes@[curr_scope as int].symbols@.len(),
            0 <= i <= count,
            gen_entries(*table, curr_scope, 0, depth as nat, old(program_builder)@) == gen_entries(
                *table,
                curr_scope,
                i as int,
                depth as nat,
                program_builder@,
            ),
        decreases count - i,
    {
        let step = generate_entry(curr_scope, i, table, program_builder, depth)?;
        if step == 2 {
            i += 2;
        } else {
            i += 1;
        }
    }
    Ok(())
}

} // verus!
