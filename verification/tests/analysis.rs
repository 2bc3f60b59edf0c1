use cp_compiler::first_set::get_constant_first_sets;
use cp_compiler::follow_set::get_constant_follow_sets;
use cp_compiler::lexical_analysis::perform_lexical_analysis;
use cp_compiler::ll1_table::{generate_ll1_table, set_table_entry, GrammarError};
use cp_compiler::non_terminals::NonTerminal;
use cp_compiler::productions::{get_constant_productions, Production, ProductionType};
use cp_compiler::semantic_analysis::{SemanticErrorType, SemanticInfo};
use cp_compiler::semantic_actions::SemanticAction;
use cp_compiler::statement_tree::{ArraySizeError, StatementSymbol, StatementTree};
use cp_compiler::symbol_declaration::{to_var_name, BasicType, SymbolDecl};
use cp_compiler::symbol_table::{ScopeType, SymbolEntry, SymbolTable};
use cp_compiler::syntax_analysis::SyntaxErrorType;
use cp_compiler::syntax_semantic_analysis::{perform_syntax_semantic_analysis, SyntaxSemanticErrors};
use cp_compiler::text::decimal_string;
use cp_compiler::token::Token;

fn errors_of(source: &str) -> SyntaxSemanticErrors {
    let tokens = perform_lexical_analysis(source.as_bytes().to_vec()).expect("tokens");
    match perform_syntax_semantic_analysis(tokens) {
        Ok(_) => panic!("no error"),
        Err(errors) => errors,
    }
}

fn table_of(source: &str) -> SymbolTable {
    let tokens = perform_lexical_analysis(source.as_bytes().to_vec()).expect("tokens");
    perform_syntax_semantic_analysis(tokens).ok().expect("table")
}

#[test]
fn the_grammar_has_a_parsing_table() {
    let productions = get_constant_productions();
    let first_sets = get_constant_first_sets();
    let follow_sets = get_constant_follow_sets();
    assert_eq!(productions.len(), 58);
    assert_eq!(first_sets.len(), 39);
    assert_eq!(follow_sets.len(), 39);
    let table = generate_ll1_table(&productions, &first_sets, &follow_sets).expect("table");
    assert_eq!(table.len(), 39);
    assert!(table.iter().all(|row| row.len() == 40));
    // the program begins with a function on `def`
    assert_eq!(table[NonTerminal::Program.to_index()][Token::Kdef.to_index()], Some(0));
    assert_eq!(table[NonTerminal::Fdecls.to_index()][Token::Kdef.to_index()], Some(1));
    // without functions the function declarations derive the empty word
    assert_eq!(table[NonTerminal::Fdecls.to_index()][Token::Kint.to_index()], Some(58));
    assert_eq!(table[NonTerminal::Fdecls.to_index()][Token::Kfed.to_index()], None);
}

#[test]
fn two_productions_for_one_entry_are_a_conflict() {
    let mut productions = get_constant_productions();
    let first_sets = get_constant_first_sets();
    let follow_sets = get_constant_follow_sets();
    productions.push(Production {
        left: NonTerminal::Type,
        right: vec![ProductionType::Terminal(Token::Kint)],
    });
    assert_eq!(
        generate_ll1_table(&productions, &first_sets, &follow_sets),
        Err(GrammarError::Conflict)
    );
}

#[test]
fn a_first_terminal_without_production_is_an_error() {
    let productions: Vec<Production> = Vec::new();
    let first_sets = get_constant_first_sets();
    let follow_sets = get_constant_follow_sets();
    assert_eq!(
        generate_ll1_table(&productions, &first_sets, &follow_sets),
        Err(GrammarError::NoProduction)
    );
    assert_eq!(
        generate_ll1_table(&productions, &Vec::new(), &follow_sets),
        Err(GrammarError::MissingSets)
    );
}

#[test]
fn an_entry_is_set_once() {
    let mut table = vec![vec![None; 40]; 39];
    assert_eq!(set_table_entry(&mut table, &NonTerminal::Decl, 3, 7), Ok(()));
    assert_eq!(table[NonTerminal::Decl.to_index()][3], Some(7));
    assert_eq!(set_table_entry(&mut table, &NonTerminal::Decl, 3, 8), Err(GrammarError::Conflict));
    assert_eq!(table[NonTerminal::Decl.to_index()][3], Some(7));
}

#[test]
fn ordinals_of_tokens_and_non_terminals() {
    assert_eq!(Token::Identifier(String::from("a")).to_index(), 0);
    assert_eq!(Token::Tint(5).to_index(), 1);
    assert_eq!(Token::Tdouble(String::from("1.0")).to_index(), 2);
    assert_eq!(Token::Kif.to_index(), 3);
    assert_eq!(Token::Kprint.to_index(), 18);
    assert_eq!(Token::Onot.to_index(), 30);
    assert_eq!(Token::Scbracket.to_index(), 37);
    assert_eq!(NonTerminal::Program.to_index(), 0);
    assert_eq!(NonTerminal::Number.to_index(), 38);
    assert_eq!(NonTerminal::from_index(25), NonTerminal::Expr);
    assert!(Token::Tint(1).equals_type(&Token::Tint(2)));
    assert!(!Token::Tint(1).equals_type(&Token::Tdouble(String::from("1"))));
    assert_eq!(Token::Olte.to_string(), "<=");
    assert_eq!(Token::Tint(120).to_string(), "120");
    assert_eq!(Token::Identifier(String::from("abc")).to_string(), "abc");
}

#[test]
fn numerals_and_mangled_names() {
    assert_eq!(decimal_string(0), "0");
    assert_eq!(decimal_string(7), "7");
    assert_eq!(decimal_string(10), "10");
    assert_eq!(decimal_string(18446744073709551615), "18446744073709551615");
    assert_eq!(to_var_name(&(String::from("x"), 0)), "x0");
    assert_eq!(to_var_name(&(String::from("count"), 12)), "count12");
    assert_eq!(SymbolDecl::new(String::from("y"), BasicType::Int, 3).to_var_name(), "y3");
}

#[test]
fn sizes_and_texts_of_types() {
    let array = BasicType::Array(Box::new(BasicType::Double), 5);
    assert_eq!(BasicType::Int.get_size(), 4);
    assert_eq!(BasicType::Double.get_size(), 4);
    assert_eq!(array.get_size(), 20);
    assert_eq!(array.to_log_message(), "[double; 5]");
    let mut function = SymbolDecl::new_func(String::from("f"), BasicType::Int, 1, 0);
    assert_eq!(function.get_size(), 0);
    assert_eq!(function.var_type.to_log_message(), "func() -> int");
    if let BasicType::Function(info) = &mut function.var_type {
        info.param_types.push(BasicType::Int);
        info.param_types.push(BasicType::Double);
    }
    assert_eq!(function.var_type.to_log_message(), "func(int, double) -> int");
    assert!(function.var_type.same_as(&function.var_type.clone()));
    assert!(!function.var_type.same_as(&BasicType::Int));
    assert_eq!(function.get_id(), (String::from("f"), 0));
}

#[test]
fn declarations_are_found_from_the_nearest_scope() {
    let mut table = SymbolTable::new();
    let inner = table.add_scope(ScopeType::Local, 0);
    let innermost = table.add_scope(ScopeType::Local, inner);
    let other = table.add_scope(ScopeType::Local, 0);
    for name in ["zeta", "alpha", "mid", "beta", "omega"] {
        table.add_declaration(SymbolDecl::new(String::from(name), BasicType::Int, 0)).unwrap();
    }
    table.add_declaration(SymbolDecl::new(String::from("mid"), BasicType::Double, inner)).unwrap();
    table
        .add_parameter(SymbolDecl::new(String::from("mid"), BasicType::Int, other))
        .unwrap();
    assert!(table.is_valid());
    let names: Vec<&str> = table.decls.iter().map(|(name, _)| name.as_str()).collect();
    assert_eq!(names, vec!["alpha", "beta", "mid", "omega", "zeta"]);
    for name in ["zeta", "alpha", "beta", "omega"] {
        let found = table.find_decl(&String::from(name), innermost).expect(name);
        assert_eq!((found.name.as_str(), found.scope), (name, 0));
    }
    assert_eq!(table.find_decl(&String::from("mid"), innermost).unwrap().scope, inner);
    assert_eq!(table.find_decl(&String::from("mid"), inner).unwrap().var_type, BasicType::Double);
    assert_eq!(table.find_decl(&String::from("mid"), other).unwrap().scope, other);
    assert_eq!(table.find_decl(&String::from("mid"), 0).unwrap().scope, 0);
    assert_eq!(table.find_decl(&String::from("nu"), innermost), None);
    assert_eq!(table.find_decl(&String::from("mid"), 99), None);
    assert_eq!(table.find_decl_by_id(&(String::from("mid"), innermost)).unwrap().scope, inner);
    assert_eq!(
        table.add_declaration(SymbolDecl::new(String::from("mid"), BasicType::Int, inner)),
        Err(SemanticErrorType::DuplicateDeclaration(String::from(
            "Symbol mid already declared in scope 1"
        )))
    );
    assert_eq!(table.get_scope(0).get_symbols().len(), 5);
    assert_eq!(
        table.get_scope(other).get_symbols()[0],
        SymbolEntry::Parameter((String::from("mid"), other))
    );
    assert_eq!(table.get_parent_scope(innermost), inner);
    assert_eq!(table.get_scope_count(), 4);
}

#[test]
fn a_table_out_of_order_is_invalid() {
    let mut table = SymbolTable::new();
    table.add_declaration(SymbolDecl::new(String::from("b"), BasicType::Int, 0)).unwrap();
    table.add_declaration(SymbolDecl::new(String::from("a"), BasicType::Int, 0)).unwrap();
    assert!(table.is_valid());
    table.decls.swap(0, 1);
    assert!(!table.is_valid());
    table.decls.swap(0, 1);
    table.scopes[0].parent_scope = 1;
    assert!(!table.is_valid());
}

#[test]
fn nodes_enter_the_first_free_branch() {
    let mut tree = StatementTree::new();
    let root = tree.add_node(StatementSymbol::Operator(Token::Oplus), None);
    let left = tree.add_node(StatementSymbol::Literal(Token::Tint(1)), Some(root));
    let right = tree.add_node(StatementSymbol::Literal(Token::Tint(2)), Some(root));
    assert_eq!((root, left, right), (0, 1, 2));
    assert_eq!(tree.start, Some(0));
    assert_eq!((tree.nodes[0].left, tree.nodes[0].right), (Some(1), Some(2)));
    assert!(tree.nodes[0].has_both_children());
    assert_eq!(tree.nodes[2].parent, Some(0));

    let above = tree.split_tree(StatementSymbol::Operator(Token::Omultiply), right);
    assert_eq!(above, 3);
    assert_eq!(tree.nodes[0].right, Some(3));
    assert_eq!((tree.nodes[3].parent, tree.nodes[3].left, tree.nodes[3].right), (Some(0), Some(2), None));
    assert_eq!(tree.nodes[2].parent, Some(3));
    assert_eq!(tree.start, Some(0));

    let top = tree.split_tree(StatementSymbol::Operator(Token::Ominus), root);
    assert_eq!(tree.start, Some(top));
    assert_eq!(tree.nodes[top].left, Some(root));
    assert_eq!(tree.nodes[root].parent, Some(top));
}

fn constant(left: u32, op: Token, right: u32) -> Result<u32, ArraySizeError> {
    let mut tree = StatementTree::new();
    let root = tree.add_node(StatementSymbol::Operator(op), None);
    tree.add_node(StatementSymbol::Literal(Token::Tint(left)), Some(root));
    tree.add_node(StatementSymbol::Literal(Token::Tint(right)), Some(root));
    tree.calculate_array_size()
}

#[test]
fn constant_expressions_follow_integer_arithmetic() {
    assert_eq!(constant(3, Token::Oplus, 4), Ok(7));
    assert_eq!(constant(9, Token::Ominus, 4), Ok(5));
    assert_eq!(constant(6, Token::Omultiply, 7), Ok(42));
    assert_eq!(constant(17, Token::Odivide, 5), Ok(3));
    assert_eq!(constant(17, Token::Omod, 5), Ok(2));
    assert_eq!(constant(2, Token::Olt, 3), Ok(1));
    assert_eq!(constant(2, Token::Ogte, 3), Ok(0));
    assert_eq!(constant(2, Token::Onot, 3), Ok(1));
    assert_eq!(constant(0, Token::Kor, 3), Ok(1));
    assert_eq!(constant(0, Token::Kand, 3), Ok(0));
    assert_eq!(constant(3, Token::Ominus, 4), Err(ArraySizeError::NegativeSize));
    assert_eq!(constant(3, Token::Odivide, 0), Err(ArraySizeError::DivisionByZero));
    assert_eq!(constant(3, Token::Omod, 0), Err(ArraySizeError::DivisionByZero));
    assert_eq!(constant(2147483647, Token::Oplus, 1), Err(ArraySizeError::Overflow));
    assert_eq!(constant(2147483648, Token::Oplus, 1), Err(ArraySizeError::Overflow));
    assert_eq!(constant(3, Token::Kif, 4), Err(ArraySizeError::InvalidOperator));
}

#[test]
fn constant_expressions_that_are_none() {
    assert_eq!(StatementTree::new().calculate_array_size(), Err(ArraySizeError::NoStatement));

    let mut variable = StatementTree::new();
    variable.add_node(StatementSymbol::Decl((String::from("n"), 0)), None);
    assert_eq!(variable.calculate_array_size(), Err(ArraySizeError::NotConstant));

    let mut decimal = StatementTree::new();
    decimal.add_node(StatementSymbol::Literal(Token::Tdouble(String::from("1.5"))), None);
    assert_eq!(decimal.calculate_array_size(), Err(ArraySizeError::NotAnInteger));

    let mut lone = StatementTree::new();
    lone.add_node(StatementSymbol::SingleChildOperator(Token::Ominus), None);
    assert_eq!(lone.calculate_array_size(), Err(ArraySizeError::MissingOperand));

    let mut negated = StatementTree::new();
    let root = negated.add_node(StatementSymbol::SingleChildOperator(Token::Knot), None);
    negated.add_node(StatementSymbol::Literal(Token::Tint(0)), Some(root));
    assert_eq!(negated.calculate_array_size(), Ok(1));

    let mut looped = StatementTree::new();
    let root = looped.add_node(StatementSymbol::SingleChildOperator(Token::Soparen), None);
    looped.nodes[root].left = Some(root);
    assert_eq!(looped.calculate_array_size(), Err(ArraySizeError::BrokenLink));
}

#[test]
fn parsing_the_same_tokens_gives_the_same_table() {
    let source = "def int f(int a) return a * 2; fed; int x; int y[4]; x = f(3); \
                  if x > 2 then y[1] = x; else print x; fi.";
    assert_eq!(table_of(source), table_of(source));
}

#[test]
fn the_table_holds_the_scopes_and_entries_of_the_program() {
    let table = table_of("def int f(int a) return a; fed; int x; while x < 3 do x = x + 1; od.");
    assert!(table.is_valid());
    assert_eq!(table.get_scope_count(), 3);
    assert_eq!(table.get_scope(1).scope_type, ScopeType::Function);
    assert_eq!(table.get_scope(2).scope_type, ScopeType::Local);
    assert_eq!(table.get_parent_scope(2), 0);
    let global = table.get_scope(0).get_symbols();
    assert_eq!(global[0], SymbolEntry::Decl((String::from("f"), 0)));
    assert_eq!(global[1], SymbolEntry::Decl((String::from("x"), 0)));
    assert!(matches!(global[2], SymbolEntry::ConditionalStatement(_)));
    assert_eq!(table.get_scope(1).get_symbols()[0], SymbolEntry::Parameter((String::from("a"), 1)));
    let function = table.find_decl(&String::from("f"), 2).expect("f");
    assert_eq!(function.var_type.to_log_message(), "func(int) -> int");
}

#[test]
fn a_missing_period_is_the_end_of_the_file() {
    let errors = errors_of("int x; x = 1");
    assert_eq!(errors.syntax_errors.len(), 1);
    assert_eq!(errors.syntax_errors[0].error_type, SyntaxErrorType::UnexpectedEndOfFile);
    assert_eq!(errors.syntax_errors[0].line, 1);
}

#[test]
fn tokens_after_the_program_are_reported() {
    let errors = errors_of(".\n.\n.");
    assert_eq!(errors.syntax_errors.len(), 1);
    assert_eq!(errors.syntax_errors[0].error_type, SyntaxErrorType::UnexpectedEndOfFile);
    assert_eq!(errors.syntax_errors[0].line, 2);
}

#[test]
fn a_token_that_begins_nothing_is_unexpected() {
    let errors = errors_of("int x;\nx = .");
    assert_eq!(errors.syntax_errors.len(), 1);
    assert_eq!(
        errors.syntax_errors[0].error_type,
        SyntaxErrorType::UnexpectedToken(Token::Speriod)
    );
    assert_eq!(errors.syntax_errors[0].line, 2);
}

#[test]
fn the_parser_resumes_after_an_unexpected_token() {
    let errors = errors_of("int x; x = * 2 ; x = 3 .");
    assert_eq!(
        errors.syntax_errors[0].error_type,
        SyntaxErrorType::UnexpectedToken(Token::Omultiply)
    );
    assert_eq!(errors.syntax_errors.len(), 1);
}

#[test]
fn a_missing_separator_is_expected() {
    let errors = errors_of("def int f(int a) return a; fed int y; y = 1.");
    assert_eq!(
        errors.syntax_errors[0].error_type,
        SyntaxErrorType::ExpectedToken(Token::Ssemicolon, Token::Kint)
    );
}

#[test]
fn semantic_errors_of_each_kind() {
    let kind_of = |source: &str| errors_of(source).semantic_errors.remove(0).error_type;
    assert_eq!(
        kind_of("int x; x[0] = 1."),
        SemanticErrorType::InvalidType(String::from("Variable is not an array"))
    );
    assert_eq!(
        kind_of("def int f(int a) return a; fed; int y; y = f()."),
        SemanticErrorType::MissingParameters(String::from("Expected 1 parameters, found 0"))
    );
    assert_eq!(
        kind_of("int n; int a[n]; n = 1."),
        SemanticErrorType::InvalidArraySize(String::from("Array size must be a constant value"))
    );
    assert_eq!(
        kind_of("int a[1 - 2]; a[0] = 1."),
        SemanticErrorType::InvalidArraySize(String::from("Array size must be a positive value"))
    );
    assert_eq!(
        kind_of("int x; x = 1 + 2.5."),
        SemanticErrorType::TypeMismatch(String::from("int != double"))
    );
    assert_eq!(
        kind_of("def int f(int a) return 1.5; fed; ."),
        SemanticErrorType::TypeMismatch(String::from("Wrong return type, int != double"))
    );
    assert_eq!(
        kind_of("def int f(int a) return a; fed; int y; y = f(1.5)."),
        SemanticErrorType::TypeMismatch(String::from("int != double"))
    );
    assert_eq!(
        kind_of("int x; int y; y = x(1)."),
        SemanticErrorType::InvalidType(String::from("x is not a function"))
    );
    assert_eq!(kind_of("int x; x = y."), SemanticErrorType::UndefinedVariable(String::from("y")));
}

#[test]
fn actions_work_on_the_state() {
    let mut info = SemanticInfo::new();
    assert_eq!(info.perform_action(&SemanticAction::SetType, &Some(Token::Kdouble)), Ok(()));
    assert_eq!(info.curr_type, Some(BasicType::Double));
    assert_eq!(
        info.perform_action(&SemanticAction::SetId, &Some(Token::Identifier(String::from("v")))),
        Ok(())
    );
    assert_eq!(info.curr_id, Some(String::from("v")));
    assert_eq!(info.perform_action(&SemanticAction::AddVarDecl, &None), Ok(()));
    assert!(matches!(
        info.perform_action(&SemanticAction::AddVarDecl, &None),
        Err(SemanticErrorType::DuplicateDeclaration(_))
    ));
    assert_eq!(info.perform_action(&SemanticAction::ClearVarDecl, &None), Ok(()));
    assert_eq!((info.curr_id.clone(), info.curr_type.clone()), (None, None));
    assert_eq!(info.perform_action(&SemanticAction::NewScope, &None), Ok(()));
    assert_eq!(info.curr_scope, 1);
    assert_eq!(info.perform_action(&SemanticAction::StartTypeTree, &None), Ok(()));
    assert_eq!(
        info.perform_action(&SemanticAction::SetId, &Some(Token::Identifier(String::from("v")))),
        Ok(())
    );
    assert_eq!(info.type_trees[0].tree.nodes[0].symbol, StatementSymbol::Decl((String::from("v"), 0)));
    assert_eq!(info.type_trees[0].tree.nodes[0].node_type, Some(BasicType::Double));
    assert_eq!(
        info.perform_action(&SemanticAction::SetId, &Some(Token::Identifier(String::from("w")))),
        Err(SemanticErrorType::UndefinedVariable(String::from("w")))
    );
    assert!(info.type_trees.is_empty());
    assert_eq!(info.perform_action(&SemanticAction::PopScope, &None), Ok(()));
    assert_eq!(info.curr_scope, 0);
}

#[test]
fn the_return_type_is_forgotten_when_a_scope_is_left() {
    let errors = errors_of("def int f(int a) if a > 0 then a = 1; fi; return a; fed; .");
    assert_eq!(
        errors.semantic_errors[0].error_type,
        SemanticErrorType::InvalidType(String::from("Function return type not found"))
    );
}

#[test]
fn semantic_errors_inside_expressions() {
    let kind_of = |source: &str| errors_of(source).semantic_errors.remove(0).error_type;
    assert_eq!(
        kind_of("int x; int y; y = x[0]."),
        SemanticErrorType::InvalidType(String::from("Variable x is not an array"))
    );
    assert_eq!(
        kind_of("int a[2]; int y; y = a[1.5]."),
        SemanticErrorType::TypeMismatch(String::from("Array index type must be int, found double"))
    );
    assert_eq!(
        kind_of("def int f(int a) return a; fed; int y; y = f(1, 2)."),
        SemanticErrorType::TypeMismatch(String::from("Too many arguments"))
    );
    assert_eq!(
        kind_of("int y; y = g(1)."),
        SemanticErrorType::UndefinedVariable(String::from("g"))
    );
}

#[test]
fn a_semantic_error_is_on_the_line_of_its_token() {
    let errors = errors_of("int x;\nint x;\nx = 1.");
    assert_eq!(errors.semantic_errors.len(), 1);
    assert_eq!(errors.semantic_errors[0].line, 2);
    assert!(errors.syntax_errors.is_empty());
}
