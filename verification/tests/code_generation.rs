use cp_compiler::intermediate_code_generation::perform_intermediate_code_generation;
use cp_compiler::lexical_analysis::perform_lexical_analysis;
use cp_compiler::statement_tree::{StatementSymbol, StatementTree};
use cp_compiler::symbol_declaration::{BasicType, SymbolDecl};
use cp_compiler::syntax_semantic_analysis::perform_syntax_semantic_analysis;
use cp_compiler::tac::{Loggable, TacCommand, TacOperation, TacStatement, TacValue};
use cp_compiler::tac_program_builder::{TacError, TacFunctionInfo, TacProgramBuilder};
use cp_compiler::token::Token;

fn body(source: &str) -> String {
    let tokens = perform_lexical_analysis(source.as_bytes().to_vec()).expect("tokens");
    let table = match perform_syntax_semantic_analysis(tokens) {
        Ok(table) => table,
        Err(errors) => panic!("{:?} {:?}", errors.syntax_errors, errors.semantic_errors),
    };
    let text = perform_intermediate_code_generation(&table).expect("code").to_log_message();
    let head = "\tGoto main0;\nmain0:\n";
    assert!(text.starts_with(head), "{}", text);
    assert!(text.ends_with("\tEndFunc;\n"), "{}", text);
    text[head.len()..text.len() - "\tEndFunc;\n".len()].to_string()
}

#[test]
fn not_is_lowered_to_a_branch() {
    assert_eq!(
        body("int x; x = not 1."),
        "\tBeginFunc 16;\n\tt0_ = 1;\n\tt1_ = t0_ > 0;\n\tIfZ t1_ Goto else0;\n\tt2_ = 0;\n\tGoto fi1;\nelse0:\n\tt2_ = 1;\nfi1:\n\tx0 = t2_;\n"
    );
}

#[test]
fn and_is_lowered_to_a_branch() {
    assert_eq!(
        body("int x; x = 1 and 0."),
        "\tBeginFunc 12;\n\tt0_ = 1 > 0;\n\tIfZ t0_ Goto else0;\n\tt1_ = 0 > 0;\n\tGoto fi1;\nelse0:\n\tt1_ = 0;\nfi1:\n\tx0 = t1_;\n"
    );
}

#[test]
fn or_is_lowered_to_a_branch() {
    assert_eq!(
        body("int x; x = 1 or 0."),
        "\tBeginFunc 12;\n\tt0_ = 1 > 0;\n\tIfZ t0_ Goto else0;\n\tt1_ = 1;\n\tGoto fi1;\nelse0:\n\tt1_ = 0 > 0;\nfi1:\n\tx0 = t1_;\n"
    );
}

#[test]
fn negation_subtracts_from_zero() {
    assert_eq!(body("int x; x = -2."), "\tBeginFunc 8;\n\tt0_ = 2;\n\tx0 = 0 - t0_;\n");
    assert_eq!(body("double y; y = -1.5."), "\tBeginFunc 8;\n\tt0_ = 1.5;\n\ty0 = 0 - t0_;\n");
}

#[test]
fn parentheses_go_through_a_temporary() {
    assert_eq!(body("int x; x = (1 + 2) * 3."), "\tBeginFunc 8;\n\tt0_ = 1 + 2;\n\tx0 = t0_ * 3;\n");
}

#[test]
fn nested_operators_use_temporaries() {
    assert_eq!(
        body("int x; x = 1 * 2 + 3."),
        "\tBeginFunc 8;\n\tt0_ = 1 * 2;\n\tx0 = t0_ + 3;\n"
    );
}

#[test]
fn array_elements_are_read_through_a_pointer() {
    assert_eq!(
        body("int a[2]; int x; a[0] = 7; x = a[0] + 1."),
        "\tBeginFunc 16;\n\tt0_ = 0;\n\t*(a0 + t0_) = 7;\n\tt1_ = 0;\n\tx0 = *(a0 + t1_) + 1;\n"
    );
}

#[test]
fn labels_of_a_function_are_defined_once_and_jumps_lead_to_them() {
    let source = "def int f(int a) return a; while a > 0 and a < 9 do \
                  if a == 5 then a = a - 2; else a = a - 1; fi; od; fed; \
                  int i; i = 0; while i < 3 do if not i == 1 then i = i + f(i); fi; i = i + 1; od.";
    let tokens = perform_lexical_analysis(source.as_bytes().to_vec()).expect("tokens");
    let table = perform_syntax_semantic_analysis(tokens).ok().expect("table");
    let program = perform_intermediate_code_generation(&table).expect("code");
    let mut functions: Vec<Vec<&TacStatement>> = Vec::new();
    for statement in program.iter() {
        if let TacStatement::Command(TacCommand::BeginFunc, _) = statement {
            functions.push(Vec::new());
        } else if let Some(last) = functions.last_mut() {
            last.push(statement);
        }
    }
    assert_eq!(functions.len(), 2);
    for function in functions {
        let labels: Vec<&String> = function
            .iter()
            .filter_map(|s| if let TacStatement::Label(l) = s { Some(l) } else { None })
            .filter(|l| l.as_str() != "main0" && l.as_str() != "f0")
            .collect();
        for label in labels.iter() {
            assert_eq!(labels.iter().filter(|l| l == &label).count(), 1, "{}", label);
        }
        for statement in function.iter() {
            let target = match statement {
                TacStatement::Command(TacCommand::Goto, Some(TacValue::Label(l))) => Some(l),
                TacStatement::Command(TacCommand::IfZ, Some(TacValue::IfArgs(_, l))) => Some(l),
                _ => None,
            };
            if let Some(target) = target {
                assert!(labels.contains(&target), "{}", target);
            }
        }
    }
}

#[test]
fn frame_size_is_the_sum_of_the_sizes() {
    let mut function = TacFunctionInfo::new(String::from("f0"));
    function.set_size(String::from("b"), 4, 3).unwrap();
    function.set_size(String::from("a"), 8, 1).unwrap();
    function.set_size(String::from("b"), 6, 9).unwrap();
    function.set_size(String::from("a"), 2, 1).unwrap();
    assert_eq!(
        function.var_sizes,
        vec![(String::from("a"), (8, 1)), (String::from("b"), (6, 3))]
    );
    let mut builder = TacProgramBuilder::new();
    builder.funcs.push(function);
    let text = builder.get_program().expect("program").to_log_message();
    assert_eq!(
        text,
        "\tGoto main0;\nf0:\n\tBeginFunc 26;\n\tEndFunc;\nmain0:\n\tBeginFunc 0;\n\tEndFunc;\n"
    );
}

#[test]
fn sizes_of_values() {
    let mut builder = TacProgramBuilder::new();
    builder.add_parameter(&SymbolDecl::new(String::from("n"), BasicType::Int, 1));
    builder
        .add_assignment(
            String::from("v"),
            TacOperation { op: None, val1: TacValue::Int(1), val2: None },
        )
        .unwrap();
    assert_eq!(builder.get_val_size(&TacValue::Int(7)), 4);
    assert_eq!(builder.get_val_size(&TacValue::Double(String::from("1.5"))), 4);
    assert_eq!(builder.get_val_size(&TacValue::Var(String::from("v"))), 4);
    assert_eq!(builder.get_val_size(&TacValue::Var(String::from("n1"))), 4);
    assert_eq!(builder.get_val_size(&TacValue::Var(String::from("q"))), 0);
    assert_eq!(builder.get_val_size(&TacValue::Label(String::from("v"))), 0);
}

#[test]
fn labels_and_temporaries_are_numbered_by_function() {
    let mut builder = TacProgramBuilder::new();
    assert_eq!(builder.get_next_label(String::from("while")), Ok(String::from("while0")));
    assert_eq!(builder.get_next_label(String::from("od")), Ok(String::from("od1")));
    assert_eq!(builder.new_temp_var(4, 0).unwrap().name, "t0_");
    assert_eq!(builder.add_function(String::from("f0")), 1);
    assert_eq!(builder.get_next_label(String::from("fi")), Ok(String::from("fi0")));
    assert_eq!(builder.new_temp_var(4, 0).unwrap().name, "t0_");
    builder.reset_curr_func();
    assert_eq!(builder.get_next_label(String::from("else")), Ok(String::from("else2")));
    assert_eq!(builder.new_temp_var(4, 0).unwrap().name, "t1_");
}

#[test]
fn counters_and_sizes_that_overflow_are_errors() {
    let mut function = TacFunctionInfo::new(String::from("f0"));
    function.label_count = u16::MAX;
    assert_eq!(function.get_next_label(String::from("fi")), Err(TacError::TooManyLabels));
    function.temp_count = u16::MAX;
    assert_eq!(function.new_temp_var(4, 0), Err(TacError::TooManyTemporaries));
    assert_eq!(function.set_size(String::from("a"), u64::MAX, 2), Err(TacError::SizeOverflow));
}

#[test]
fn malformed_trees_are_errors() {
    let mut function = TacFunctionInfo::new(String::from("f0"));
    let empty = StatementTree::new();
    assert_eq!(function.add_statement(&empty, 0), Err(TacError::NoStatement));

    let mut lone_operator = StatementTree::new();
    lone_operator.add_node(StatementSymbol::Operator(Token::Oplus), None);
    assert_eq!(function.add_statement(&lone_operator, 0), Err(TacError::MissingOperand));

    let mut keyword_literal = StatementTree::new();
    keyword_literal.add_node(StatementSymbol::Literal(Token::Kif), None);
    assert_eq!(function.add_statement(&keyword_literal, 0), Err(TacError::InvalidLiteral));

    let mut bad_operator = StatementTree::new();
    let root = bad_operator.add_node(StatementSymbol::Operator(Token::Kif), None);
    bad_operator.add_node(StatementSymbol::Literal(Token::Tint(1)), Some(root));
    bad_operator.add_node(StatementSymbol::Literal(Token::Tint(2)), Some(root));
    assert_eq!(function.add_statement(&bad_operator, 0), Err(TacError::InvalidOperator));

    let mut broken = StatementTree::new();
    broken.add_node(StatementSymbol::Literal(Token::Tint(1)), None);
    broken.start = Some(5);
    assert_eq!(function.add_statement(&broken, 0), Err(TacError::BrokenLink));
}

#[test]
fn statements_are_written_in_the_canonical_form() {
    assert_eq!(TacStatement::Label(String::from("fi3")).to_log_message(), "fi3:\n");
    assert_eq!(
        TacStatement::Assignment(
            String::from("x0"),
            TacOperation {
                op: Some(Token::Olte),
                val1: TacValue::Var(String::from("y0")),
                val2: Some(TacValue::Int(4)),
            },
        )
        .to_log_message(),
        "\tx0 = y0 <= 4;\n"
    );
    assert_eq!(
        TacStatement::PointerAssignment(
            String::from("a0"),
            TacValue::Var(String::from("t0_")),
            TacOperation { op: None, val1: TacValue::Double(String::from("2.5")), val2: None },
        )
        .to_log_message(),
        "\t*(a0 + t0_) = 2.5;\n"
    );
    assert_eq!(
        TacStatement::Command(
            TacCommand::IfZ,
            Some(TacValue::IfArgs(String::from("t1_"), String::from("od2"))),
        )
        .to_log_message(),
        "\tIfZ t1_ Goto od2;\n"
    );
    assert_eq!(
        TacStatement::Command(TacCommand::PopParams, Some(TacValue::Int(12))).to_log_message(),
        "\tPopParams 12;\n"
    );
    assert_eq!(TacStatement::Command(TacCommand::EndFunc, None).to_log_message(), "\tEndFunc;\n");
    assert_eq!(TacValue::GetParams(8).to_log_message(), "GetParams 8");
    assert_eq!(TacValue::LCallArgs(String::from("f0")).to_log_message(), "LCall f0");
    assert_eq!(TacCommand::BeginFunc.to_log_message(), "BeginFunc");
}

#[test]
fn a_call_pushes_calls_binds_and_pops() {
    let mut f = TacFunctionInfo::new(String::from("main0"));
    f.add_assignment(
        String::from("a"),
        TacOperation { op: None, val1: TacValue::Int(1), val2: None },
    )
    .unwrap();
    f.add_call_func(String::from("g0"), vec![String::from("a")], Some(String::from("r")))
        .unwrap();
    f.add_call_func(String::from("print"), vec![String::from("a")], None).unwrap();
    let text = f.statements.to_log_message();
    assert_eq!(
        text,
        "\ta = 1;\n\tPushParam a;\n\tLCall g0;\n\tr = LCall g0;\n\tPopParams 4;\n\tPushParam a;\n\tLCall print;\n\tPopParams 4;\n"
    );
}
