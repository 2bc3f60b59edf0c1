use cp_compiler::intermediate_code_generation::perform_intermediate_code_generation;
use cp_compiler::lexical_analysis::perform_lexical_analysis;
use cp_compiler::semantic_analysis::SemanticErrorType;
use cp_compiler::syntax_semantic_analysis::{perform_syntax_semantic_analysis, SyntaxSemanticErrors};
use cp_compiler::tac::Loggable;

fn compile(source: &str) -> String {
    let tokens = perform_lexical_analysis(source.as_bytes().to_vec()).expect("tokens");
    let table = match perform_syntax_semantic_analysis(tokens) {
        Ok(table) => table,
        Err(errors) => panic!("{:?} {:?}", errors.syntax_errors, errors.semantic_errors),
    };
    let program = perform_intermediate_code_generation(&table).expect("code");
    program.to_log_message()
}

fn analysis_errors(source: &str) -> SyntaxSemanticErrors {
    let tokens = perform_lexical_analysis(source.as_bytes().to_vec()).expect("tokens");
    match perform_syntax_semantic_analysis(tokens) {
        Ok(_) => panic!("no error"),
        Err(errors) => errors,
    }
}

#[test]
fn empty_main() {
    assert_eq!(compile(".\n"), "\tGoto main0;\nmain0:\n\tBeginFunc 0;\n\tEndFunc;\n");
}

#[test]
fn assignment_of_a_sum() {
    assert_eq!(
        compile("int x; x = 3 + 4."),
        "\tGoto main0;\nmain0:\n\tBeginFunc 4;\n\tx0 = 3 + 4;\n\tEndFunc;\n"
    );
}

#[test]
fn assignment_to_an_array_element() {
    assert_eq!(
        compile("int a[3]; a[1] = 5."),
        "\tGoto main0;\nmain0:\n\tBeginFunc 16;\n\tt0_ = 1;\n\t*(a0 + t0_) = 5;\n\tEndFunc;\n"
    );
}

#[test]
fn if_with_else() {
    assert_eq!(
        compile("int x; x = 0; if x == 0 then x = 1; else x = 2; fi."),
        "\tGoto main0;\nmain0:\n\tBeginFunc 8;\n\tx0 = 0;\n\tt0_ = x0 == 0;\n\tIfZ t0_ Goto else0;\n\tx0 = 1;\n\tGoto fi1;\nelse0:\n\tx0 = 2;\nfi1:\n\tEndFunc;\n"
    );
}

#[test]
fn if_without_else() {
    assert_eq!(
        compile("int x; x = 0; if x == 0 then x = 1; fi."),
        "\tGoto main0;\nmain0:\n\tBeginFunc 8;\n\tx0 = 0;\n\tt0_ = x0 == 0;\n\tIfZ t0_ Goto fi0;\n\tx0 = 1;\nfi0:\n\tEndFunc;\n"
    );
}

#[test]
fn while_loop() {
    assert_eq!(
        compile("int i; i = 0; while i < 3 do i = i + 1; od."),
        "\tGoto main0;\nmain0:\n\tBeginFunc 8;\n\ti0 = 0;\nwhile0:\n\tt0_ = i0 < 3;\n\tIfZ t0_ Goto od1;\n\ti0 = i0 + 1;\n\tGoto while0;\nod1:\n\tEndFunc;\n"
    );
}

#[test]
fn function_with_call() {
    assert_eq!(
        compile("def int f(int x) return x + 1; fed; int y; y = f(2)."),
        "\tGoto main0;\nf0:\n\tBeginFunc 4;\n\tx1 = GetParams 4;\n\tt0_ = x1 + 1;\n\tReturn t0_;\n\tEndFunc;\nmain0:\n\tBeginFunc 12;\n\tt0_ = 2;\n\tPushParam t0_;\n\tLCall f0;\n\tt1_ = LCall f0;\n\tPopParams 4;\n\ty0 = t1_;\n\tEndFunc;\n"
    );
}

#[test]
fn type_mismatch_in_assignment() {
    let errors = analysis_errors("int x; double y; x = y.");
    assert!(errors.syntax_errors.is_empty());
    assert_eq!(errors.semantic_errors.len(), 1);
    assert_eq!(errors.semantic_errors[0].line, 1);
    assert_eq!(
        errors.semantic_errors[0].error_type,
        SemanticErrorType::TypeMismatch(String::from("double != int"))
    );
}

#[test]
fn nested_if_in_while_has_one_back_jump() {
    let text = compile(
        "int i; i = 0; while i < 3 do if i == 1 then i = i + 2; else i = i + 1; fi; od.",
    );
    assert_eq!(text.matches("\tGoto while0;\n").count(), 1);
    assert_eq!(text.matches(" Goto od1;\n").count(), 1);
    assert_eq!(text.matches("while0:\n").count(), 1);
    assert_eq!(text.matches("od1:\n").count(), 1);
}

#[test]
fn generation_is_repeatable() {
    let tokens = perform_lexical_analysis(
        b"def int f(int x) return x + 1; fed; int y; y = f(2); print y.".to_vec(),
    )
    .expect("tokens");
    let table = perform_syntax_semantic_analysis(tokens).ok().expect("table");
    let first = perform_intermediate_code_generation(&table).expect("code").to_log_message();
    let second = perform_intermediate_code_generation(&table).expect("code").to_log_message();
    assert_eq!(first, second);
}

#[test]
fn print_calls_the_host() {
    assert_eq!(
        compile("int x; x = 1; print x."),
        "\tGoto main0;\nmain0:\n\tBeginFunc 8;\n\tx0 = 1;\n\tt0_ = x0;\n\tPushParam t0_;\n\tLCall print;\n\tPopParams 4;\n\tEndFunc;\n"
    );
}

#[test]
fn undefined_variable_is_reported() {
    let errors = analysis_errors("x = 1.");
    assert!(errors
        .semantic_errors
        .iter()
        .any(|e| e.error_type == SemanticErrorType::UndefinedVariable(String::from("x"))));
}

#[test]
fn duplicate_declaration_is_reported() {
    let errors = analysis_errors("int x; int x; x = 1.");
    assert_eq!(
        errors.semantic_errors[0].error_type,
        SemanticErrorType::DuplicateDeclaration(String::from("Symbol x already declared in scope 0"))
    );
}
