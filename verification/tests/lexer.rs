use cp_compiler::lexical_analysis::{lexical_analysis, perform_lexical_analysis};
use cp_compiler::token::{InvalidToken, LexicalError, ParsedToken, Token};
use cp_compiler::transition_table::init_transition_table;

fn kinds(source: &str) -> Vec<Token> {
    perform_lexical_analysis(source.as_bytes().to_vec())
        .expect("tokens")
        .into_iter()
        .map(|t| t.token)
        .collect()
}

#[test]
fn empty_input_is_an_empty_file() {
    assert_eq!(perform_lexical_analysis(Vec::new()), Err(LexicalError::EmptyFile));
}

#[test]
fn comments_alone_hold_no_tokens() {
    assert_eq!(
        perform_lexical_analysis(b"// nothing\n/* at all */\n".to_vec()),
        Err(LexicalError::NoValidTokens)
    );
}

#[test]
fn unclosed_block_comment_ends_with_the_input() {
    assert_eq!(
        perform_lexical_analysis(b"/* never closed * / int x;".to_vec()),
        Err(LexicalError::NoValidTokens)
    );
    assert_eq!(
        perform_lexical_analysis(b"int /* never closed".to_vec()),
        Ok(vec![ParsedToken { token: Token::Kint, line: 1 }])
    );
}

#[test]
fn keywords_identifiers_and_literals() {
    assert_eq!(
        kinds("if iff fi x1 _y 12 3.5 1.5e+3 E"),
        vec![
            Token::Kif,
            Token::Identifier(String::from("iff")),
            Token::Kfi,
            Token::Identifier(String::from("x1")),
            Token::Identifier(String::from("_y")),
            Token::Tint(12),
            Token::Tdouble(String::from("3.5")),
            Token::Tdouble(String::from("1.5e+3")),
            Token::Identifier(String::from("E")),
        ]
    );
}

#[test]
fn every_keyword_is_recognized() {
    assert_eq!(
        kinds("if then else fi while do od def fed return and or not int double print"),
        vec![
            Token::Kif,
            Token::Kthen,
            Token::Kelse,
            Token::Kfi,
            Token::Kwhile,
            Token::Kdo,
            Token::Kod,
            Token::Kdef,
            Token::Kfed,
            Token::Kreturn,
            Token::Kand,
            Token::Kor,
            Token::Knot,
            Token::Kint,
            Token::Kdouble,
            Token::Kprint,
        ]
    );
}

#[test]
fn operators_and_separators() {
    assert_eq!(
        kinds("+ - * / % = == < <= > >= <> , ; . ( ) [ ]"),
        vec![
            Token::Oplus,
            Token::Ominus,
            Token::Omultiply,
            Token::Odivide,
            Token::Omod,
            Token::Oassign,
            Token::Oequal,
            Token::Olt,
            Token::Olte,
            Token::Ogt,
            Token::Ogte,
            Token::Onot,
            Token::Scomma,
            Token::Ssemicolon,
            Token::Speriod,
            Token::Soparen,
            Token::Scparen,
            Token::Sobracket,
            Token::Scbracket,
        ]
    );
}

#[test]
fn lines_are_counted() {
    let tokens = perform_lexical_analysis(b"int x;\n// note\nx = 1\n/* a\nb */ .".to_vec())
        .expect("tokens");
    let lines: Vec<usize> = tokens.iter().map(|t| t.line).collect();
    assert_eq!(lines, vec![1, 1, 1, 3, 3, 3, 5]);
}

#[test]
fn invalid_text_is_collected() {
    assert_eq!(
        perform_lexical_analysis(b"int x;\nx = 1 # 2 $.".to_vec()),
        Err(LexicalError::InvalidTokens(vec![
            InvalidToken { lexeme: String::from("#"), line: 2 },
            InvalidToken { lexeme: String::from("$"), line: 2 },
        ]))
    );
}

#[test]
fn integer_that_does_not_fit_is_invalid() {
    assert_eq!(
        perform_lexical_analysis(b"4294967296".to_vec()),
        Err(LexicalError::InvalidTokens(vec![InvalidToken {
            lexeme: String::from("4294967296"),
            line: 1
        }]))
    );
    assert_eq!(kinds("4294967295"), vec![Token::Tint(4294967295)]);
}

#[test]
fn tokens_that_straddle_buffers_are_whole() {
    let table = init_transition_table().expect("table");
    let source = b"int counter; counter = counter + 12345; while counter <= 20000 do print counter; od.";
    let wide = lexical_analysis(source.to_vec(), &table, 1024).expect("tokens");
    for size in 8..40 {
        let narrow = lexical_analysis(source.to_vec(), &table, size).expect("tokens");
        assert_eq!(narrow, wide, "size {}", size);
    }
}

#[test]
fn a_lexeme_longer_than_the_buffers_is_cut() {
    let table = init_transition_table().expect("table");
    let tokens = lexical_analysis(b"abcdefghij".to_vec(), &table, 4).expect("tokens");
    assert_eq!(
        tokens,
        vec![
            ParsedToken { token: Token::Identifier(String::from("abcdefg")), line: 1 },
            ParsedToken { token: Token::Identifier(String::from("hij")), line: 1 },
        ]
    );
}

#[test]
fn buffers_of_one_byte_are_refused() {
    let table = init_transition_table().expect("table");
    assert!(matches!(
        lexical_analysis(b"int".to_vec(), &table, 1),
        Err(LexicalError::FileReadError(_))
    ));
}

#[test]
fn a_dot_after_an_integer_is_the_period() {
    assert_eq!(kinds("x = 3 + 4."), vec![
        Token::Identifier(String::from("x")),
        Token::Oassign,
        Token::Tint(3),
        Token::Oplus,
        Token::Tint(4),
        Token::Speriod,
    ]);
    assert_eq!(kinds("1.5e+ 2.e"), vec![
        Token::Tdouble(String::from("1.5")),
        Token::Identifier(String::from("e")),
        Token::Oplus,
        Token::Tint(2),
        Token::Speriod,
        Token::Identifier(String::from("e")),
    ]);
}
