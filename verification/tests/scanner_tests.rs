use xhtml_highlighter::scanner::Scanner;
use xhtml_highlighter::token::{Token, TokenType};

fn scan(source: &str) -> Vec<(String, TokenType, usize, usize)> {
    let mut scanner = Scanner::new(source);
    let mut found = Vec::new();
    loop {
        match scanner.get_next_token() {
            Some(token) => found.push(describe(&token)),
            None => break,
        }
    }
    found
}

fn describe(token: &Token) -> (String, TokenType, usize, usize) {
    (
        token.get_text().to_string(),
        *token.get_type(),
        token.get_line_number(),
        token.get_char_pos(),
    )
}

fn entry(
    text: &str,
    token_type: TokenType,
    line: usize,
    column: usize,
) -> (String, TokenType, usize, usize) {
    (text.to_string(), token_type, line, column)
}

#[test]
fn empty_source_has_no_token() {
    let mut scanner = Scanner::new("");
    assert!(scanner.get_next_token().is_none());
    assert!(scanner.get_next_token().is_none());
}

#[test]
fn separators_are_never_tokens() {
    assert_eq!(scan(" \t\n(){};"), vec![]);
}

#[test]
fn integer_constant() {
    assert_eq!(scan("12"), vec![entry("12", TokenType::INTCONSTANT, 1, 1)]);
}

#[test]
fn float_constant() {
    assert_eq!(scan("12.5"), vec![entry("12.5", TokenType::FLOATCONSTANT, 1, 1)]);
}

#[test]
fn point_without_digit_is_invalid() {
    assert_eq!(scan("12.x"), vec![entry("12.", TokenType::INVALID, 1, 1)]);
    assert_eq!(scan("12.;"), vec![entry("12.", TokenType::INVALID, 1, 1)]);
    assert_eq!(scan("12."), vec![entry("12.", TokenType::INVALID, 1, 1)]);
    assert_eq!(
        scan("12.+3"),
        vec![
            entry("12.", TokenType::INVALID, 1, 1),
            entry("+", TokenType::OPERATOR, 1, 4),
            entry("3", TokenType::INTCONSTANT, 1, 5),
        ]
    );
}

#[test]
fn second_point_ends_the_number() {
    assert_eq!(
        scan("1.5.25"),
        vec![
            entry("1.5", TokenType::FLOATCONSTANT, 1, 1),
            entry("25", TokenType::INTCONSTANT, 1, 5),
        ]
    );
}

#[test]
fn two_character_operators_fold() {
    assert_eq!(scan("=="), vec![entry("==", TokenType::OPERATOR, 1, 1)]);
    assert_eq!(scan("<="), vec![entry("<=", TokenType::OPERATOR, 1, 1)]);
    assert_eq!(scan(">="), vec![entry(">=", TokenType::OPERATOR, 1, 1)]);
    assert_eq!(scan("!="), vec![entry("!=", TokenType::OPERATOR, 1, 1)]);
}

#[test]
fn single_operator_leaves_the_next_character() {
    assert_eq!(
        scan("=5"),
        vec![entry("=", TokenType::OPERATOR, 1, 1), entry("5", TokenType::INTCONSTANT, 1, 2)]
    );
    assert_eq!(
        scan("=-"),
        vec![entry("=", TokenType::OPERATOR, 1, 1), entry("-", TokenType::OPERATOR, 1, 2)]
    );
    assert_eq!(
        scan("= ="),
        vec![entry("=", TokenType::OPERATOR, 1, 1), entry("=", TokenType::OPERATOR, 1, 3)]
    );
    assert_eq!(
        scan("==="),
        vec![entry("==", TokenType::OPERATOR, 1, 1), entry("=", TokenType::OPERATOR, 1, 3)]
    );
}

#[test]
fn every_operator_character_begins_an_operator() {
    for op in ["=", "+", "-", "*", "/", "<", ">", "!"] {
        assert_eq!(scan(op), vec![entry(op, TokenType::OPERATOR, 1, 1)]);
    }
    assert_eq!(scan("+="), vec![entry("+=", TokenType::OPERATOR, 1, 1)]);
}

#[test]
fn operator_ends_a_word_and_a_number() {
    assert_eq!(
        scan("a+1<b"),
        vec![
            entry("a", TokenType::VARIABLE, 1, 1),
            entry("+", TokenType::OPERATOR, 1, 2),
            entry("1", TokenType::INTCONSTANT, 1, 3),
            entry("<", TokenType::OPERATOR, 1, 4),
            entry("b", TokenType::VARIABLE, 1, 5),
        ]
    );
}

#[test]
fn keywords_are_recognised() {
    for word in [
        "unsigned", "char", "short", "int", "long", "float", "double", "void", "main", "while",
        "for", "if", "return",
    ] {
        assert_eq!(scan(word), vec![entry(word, TokenType::KEYWORD, 1, 1)]);
    }
}

#[test]
fn unknown_word_is_a_variable() {
    assert_eq!(scan("count2"), vec![entry("count2", TokenType::VARIABLE, 1, 1)]);
    assert_eq!(scan("Int"), vec![entry("Int", TokenType::VARIABLE, 1, 1)]);
}

#[test]
fn stray_character_is_invalid() {
    assert_eq!(scan("#"), vec![entry("#", TokenType::INVALID, 1, 1)]);
    assert_eq!(
        scan("a , b"),
        vec![
            entry("a", TokenType::VARIABLE, 1, 1),
            entry(",", TokenType::INVALID, 1, 3),
            entry("b", TokenType::VARIABLE, 1, 5),
        ]
    );
}

#[test]
fn character_that_ends_a_word_or_a_number_is_consumed() {
    assert_eq!(
        scan("a,b"),
        vec![entry("a", TokenType::VARIABLE, 1, 1), entry("b", TokenType::VARIABLE, 1, 3)]
    );
    assert_eq!(
        scan("1,2"),
        vec![entry("1", TokenType::INTCONSTANT, 1, 1), entry("2", TokenType::INTCONSTANT, 1, 3)]
    );
    assert_eq!(
        scan("12abc"),
        vec![entry("12", TokenType::INTCONSTANT, 1, 1), entry("bc", TokenType::VARIABLE, 1, 4)]
    );
}

#[test]
fn word_before_parenthesis_is_a_function() {
    assert_eq!(
        scan("add(x)"),
        vec![entry("add", TokenType::FUNCTION, 1, 1), entry("x", TokenType::VARIABLE, 1, 5)]
    );
}

#[test]
fn blank_before_parenthesis_makes_no_function() {
    assert_eq!(scan("add (x)")[0], entry("add", TokenType::VARIABLE, 1, 1));
}

#[test]
fn function_stays_a_function() {
    assert_eq!(
        scan("f(1) f f;"),
        vec![
            entry("f", TokenType::FUNCTION, 1, 1),
            entry("1", TokenType::INTCONSTANT, 1, 3),
            entry("f", TokenType::FUNCTION, 1, 6),
            entry("f", TokenType::FUNCTION, 1, 8),
        ]
    );
}

#[test]
fn earlier_bare_use_is_a_variable_while_scanning() {
    assert_eq!(
        scan("f f(1)"),
        vec![
            entry("f", TokenType::VARIABLE, 1, 1),
            entry("f", TokenType::FUNCTION, 1, 3),
            entry("1", TokenType::INTCONSTANT, 1, 5),
        ]
    );
}

#[test]
fn scan_all_classifies_by_the_final_table() {
    let mut scanner = Scanner::new("f f(1)");
    let tokens: Vec<_> = scanner.scan_all().iter().map(describe).collect();
    assert_eq!(
        tokens,
        vec![
            entry("f", TokenType::FUNCTION, 1, 1),
            entry("f", TokenType::FUNCTION, 1, 3),
            entry("1", TokenType::INTCONSTANT, 1, 5),
        ]
    );
    assert!(scanner.get_next_token().is_none());
}

#[test]
fn scan_all_after_some_tokens_gives_the_rest() {
    let mut scanner = Scanner::new("int x = 5;");
    assert_eq!(
        describe(&scanner.get_next_token().unwrap()),
        entry("int", TokenType::KEYWORD, 1, 1)
    );
    let rest: Vec<_> = scanner.scan_all().iter().map(describe).collect();
    assert_eq!(
        rest,
        vec![
            entry("x", TokenType::VARIABLE, 1, 5),
            entry("=", TokenType::OPERATOR, 1, 7),
            entry("5", TokenType::INTCONSTANT, 1, 9),
        ]
    );
}

#[test]
fn keyword_before_parenthesis_stays_a_keyword() {
    assert_eq!(scan("main()"), vec![entry("main", TokenType::KEYWORD, 1, 1)]);
    assert_eq!(scan("while(x)")[0], entry("while", TokenType::KEYWORD, 1, 1));
}

#[test]
fn lookup_follows_the_table() {
    let mut scanner = Scanner::new("g(h)");
    assert_eq!(scanner.lookup("g"), TokenType::VARIABLE);
    assert_eq!(scanner.lookup("int"), TokenType::KEYWORD);
    scanner.get_next_token();
    assert_eq!(scanner.lookup("g"), TokenType::FUNCTION);
    assert_eq!(scanner.lookup("h"), TokenType::VARIABLE);
    scanner.get_next_token();
    assert_eq!(scanner.lookup("h"), TokenType::VARIABLE);
}

#[test]
fn lines_and_columns_are_those_of_the_first_character() {
    assert_eq!(
        scan("int  x;\n\n  y = 12.5;\nwhile"),
        vec![
            entry("int", TokenType::KEYWORD, 1, 1),
            entry("x", TokenType::VARIABLE, 1, 6),
            entry("y", TokenType::VARIABLE, 3, 3),
            entry("=", TokenType::OPERATOR, 3, 5),
            entry("12.5", TokenType::FLOATCONSTANT, 3, 7),
            entry("while", TokenType::KEYWORD, 4, 1),
        ]
    );
}

#[test]
fn newline_directly_behind_a_token_counts() {
    assert_eq!(
        scan("a\nb\n1\n2"),
        vec![
            entry("a", TokenType::VARIABLE, 1, 1),
            entry("b", TokenType::VARIABLE, 2, 1),
            entry("1", TokenType::INTCONSTANT, 3, 1),
            entry("2", TokenType::INTCONSTANT, 4, 1),
        ]
    );
}

#[test]
fn token_texts_reproduce_the_source_without_separators() {
    let source = "int x = 5; void main(){ return x; }";
    let texts: String = scan(source).iter().map(|t| t.0.as_str()).collect();
    let kept: String = source
        .chars()
        .filter(|c| !" \t\n(){};".contains(*c))
        .collect();
    assert_eq!(texts, kept);
    assert_eq!(texts, "intx=5voidmainreturnx");
}

#[test]
fn declaration_and_call_of_a_function() {
    let tokens = scan("int add(int a, int b); void main(){ return add(1,2); }");
    let expected = vec![
        entry("int", TokenType::KEYWORD, 1, 1),
        entry("add", TokenType::FUNCTION, 1, 5),
        entry("int", TokenType::KEYWORD, 1, 9),
        entry("a", TokenType::VARIABLE, 1, 13),
        entry("int", TokenType::KEYWORD, 1, 16),
        entry("b", TokenType::VARIABLE, 1, 20),
        entry("void", TokenType::KEYWORD, 1, 24),
        entry("main", TokenType::KEYWORD, 1, 29),
        entry("return", TokenType::KEYWORD, 1, 37),
        entry("add", TokenType::FUNCTION, 1, 44),
        entry("1", TokenType::INTCONSTANT, 1, 48),
        entry("2", TokenType::INTCONSTANT, 1, 50),
    ];
    assert_eq!(tokens, expected);
}
