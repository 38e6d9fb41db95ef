use xhtml_highlighter::error::ParseError;
use xhtml_highlighter::grammar::SyntaxErrorKind;
use xhtml_highlighter::parser::Parser;
use xhtml_highlighter::prettifier::Prettifier;
use xhtml_highlighter::token::{Token, TokenType};

const TABLE: &str = "CATEGORY,BACKGROUND,FOREGROUND,FONT
DEFAULT,navy,gray,Courier New
FUNCTION,navy,orange,Courier New
VARIABLE,navy,yellow,Courier New
FLOAT_CONSTANT,navy,lime,Courier New
INT_CONSTANT,navy,aqua,Courier New
OPERATOR,navy,silver,Courier New
KEYWORD,navy,white,Courier New
";

fn scheme() -> Prettifier {
    Prettifier::new(TABLE).unwrap()
}

fn kw(text: &str) -> String {
    format!("<font color=\"white\"><b>{}</b></font>", text)
}

fn op(text: &str) -> String {
    format!("<font color=\"silver\"><b>{}</b></font>", text)
}

fn num(text: &str) -> String {
    format!("<font color=\"aqua\"><b>{}</b></font>", text)
}

fn dec(text: &str) -> String {
    format!("<font color=\"lime\"><b>{}</b></font>", text)
}

fn var(text: &str) -> String {
    format!("<font color=\"yellow\">{}</font>", text)
}

fn fun(text: &str) -> String {
    format!("<font color=\"orange\">{}</font>", text)
}

fn render(source: &str) -> Result<String, ParseError> {
    let mut parser = Parser::new(source, scheme());
    match parser.parse() {
        Ok(()) => Ok(parser.get_result().to_string()),
        Err(e) => {
            assert_eq!(parser.get_result(), "");
            Err(e)
        }
    }
}

fn syntax(kind: SyntaxErrorKind, line_number: usize, char_position: usize) -> ParseError {
    ParseError::Syntax { kind, line_number, char_position }
}

fn main_with(body: &str) -> String {
    format!("{} {}() {{\n{}}}\n", kw("void"), kw("main"), body)
}

#[test]
fn global_variable_and_return_are_coloured() {
    let out = render("int x = 5; void main(){ return x; }").unwrap();
    assert!(out.contains("<font color=\"white\"><b>int</b></font>"));
    assert!(out.contains("<font color=\"yellow\">x</font>"));
    assert!(out.contains("<font color=\"aqua\"><b>5</b></font>"));
    assert!(out.contains(
        "<font color=\"white\"><b>void</b></font> <font color=\"white\"><b>main</b></font>()"
    ));
    let block = &out[out.find("{\n").unwrap()..];
    assert!(block.contains(
        "<font color=\"white\"><b>return</b></font> <font color=\"yellow\">x</font>"
    ));
    let expected = format!(
        "{} {} {} {};\n{}",
        kw("int"),
        var("x"),
        op("="),
        num("5"),
        main_with(&format!("{} {};\n", kw("return"), var("x")))
    );
    assert_eq!(out, expected);
}

#[test]
fn misspelled_entry_point_is_rejected() {
    let mut parser = Parser::new("void man(){}", scheme());
    let error = parser.parse().unwrap_err();
    assert_eq!(error, syntax(SyntaxErrorKind::ExpectedMain, 1, 6));
    assert!(error.message().contains("main"));
    assert_eq!(error.line_number(), 1);
    assert_eq!(error.char_position(), 6);
    assert_eq!(parser.get_result(), "");
}

#[test]
fn function_is_coloured_where_declared_and_where_called() {
    let source = "int add(int a, int b); void main(){ return add(1,2); }";
    let parser = Parser::new(source, scheme());
    let adds: Vec<&Token> = parser
        .get_tokens()
        .iter()
        .filter(|t| t.get_text() == "add")
        .collect();
    assert_eq!(adds.len(), 2);
    assert_eq!(*adds[0].get_type(), TokenType::FUNCTION);
    assert_eq!(*adds[1].get_type(), TokenType::FUNCTION);
    let out = render(source).unwrap();
    assert_eq!(out.matches("<font color=\"orange\">add</font>").count(), 2);
    let expected = format!(
        "{} {}({} {}, {} {});\n{}",
        kw("int"),
        fun("add"),
        kw("int"),
        var("a"),
        kw("int"),
        var("b"),
        main_with(&format!(
            "{} {}({}, {});\n",
            kw("return"),
            fun("add"),
            num("1"),
            num("2")
        ))
    );
    assert_eq!(out, expected);
}

#[test]
fn name_used_before_its_first_call_is_a_function() {
    let parser = Parser::new("void main(){ x = f; y = f(1); }", scheme());
    let kinds: Vec<TokenType> = parser
        .get_tokens()
        .iter()
        .filter(|t| t.get_text() == "f")
        .map(|t| *t.get_type())
        .collect();
    assert_eq!(kinds, vec![TokenType::FUNCTION, TokenType::FUNCTION]);
}

#[test]
fn empty_program_lacks_its_entry_point() {
    assert_eq!(render(""), Err(syntax(SyntaxErrorKind::ExpectedVoid, 0, 0)));
    assert_eq!(render(" \n ;"), Err(syntax(SyntaxErrorKind::ExpectedVoid, 0, 0)));
}

#[test]
fn declarations_without_entry_point() {
    assert_eq!(render("int x;\nint y;"), Err(syntax(SyntaxErrorKind::ExpectedVoid, 2, 5)));
}

#[test]
fn void_alone_lacks_main() {
    assert_eq!(render("void"), Err(syntax(SyntaxErrorKind::ExpectedMain, 1, 1)));
    assert_eq!(render("void\n  x"), Err(syntax(SyntaxErrorKind::ExpectedMain, 2, 3)));
}

#[test]
fn smallest_program() {
    assert_eq!(render("void main(){}"), Ok(main_with("")));
    assert_eq!(render("void main"), Ok(main_with("")));
}

#[test]
fn declaration_without_value() {
    assert_eq!(
        render("char c; void main(){}"),
        Ok(format!("{} {};\n{}", kw("char"), var("c"), main_with("")))
    );
}

#[test]
fn every_data_type() {
    for name in ["char", "short", "int", "long", "float", "double"] {
        assert_eq!(
            render(&format!("{} v; void main(){{}}", name)),
            Ok(format!("{} {};\n{}", kw(name), var("v"), main_with("")))
        );
        assert_eq!(
            render(&format!("unsigned {} v; void main(){{}}", name)),
            Ok(format!(
                "{} {} {};\n{}",
                kw("unsigned"),
                kw(name),
                var("v"),
                main_with("")
            ))
        );
    }
}

#[test]
fn float_value_and_unary_minus() {
    assert_eq!(
        render("double d = -2.5; void main(){}"),
        Ok(format!(
            "{} {} {} {}{};\n{}",
            kw("double"),
            var("d"),
            op("="),
            op("-"),
            dec("2.5"),
            main_with("")
        ))
    );
}

#[test]
fn invalid_data_type() {
    assert_eq!(
        render("x = 5; void main(){}"),
        Err(syntax(SyntaxErrorKind::InvalidDataType, 1, 1))
    );
    assert_eq!(
        render("unsigned x; void main(){}"),
        Err(syntax(SyntaxErrorKind::InvalidDataType, 1, 10))
    );
    assert_eq!(
        render("unsigned unsigned int x; void main(){}"),
        Err(syntax(SyntaxErrorKind::InvalidDataType, 1, 10))
    );
    assert_eq!(
        render("int x;\nunsigned"),
        Err(syntax(SyntaxErrorKind::InvalidDataType, 2, 1))
    );
}

#[test]
fn invalid_identifier() {
    assert_eq!(
        render("int 5; void main(){}"),
        Err(syntax(SyntaxErrorKind::InvalidIdentifier, 1, 5))
    );
    assert_eq!(
        render("int int; void main(){}"),
        Err(syntax(SyntaxErrorKind::InvalidIdentifier, 1, 5))
    );
    assert_eq!(
        render("void main(){ return while; }"),
        Err(syntax(SyntaxErrorKind::InvalidIdentifier, 1, 21))
    );
    assert_eq!(
        render("void main(){ return"),
        Err(syntax(SyntaxErrorKind::InvalidIdentifier, 1, 14))
    );
}

#[test]
fn invalid_assignment() {
    assert_eq!(
        render("void main(){ x 5; }"),
        Err(syntax(SyntaxErrorKind::InvalidAssignment, 1, 16))
    );
    assert_eq!(
        render("void main(){\n  x\n}"),
        Err(syntax(SyntaxErrorKind::InvalidAssignment, 2, 3))
    );
    assert_eq!(
        render("void main(){ x == 5; }"),
        Err(syntax(SyntaxErrorKind::InvalidAssignment, 1, 16))
    );
}

#[test]
fn invalid_constant() {
    assert_eq!(
        render("int x = y; void main(){}"),
        Err(syntax(SyntaxErrorKind::InvalidConstant, 1, 9))
    );
    assert_eq!(
        render("int x = - y; void main(){}"),
        Err(syntax(SyntaxErrorKind::InvalidConstant, 1, 11))
    );
    assert_eq!(
        render("int x ="),
        Err(syntax(SyntaxErrorKind::InvalidConstant, 1, 7))
    );
}

#[test]
fn unsupported_unary_operator() {
    assert_eq!(
        render("int x = +5; void main(){}"),
        Err(syntax(SyntaxErrorKind::UnsupportedUnaryOperator, 1, 9))
    );
    assert_eq!(
        render("void main(){ return *x; }"),
        Err(syntax(SyntaxErrorKind::UnsupportedUnaryOperator, 1, 21))
    );
    assert_eq!(
        render("void main(){ x = 1 + !2; }"),
        Err(syntax(SyntaxErrorKind::UnsupportedUnaryOperator, 1, 22))
    );
}

#[test]
fn invalid_token_is_a_lexical_error() {
    let error = render("int x = 12.; void main(){}").unwrap_err();
    assert_eq!(
        error,
        ParseError::Lex { fragment: "12.".to_string(), line_number: 1, char_position: 9 }
    );
    assert_eq!(error.message(), "invalid token: 12.");
    assert_eq!(error.line_number(), 1);
    assert_eq!(error.char_position(), 9);
}

#[test]
fn lexical_error_comes_before_any_syntax_error() {
    assert_eq!(
        render("x = 5;\nvoid main(){ # }"),
        Err(ParseError::Lex { fragment: "#".to_string(), line_number: 2, char_position: 14 })
    );
}

#[test]
fn first_invalid_token_is_reported() {
    assert_eq!(
        render("void main(){ $ # }"),
        Err(ParseError::Lex { fragment: "$".to_string(), line_number: 1, char_position: 14 })
    );
}

#[test]
fn messages_of_syntax_errors() {
    assert_eq!(SyntaxErrorKind::ExpectedVoid.message(), "invalid main declaration: void");
    assert_eq!(SyntaxErrorKind::ExpectedMain.message(), "invalid main declaration: main");
    assert_eq!(SyntaxErrorKind::InvalidDataType.message(), "invalid data type");
    assert_eq!(SyntaxErrorKind::InvalidIdentifier.message(), "invalid identifier");
    assert_eq!(SyntaxErrorKind::InvalidAssignment.message(), "invalid assignment");
    assert_eq!(SyntaxErrorKind::InvalidConstant.message(), "invalid constant");
    assert_eq!(
        SyntaxErrorKind::UnsupportedUnaryOperator.message(),
        "unsupported unary operator"
    );
    assert_eq!(
        syntax(SyntaxErrorKind::InvalidAssignment, 4, 2).message(),
        "invalid assignment"
    );
}

#[test]
fn assignment_with_several_targets() {
    assert_eq!(
        render("void main(){ a = b = c = 1; }"),
        Ok(main_with(&format!(
            "{} {} {} {} {} {} {};\n",
            var("a"),
            op("="),
            var("b"),
            op("="),
            var("c"),
            op("="),
            num("1")
        )))
    );
}

#[test]
fn assignment_of_a_variable() {
    assert_eq!(
        render("void main(){ a = b; }"),
        Ok(main_with(&format!("{} {} {};\n", var("a"), op("="), var("b"))))
    );
}

#[test]
fn expression_with_all_levels() {
    assert_eq!(
        render("void main(){ x = a + 2 * b - 1.5 / c <= d; }"),
        Ok(main_with(&format!(
            "{} {} {} {} {} {} {} {} {} {} {} {} {};\n",
            var("x"),
            op("="),
            var("a"),
            op("+"),
            num("2"),
            op("*"),
            var("b"),
            op("-"),
            dec("1.5"),
            op("/"),
            var("c"),
            op("<="),
            var("d")
        )))
    );
}

#[test]
fn every_relational_operator() {
    for sign in ["==", "<", ">", "<=", ">=", "!="] {
        assert_eq!(
            render(&format!("void main(){{ return a {} b; }}", sign)),
            Ok(main_with(&format!(
                "{} {} {} {};\n",
                kw("return"),
                var("a"),
                op(sign),
                var("b")
            )))
        );
    }
}

#[test]
fn second_relational_operator_is_no_part_of_the_expression() {
    assert_eq!(
        render("void main(){ return a < b < c; }"),
        Err(syntax(SyntaxErrorKind::InvalidDataType, 1, 27))
    );
}

#[test]
fn negative_operand() {
    assert_eq!(
        render("void main(){ x = 2 * -3; }"),
        Ok(main_with(&format!(
            "{} {} {} {} {}{};\n",
            var("x"),
            op("="),
            num("2"),
            op("*"),
            op("-"),
            num("3")
        )))
    );
}

#[test]
fn while_loop_with_block() {
    assert_eq!(
        render("void main(){\n  while (i < 10) {\n    i = i + 1;\n  }\n}"),
        Ok(main_with(&format!(
            "{} ({} {} {}) {{\n{} {} {} {} {};\n}}\n",
            kw("while"),
            var("i"),
            op("<"),
            num("10"),
            var("i"),
            op("="),
            var("i"),
            op("+"),
            num("1")
        )))
    );
}

#[test]
fn if_statement_with_declaration_in_its_block() {
    assert_eq!(
        render("void main(){ if (a == b) { int t = 1; a = t; } }"),
        Ok(main_with(&format!(
            "{} ({} {} {}) {{\n{} {} {} {};\n{} {} {};\n}}\n",
            kw("if"),
            var("a"),
            op("=="),
            var("b"),
            kw("int"),
            var("t"),
            op("="),
            num("1"),
            var("a"),
            op("="),
            var("t")
        )))
    );
}

#[test]
fn statements_behind_an_inner_block_belong_to_it() {
    assert_eq!(
        render("void main(){ while (a) { a = 1; } return a; }"),
        Ok(main_with(&format!(
            "{} ({}) {{\n{} {} {};\n{} {};\n}}\n",
            kw("while"),
            var("a"),
            var("a"),
            op("="),
            num("1"),
            kw("return"),
            var("a")
        )))
    );
}

#[test]
fn condition_at_the_end_of_the_tokens() {
    assert_eq!(
        render("void main(){ if (a)"),
        Ok(main_with(&format!("{} ({}) {{\n}}\n", kw("if"), var("a"))))
    );
}

#[test]
fn block_ends_at_the_first_token_that_begins_no_statement() {
    assert_eq!(
        render("void main(){ return x; } 5"),
        Err(syntax(SyntaxErrorKind::InvalidDataType, 1, 26))
    );
}

#[test]
fn function_definition_behind_main() {
    assert_eq!(
        render("void main(){ return 0; }\nint twice(int n) {\n  return n * 2;\n}\n"),
        Ok(format!(
            "{}{} {}({} {}) {{\n{} {} {} {};\n}}\n",
            main_with(&format!("{} {};\n", kw("return"), num("0"))),
            kw("int"),
            fun("twice"),
            kw("int"),
            var("n"),
            kw("return"),
            var("n"),
            op("*"),
            num("2")
        ))
    );
}

#[test]
fn data_type_behind_an_empty_block_is_a_declaration_in_it() {
    assert_eq!(
        render("void main(){ }\nint twice(int n) {\n  return n * 2;\n}\n"),
        Ok(main_with(&format!(
            "{} {}({} {});\n{} {} {} {};\n",
            kw("int"),
            fun("twice"),
            kw("int"),
            var("n"),
            kw("return"),
            var("n"),
            op("*"),
            num("2")
        )))
    );
}

#[test]
fn function_definition_without_parameters() {
    assert_eq!(
        render("void main(){ x = 1; }\nfloat one() { return 1.0; }"),
        Ok(format!(
            "{}{} {}() {{\n{} {};\n}}\n",
            main_with(&format!("{} {} {};\n", var("x"), op("="), num("1"))),
            kw("float"),
            fun("one"),
            kw("return"),
            dec("1.0")
        ))
    );
}

#[test]
fn parameters_go_on_only_on_the_same_line() {
    assert_eq!(
        render("int f(int a);\nint g;\nvoid main(){}"),
        Ok(format!(
            "{} {}({} {});\n{} {};\n{}",
            kw("int"),
            fun("f"),
            kw("int"),
            var("a"),
            kw("int"),
            var("g"),
            main_with("")
        ))
    );
    assert_eq!(
        render("int f(int a,\n  int b); void main(){}"),
        Ok(format!(
            "{} {}({} {});\n{} {};\n{}",
            kw("int"),
            fun("f"),
            kw("int"),
            var("a"),
            kw("int"),
            var("b"),
            main_with("")
        ))
    );
}

#[test]
fn first_parameter_is_taken_on_any_line() {
    assert_eq!(
        render("int f();\nint g;\nvoid main(){}"),
        Ok(format!(
            "{} {}({} {});\n{}",
            kw("int"),
            fun("f"),
            kw("int"),
            var("g"),
            main_with("")
        ))
    );
}

#[test]
fn three_parameters() {
    assert_eq!(
        render("long f(char a, unsigned short b, double c); void main(){}"),
        Ok(format!(
            "{} {}({} {}, {} {} {}, {} {});\n{}",
            kw("long"),
            fun("f"),
            kw("char"),
            var("a"),
            kw("unsigned"),
            kw("short"),
            var("b"),
            kw("double"),
            var("c"),
            main_with("")
        ))
    );
}

#[test]
fn arguments_go_on_only_on_the_same_line() {
    assert_eq!(
        render("void main(){ x = f(a, 2, g(b)); }"),
        Ok(main_with(&format!(
            "{} {} {}({}, {}, {}({}));\n",
            var("x"),
            op("="),
            fun("f"),
            var("a"),
            num("2"),
            fun("g"),
            var("b")
        )))
    );
    assert_eq!(
        render("void main(){ x = f(a)\n y = 2; }"),
        Ok(main_with(&format!(
            "{} {} {}({});\n{} {} {};\n",
            var("x"),
            op("="),
            fun("f"),
            var("a"),
            var("y"),
            op("="),
            num("2")
        )))
    );
}

#[test]
fn argument_may_be_an_expression() {
    assert_eq!(
        render("void main(){ return f(a + 1, b * 2); }"),
        Ok(main_with(&format!(
            "{} {}({} {} {}, {} {} {});\n",
            kw("return"),
            fun("f"),
            var("a"),
            op("+"),
            num("1"),
            var("b"),
            op("*"),
            num("2")
        )))
    );
}

#[test]
fn call_without_argument_is_no_call() {
    assert_eq!(
        render("void main(){ x = f(); }"),
        Err(syntax(SyntaxErrorKind::InvalidIdentifier, 1, 18))
    );
}

#[test]
fn tokens_made_by_hand() {
    let tokens = vec![
        Token::new("void".to_string(), TokenType::KEYWORD, 1, 1),
        Token::new("main".to_string(), TokenType::KEYWORD, 1, 6),
        Token::new("return".to_string(), TokenType::KEYWORD, 2, 1),
        Token::new("?".to_string(), TokenType::NONE, 2, 8),
    ];
    let mut parser = Parser::from_tokens(tokens, scheme());
    assert_eq!(
        parser.parse(),
        Err(syntax(SyntaxErrorKind::InvalidIdentifier, 2, 8))
    );
    assert_eq!(parser.get_result(), "");
    assert_eq!(parser.get_tokens().len(), 4);
}

#[test]
fn nothing_is_written_before_parse() {
    let parser = Parser::new("void main(){}", scheme());
    assert_eq!(parser.get_result(), "");
    assert_eq!(parser.get_tokens().len(), 2);
}

#[test]
fn second_parse_finds_no_token_left() {
    let mut parser = Parser::new("void main(){}", scheme());
    assert_eq!(parser.parse(), Ok(()));
    assert_eq!(
        parser.parse(),
        Err(syntax(SyntaxErrorKind::ExpectedVoid, 1, 6))
    );
    assert_eq!(parser.get_result(), "");
}

#[test]
fn report_of_the_tokens() {
    let parser = Parser::new("int x;\n  x = 10", scheme());
    assert_eq!(
        parser.lex_results(),
        "text: int\ntoken type: Keyword\nline number: 1\nchar position: 1\n\
=======================================\n\
text: x\ntoken type: Variable\nline number: 1\nchar position: 5\n\
=======================================\n\
text: x\ntoken type: Variable\nline number: 2\nchar position: 3\n\
=======================================\n\
text: =\ntoken type: Operator\nline number: 2\nchar position: 5\n\
=======================================\n\
text: 10\ntoken type: IntConstant\nline number: 2\nchar position: 7\n\
=======================================\n"
    );
    assert_eq!(Parser::new("", scheme()).lex_results(), "");
}

#[test]
fn page_around_the_program() {
    let mut parser = Parser::new("void main(){}", scheme());
    parser.parse().unwrap();
    let page = parser.to_xhtml();
    let expected = format!(
        "<!DOCTYPE html PUBLIC \"-//W3C//DTD XHTML 1.0 Transitional//EN\" \
\"http://www.w3.org/TR/xhtml1/DTD/xhtml1-transitional.dtd\">\n\
<html xmlns=\"http://www.w3.org/1999/xhtml\" xml:lang=\"en\">\n\
<head>\n<title>Formatted source</title>\n</head>\n\
<body bgcolor=\"navy\" text=\"gray\" link=\"gray\" vlink=\"gray\">\n\
<font face=Courier New>\n{}</font>\n</body>\n</html>\n",
        main_with("")
    );
    assert_eq!(page, expected);
}

#[test]
fn clone_goes_its_own_way() {
    let fresh = Parser::new("int x; void main(){ x = 1; }", scheme());
    let mut copy = fresh.clone();
    assert_eq!(copy.parse(), Ok(()));
    assert_eq!(fresh.get_result(), "");
    assert_eq!(copy.get_tokens().len(), fresh.get_tokens().len());
    let mut second = fresh.clone();
    assert_eq!(second.parse(), Ok(()));
    assert_eq!(second.get_result(), copy.get_result());
    assert_eq!(copy.clone().get_result(), copy.get_result());
}

#[test]
fn page_before_parse_has_an_empty_body() {
    let parser = Parser::new("void main(){}", scheme());
    let page = parser.to_xhtml();
    assert!(page.starts_with("<!DOCTYPE html PUBLIC"));
    assert!(page.ends_with("<font face=Courier New>\n</font>\n</body>\n</html>\n"));
}

#[test]
fn program_is_written_behind_nothing_else() {
    let source = "int x = 5;\nvoid main(){ while (x > 0) { x = x - 1; } }";
    let mut parser = Parser::new(source, scheme());
    assert_eq!(parser.parse(), Ok(()));
    let expected = format!(
        "{} {} {} {};\n{}",
        kw("int"),
        var("x"),
        op("="),
        num("5"),
        main_with(&format!(
            "{} ({} {} {}) {{\n{} {} {} {} {};\n}}\n",
            kw("while"),
            var("x"),
            op(">"),
            num("0"),
            var("x"),
            op("="),
            var("x"),
            op("-"),
            num("1")
        ))
    );
    assert_eq!(parser.get_result(), expected);
}
