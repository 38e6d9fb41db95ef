//! The parser: it recognises a program by recursive descent over its tokens
//! and writes every token it accepts in the colour of its category.

use vstd::prelude::*;
use vstd::string::StringExecFns;
use crate::error::ParseError;
use crate::grammar;
use crate::grammar::{Input, Outcome, State, SyntaxErrorKind};
use crate::grammar_laws::lemma_program_reads_every_token;
use crate::lexicon::tokens_of;
use crate::prettifier::{body_open_of, font_open_of, Prettifier, PrettifierView};
use crate::scanner::Scanner;
use crate::text::{decimal, decimal_of, same_text};
use crate::token::{token_views, Token, TokenType, TokenView};

verus! {

/// What is reported of one token: its text, its category and its position,
/// each on a line of its own, and a rule under them.
pub open spec fn report_of(token: TokenView) -> Seq<char> {
    "text: "@ + token.text + "\ntoken type: "@ + token.token_type.name() + "\nline number: "@
        + decimal_of(token.line_number) + "\nchar position: "@ + decimal_of(token.char_position)
        + "\n=======================================\n"@
}

/// What is reported of the first `n` tokens, one behind the other.
pub open spec fn reports_of(tokens: Seq<TokenView>, n: nat) -> Seq<char>
    decreases n,
{
    if n == 0 {
        Seq::empty()
    } else {
        reports_of(tokens, (n - 1) as nat) + report_of(tokens[n - 1])
    }
}

/// The head of every page.
pub open spec fn page_head() -> Seq<char> {
    "<!DOCTYPE html PUBLIC \"-//W3C//DTD XHTML 1.0 Transitional//EN\""@
        + " \"http://www.w3.org/TR/xhtml1/DTD/xhtml1-transitional.dtd\">\n"@
        + "<html xmlns=\"http://www.w3.org/1999/xhtml\" xml:lang=\"en\">\n"@
        + "<head>\n<title>Formatted source</title>\n</head>\n"@
}

/// The page that shows `body_text`: the head, the body in the colours and the
/// font of the scheme, and the tags that close what was opened.
pub open spec fn page_of(scheme: PrettifierView, body_text: Seq<char>) -> Seq<char> {
    page_head() + body_open_of(scheme) + "\n"@ + font_open_of(scheme) + "\n"@ + body_text
        + "</font>"@ + "\n"@ + "</body>"@ + "\n</html>\n"@
}

/// Why parsing stopped, and at which token.
struct Fault {
    kind: SyntaxErrorKind,
    at: usize,
}

/// A parser over the tokens of one source.
pub struct Parser {
    tokens: Vec<Token>,
    idx: usize,
    result: String,
    scheme: Prettifier,
}

/// Whether a rule of the grammar has been carried out: the parser `after` is
/// the parser `before` in the state that the rule leaves, or the rule failed
/// and `r` says how.
spec fn follows(before: Parser, after: Parser, r: Result<(), Fault>, expected: Outcome) -> bool {
    &&& after.input() == before.input()
    &&& match expected {
        Ok(state) => r is Ok && after.state() == state,
        Err(failure) => r matches Err(fault) && fault.kind == failure.kind && fault.at
            == failure.at,
    }
}

impl Clone for Parser {
    /// A parser over the same tokens, in the same state.
    fn clone(&self) -> (parser: Parser)
        ensures
            parser.input() == self.input(),
            parser.state() == self.state(),
    {
        let mut tokens: Vec<Token> = Vec::new();
        let mut i: usize = 0;
        while i < self.tokens.len()
            invariant
                i <= self.tokens.len(),
                token_views(tokens@) == token_views(self.tokens@).take(i as int),
            decreases self.tokens.len() - i,
        {
            let token = self.tokens[i].clone();
            tokens.push(token);
            assert(token_views(self.tokens@).take(i + 1) == token_views(self.tokens@).take(
                i as int,
            ).push(token@));
            i += 1;
        }
        assert(token_views(self.tokens@).take(self.tokens.len() as int) == token_views(
            self.tokens@,
        ));
        assert(tokens.len() == self.tokens.len()) by {
        }
        Parser { tokens, idx: self.idx, result: self.result.clone(), scheme: self.scheme.clone() }
    }
}

impl Parser {
    /// The tokens and the colour scheme that the parser works on.
    pub closed spec fn input(&self) -> Input {
        Input { tokens: token_views(self.tokens@), scheme: self.scheme@ }
    }

    /// The cursor and the text written so far.
    pub closed spec fn state(&self) -> State {
        State { idx: self.idx as nat, out: self.result@ }
    }

    /// A parser at the first token of `tokens`, with nothing written.
    pub fn from_tokens(tokens: Vec<Token>, scheme: Prettifier) -> (parser: Parser)
        ensures
            parser.input() == (Input { tokens: token_views(tokens@), scheme: scheme@ }),
            parser.state() == (State { idx: 0, out: Seq::empty() }),
    {
        Parser { tokens, idx: 0, result: String::new(), scheme }
    }

    /// A parser at the first token of `source`, with nothing written. The
    /// whole source is scanned here, before any of it is parsed.
    pub fn new(source: &str, scheme: Prettifier) -> (parser: Parser)
        ensures
            parser.input() == (Input { tokens: tokens_of(source@), scheme: scheme@ }),
            parser.state() == (State { idx: 0, out: Seq::empty() }),
    {
        let mut scanner = Scanner::new(source);
        let tokens = scanner.scan_all();
        Parser::from_tokens(tokens, scheme)
    }

    /// The text written so far.
    pub fn get_result(&self) -> (result: &str)
        ensures
            result@ == self.state().out,
    {
        self.result.as_str()
    }

    /// The tokens that the parser works on.
    pub fn get_tokens(&self) -> (tokens: &Vec<Token>)
        ensures
            token_views(tokens@) == self.input().tokens,
    {
        &self.tokens
    }

    /// Whether a token stands at the cursor.
    fn has_token(&self) -> (r: bool)
        ensures
            r == grammar::has_token(self.input(), self.state()),
    {
        self.idx < self.tokens.len()
    }

    /// Whether the token `ahead` places behind the cursor reads `word`.
    fn word_ahead(&self, ahead: usize, word: &str) -> (r: bool)
        requires
            ahead <= 1,
        ensures
            r == grammar::at_word(
                self.input(),
                State { idx: self.state().idx + ahead as nat, out: self.state().out },
                word@,
            ),
    {
        if self.idx < self.tokens.len() && ahead < self.tokens.len() - self.idx {
            same_text(self.tokens[self.idx + ahead].get_text(), word)
        } else {
            false
        }
    }

    /// Whether the token at the cursor reads `word`.
    fn at_word(&self, word: &str) -> (r: bool)
        ensures
            r == grammar::at_word(self.input(), self.state(), word@),
    {
        self.word_ahead(0, word)
    }

    /// Whether the token at the cursor is of category `token_type`.
    fn at_type(&self, token_type: TokenType) -> (r: bool)
        ensures
            r == grammar::at_type(self.input(), self.state(), token_type),
    {
        self.idx < self.tokens.len() && *self.tokens[self.idx].get_type() == token_type
    }

    /// Whether the token at the cursor names a data type.
    fn at_data_type(&self) -> (r: bool)
        ensures
            r == grammar::at_data_type(self.input(), self.state()),
    {
        self.idx < self.tokens.len() && self.tokens[self.idx].is_type()
    }

    /// Whether the token at the cursor stands on another line than the token
    /// before it, or one of the two is missing.
    fn is_line_changed(&self) -> (r: bool)
        ensures
            r == !grammar::same_line(self.input(), self.state().idx),
    {
        if 0 < self.idx && self.idx < self.tokens.len() {
            self.tokens[self.idx].get_line_number() != self.tokens[self.idx
                - 1].get_line_number()
        } else {
            true
        }
    }

    /// Writes the token at the cursor and passes it.
    fn take(&mut self)
        requires
            grammar::has_token(old(self).input(), old(self).state()),
        ensures
            final(self).input() == old(self).input(),
            final(self).state() == grammar::take(old(self).input(), old(self).state()),
    {
        assert(self.idx < self.tokens.len());
        let fragment = self.scheme.prettify(self.tokens[self.idx].clone());
        self.result.append(fragment.as_str());
        self.idx = self.idx + 1;
    }

    /// Writes `text`.
    fn put(&mut self, text: &str)
        ensures
            final(self).input() == old(self).input(),
            final(self).state() == grammar::put(old(self).state(), text@),
    {
        self.result.append(text);
    }

    /// Writes the operator at the cursor between blanks and passes it.
    fn operator(&mut self)
        requires
            grammar::has_token(old(self).input(), old(self).state()),
        ensures
            final(self).input() == old(self).input(),
            final(self).state() == grammar::operator(old(self).input(), old(self).state()),
    {
        self.put(" ");
        self.take();
        self.put(" ");
    }

    /// The failure of kind `kind` at the cursor.
    fn fail(&self, kind: SyntaxErrorKind) -> (r: Result<(), Fault>)
        ensures
            follows(*self, *self, r, grammar::fail(kind, self.state())),
    {
        Err(Fault { kind, at: self.idx })
    }

    /// `("char"|"short"|"int"|"long")`
    fn integer_type(&mut self) -> (r: Result<(), Fault>)
        ensures
            follows(
                *old(self),
                *final(self),
                r,
                grammar::integer_type(old(self).input(), old(self).state()),
            ),
    {
        if self.has_token() && self.at_integer_word() {
            self.take();
            self.put(" ");
            Ok(())
        } else {
            self.fail(SyntaxErrorKind::InvalidDataType)
        }
    }

    /// `("float"|"double")`
    fn float_type(&mut self) -> (r: Result<(), Fault>)
        ensures
            follows(
                *old(self),
                *final(self),
                r,
                grammar::float_type(old(self).input(), old(self).state()),
            ),
    {
        if self.has_token() && (self.at_word("float") || self.at_word("double")) {
            self.take();
            self.put(" ");
            Ok(())
        } else {
            self.fail(SyntaxErrorKind::InvalidDataType)
        }
    }

    /// Whether the token at the cursor names an integer type.
    fn at_integer_word(&self) -> (r: bool)
        ensures
            r == (grammar::has_token(self.input(), self.state()) && grammar::is_integer_word(
                grammar::current(self.input(), self.state()).text,
            )),
    {
        self.at_word("char") || self.at_word("short") || self.at_word("int") || self.at_word(
            "long",
        )
    }

    /// `DataType := ["unsigned"] ("char"|"short"|"int"|"long"|"float"|"double")`
    fn data_type(&mut self) -> (r: Result<(), Fault>)
        ensures
            follows(
                *old(self),
                *final(self),
                r,
                grammar::data_type(old(self).input(), old(self).state()),
            ),
    {
        if self.at_word("unsigned") {
            self.take();
            self.put(" ");
        }
        if self.at_integer_word() {
            self.integer_type()
        } else {
            self.float_type()
        }
    }

    /// An identifier: a variable or a function.
    fn identifier(&mut self) -> (r: Result<(), Fault>)
        ensures
            follows(
                *old(self),
                *final(self),
                r,
                grammar::identifier(old(self).input(), old(self).state()),
            ),
    {
        if self.at_type(TokenType::VARIABLE) || self.at_type(TokenType::FUNCTION) {
            self.take();
            Ok(())
        } else {
            self.fail(SyntaxErrorKind::InvalidIdentifier)
        }
    }

    /// `DeclarationType := DataType Identifier`
    fn declaration_type(&mut self) -> (r: Result<(), Fault>)
        ensures
            follows(
                *old(self),
                *final(self),
                r,
                grammar::declaration_type(old(self).input(), old(self).state()),
            ),
            r is Ok ==> final(self).state().idx > old(self).state().idx,
    {
        self.data_type()?;
        self.identifier()
    }

    /// `IntConstant`
    fn int_constant(&mut self) -> (r: Result<(), Fault>)
        ensures
            follows(
                *old(self),
                *final(self),
                r,
                grammar::int_constant(old(self).input(), old(self).state()),
            ),
    {
        if self.at_type(TokenType::INTCONSTANT) {
            self.take();
            Ok(())
        } else {
            self.fail(SyntaxErrorKind::InvalidConstant)
        }
    }

    /// `FloatConstant`
    fn float_constant(&mut self) -> (r: Result<(), Fault>)
        ensures
            follows(
                *old(self),
                *final(self),
                r,
                grammar::float_constant(old(self).input(), old(self).state()),
            ),
    {
        if self.at_type(TokenType::FLOATCONSTANT) {
            self.take();
            Ok(())
        } else {
            self.fail(SyntaxErrorKind::InvalidConstant)
        }
    }

    /// `Constant := ["-"] (IntConstant | FloatConstant)`
    fn constant(&mut self) -> (r: Result<(), Fault>)
        ensures
            follows(
                *old(self),
                *final(self),
                r,
                grammar::constant(old(self).input(), old(self).state()),
            ),
            r is Ok ==> final(self).state().idx > old(self).state().idx,
    {
        if self.at_type(TokenType::OPERATOR) {
            if self.at_word("-") {
                self.take();
            } else {
                return self.fail(SyntaxErrorKind::UnsupportedUnaryOperator);
            }
        }
        if self.at_type(TokenType::FLOATCONSTANT) {
            self.float_constant()
        } else {
            self.int_constant()
        }
    }

    /// `VarTail := ["=" Constant]`
    fn variable_declaration(&mut self) -> (r: Result<(), Fault>)
        ensures
            follows(
                *old(self),
                *final(self),
                r,
                grammar::variable_declaration(old(self).input(), old(self).state()),
            ),
            r is Ok ==> final(self).state().idx >= old(self).state().idx,
    {
        if self.at_word("=") {
            self.operator();
            self.constant()
        } else {
            Ok(())
        }
    }

    /// `Parameter := DeclarationType`
    fn parameter(&mut self) -> (r: Result<(), Fault>)
        ensures
            follows(
                *old(self),
                *final(self),
                r,
                grammar::parameter(old(self).input(), old(self).state()),
            ),
            r is Ok ==> final(self).state().idx > old(self).state().idx,
    {
        self.declaration_type()
    }

    /// `ParameterBlock := "(" [Parameter {"," Parameter}] ")"`
    fn parameter_block(&mut self) -> (r: Result<(), Fault>)
        ensures
            follows(
                *old(self),
                *final(self),
                r,
                grammar::parameter_block(old(self).input(), old(self).state()),
            ),
            r is Ok ==> final(self).state().idx >= old(self).state().idx,
    {
        self.put("(");
        if self.at_data_type() {
            self.parameter()?;
            let ghost first = self.state();
            while self.at_data_type() && !self.is_line_changed()
                invariant
                    self.input() == old(self).input(),
                    self.state().idx >= old(self).state().idx,
                    grammar::more_parameters(self.input(), self.state())
                        == grammar::more_parameters(self.input(), first),
                    grammar::parameter_block(old(self).input(), old(self).state()) == (
                    match grammar::more_parameters(self.input(), first) {
                        Ok(after) => Ok(grammar::put(after, ")"@)),
                        Err(failure) => Err(failure),
                    }),
                decreases grammar::left(self.input(), self.state()),
            {
                self.put(", ");
                self.parameter()?;
            }
        }
        self.put(")");
        Ok(())
    }

    /// `FuncTail := ParameterBlock`
    fn function_declaration(&mut self) -> (r: Result<(), Fault>)
        ensures
            follows(
                *old(self),
                *final(self),
                r,
                grammar::function_declaration(old(self).input(), old(self).state()),
            ),
            r is Ok ==> final(self).state().idx >= old(self).state().idx,
    {
        self.parameter_block()
    }

    /// `Declaration := DeclarationType (VarTail | FuncTail) ';'`
    fn declaration(&mut self) -> (r: Result<(), Fault>)
        ensures
            follows(
                *old(self),
                *final(self),
                r,
                grammar::declaration(old(self).input(), old(self).state()),
            ),
            r is Ok ==> final(self).state().idx > old(self).state().idx,
    {
        self.declaration_type()?;
        if *self.tokens[self.idx - 1].get_type() == TokenType::FUNCTION {
            self.function_declaration()?;
        } else {
            self.variable_declaration()?;
        }
        self.put(";\n");
        Ok(())
    }

    /// Whether another argument follows.
    fn at_argument(&self) -> (r: bool)
        ensures
            r == grammar::at_argument(self.input(), self.state()),
    {
        !self.is_line_changed() && (self.at_type(TokenType::INTCONSTANT) || self.at_type(
            TokenType::FLOATCONSTANT,
        ) || self.at_type(TokenType::VARIABLE) || self.at_type(TokenType::FUNCTION))
    }

    /// Whether a multiplicative operator stands at the cursor.
    fn at_mult_op(&self) -> (r: bool)
        ensures
            r == grammar::at_mult_op(self.input(), self.state()),
    {
        self.idx < self.tokens.len() && self.tokens[self.idx].is_mult_op()
    }

    /// Whether an additive operator stands at the cursor.
    fn at_add_op(&self) -> (r: bool)
        ensures
            r == grammar::at_add_op(self.input(), self.state()),
    {
        self.idx < self.tokens.len() && self.tokens[self.idx].is_add_op()
    }

    /// Whether a comparison operator stands at the cursor.
    fn at_relational_op(&self) -> (r: bool)
        ensures
            r == grammar::at_relational_op(self.input(), self.state()),
    {
        self.idx < self.tokens.len() && self.tokens[self.idx].is_relational_op()
    }

    /// `RelOp`, written between blanks.
    fn relational_operator(&mut self)
        requires
            grammar::at_relational_op(old(self).input(), old(self).state()),
        ensures
            final(self).input() == old(self).input(),
            final(self).state() == grammar::operator(old(self).input(), old(self).state()),
    {
        self.operator();
    }

    /// `AddOp`, written between blanks.
    fn add_operator(&mut self)
        requires
            grammar::at_add_op(old(self).input(), old(self).state()),
        ensures
            final(self).input() == old(self).input(),
            final(self).state() == grammar::operator(old(self).input(), old(self).state()),
    {
        self.operator();
    }

    /// `MultOp`, written between blanks.
    fn mult_operator(&mut self)
        requires
            grammar::at_mult_op(old(self).input(), old(self).state()),
        ensures
            final(self).input() == old(self).input(),
            final(self).state() == grammar::operator(old(self).input(), old(self).state()),
    {
        self.operator();
    }

    /// `Factor := Constant | Identifier | FunctionCall`
    fn factor(&mut self) -> (r: Result<(), Fault>)
        ensures
            follows(
                *old(self),
                *final(self),
                r,
                grammar::factor(old(self).input(), old(self).state()),
            ),
            r is Ok ==> final(self).state().idx > old(self).state().idx,
        decreases grammar::left(old(self).input(), old(self).state()), 1int,
    {
        if self.at_type(TokenType::INTCONSTANT) || self.at_type(TokenType::FLOATCONSTANT)
            || self.at_type(TokenType::OPERATOR) {
            self.constant()
        } else if self.at_type(TokenType::VARIABLE) {
            self.take();
            Ok(())
        } else if self.at_type(TokenType::FUNCTION) {
            self.function_call()
        } else {
            self.fail(SyntaxErrorKind::InvalidIdentifier)
        }
    }

    /// `FunctionCall := Identifier "(" Expression {"," Expression} ")"`
    fn function_call(&mut self) -> (r: Result<(), Fault>)
        ensures
            follows(
                *old(self),
                *final(self),
                r,
                grammar::function_call(old(self).input(), old(self).state()),
            ),
            r is Ok ==> final(self).state().idx > old(self).state().idx,
        decreases grammar::left(old(self).input(), old(self).state()), 0int,
    {
        if !self.at_type(TokenType::FUNCTION) {
            return self.fail(SyntaxErrorKind::InvalidIdentifier);
        }
        self.take();
        self.put("(");
        self.expression()?;
        let ghost first = self.state();
        while self.at_argument()
            invariant
                self.input() == old(self).input(),
                self.state().idx > old(self).state().idx,
                grammar::has_token(old(self).input(), old(self).state()),
                grammar::more_arguments(self.input(), self.state()) == grammar::more_arguments(
                    self.input(),
                    first,
                ),
                grammar::function_call(old(self).input(), old(self).state()) == (
                match grammar::more_arguments(self.input(), first) {
                    Ok(after) => Ok(grammar::put(after, ")"@)),
                    Err(failure) => Err(failure),
                }),
            decreases grammar::left(self.input(), self.state()),
        {
            self.put(", ");
            self.expression()?;
        }
        self.put(")");
        Ok(())
    }

    /// `Term := Factor {MultOp Factor}`
    fn term(&mut self) -> (r: Result<(), Fault>)
        ensures
            follows(
                *old(self),
                *final(self),
                r,
                grammar::term(old(self).input(), old(self).state()),
            ),
            r is Ok ==> final(self).state().idx > old(self).state().idx,
        decreases grammar::left(old(self).input(), old(self).state()), 2int,
    {
        self.factor()?;
        let ghost first = self.state();
        while self.at_mult_op()
            invariant
                self.input() == old(self).input(),
                self.state().idx > old(self).state().idx,
                grammar::more_factors(self.input(), self.state()) == grammar::more_factors(
                    self.input(),
                    first,
                ),
                grammar::term(old(self).input(), old(self).state()) == grammar::more_factors(
                    self.input(),
                    first,
                ),
            decreases grammar::left(self.input(), self.state()),
        {
            self.mult_operator();
            self.factor()?;
        }
        Ok(())
    }

    /// `SimpleExpr := Term {AddOp Term}`
    fn simple_expression(&mut self) -> (r: Result<(), Fault>)
        ensures
            follows(
                *old(self),
                *final(self),
                r,
                grammar::simple_expression(old(self).input(), old(self).state()),
            ),
            r is Ok ==> final(self).state().idx > old(self).state().idx,
        decreases grammar::left(old(self).input(), old(self).state()), 3int,
    {
        self.term()?;
        let ghost first = self.state();
        while self.at_add_op()
            invariant
                self.input() == old(self).input(),
                self.state().idx > old(self).state().idx,
                grammar::more_terms(self.input(), self.state()) == grammar::more_terms(
                    self.input(),
                    first,
                ),
                grammar::simple_expression(old(self).input(), old(self).state())
                    == grammar::more_terms(self.input(), first),
            decreases grammar::left(self.input(), self.state()),
        {
            self.add_operator();
            self.term()?;
        }
        Ok(())
    }

    /// `Expression := SimpleExpr [RelOp SimpleExpr]`
    fn expression(&mut self) -> (r: Result<(), Fault>)
        ensures
            follows(
                *old(self),
                *final(self),
                r,
                grammar::expression(old(self).input(), old(self).state()),
            ),
            r is Ok ==> final(self).state().idx > old(self).state().idx,
        decreases grammar::left(old(self).input(), old(self).state()), 4int,
    {
        self.simple_expression()?;
        if self.at_relational_op() {
            self.relational_operator();
            self.simple_expression()
        } else {
            Ok(())
        }
    }

    /// `Assignment := Identifier "=" {Identifier "="} Expression`
    fn assignment(&mut self) -> (r: Result<(), Fault>)
        ensures
            follows(
                *old(self),
                *final(self),
                r,
                grammar::assignment(old(self).input(), old(self).state()),
            ),
            r is Ok ==> final(self).state().idx > old(self).state().idx,
    {
        if !self.at_type(TokenType::VARIABLE) {
            return self.fail(SyntaxErrorKind::InvalidIdentifier);
        }
        self.take();
        if !self.at_word("=") {
            return self.fail(SyntaxErrorKind::InvalidAssignment);
        }
        self.operator();
        let ghost first = self.state();
        while self.at_type(TokenType::VARIABLE) && self.word_ahead(1, "=")
            invariant
                self.input() == old(self).input(),
                self.state().idx > old(self).state().idx,
                grammar::more_targets(self.input(), self.state()) == grammar::more_targets(
                    self.input(),
                    first,
                ),
            decreases grammar::left(self.input(), self.state()),
        {
            self.take();
            self.operator();
        }
        self.expression()
    }

    /// `ReturnStatement := "return" Expression`
    fn return_statement(&mut self) -> (r: Result<(), Fault>)
        ensures
            follows(
                *old(self),
                *final(self),
                r,
                grammar::return_statement(old(self).input(), old(self).state()),
            ),
            r is Ok ==> final(self).state().idx > old(self).state().idx,
    {
        if !self.has_token() {
            return self.fail(SyntaxErrorKind::InvalidIdentifier);
        }
        self.take();
        self.put(" ");
        self.expression()
    }

    /// Whether the token at the cursor begins a statement.
    fn at_statement(&self) -> (r: bool)
        ensures
            r == grammar::at_statement(self.input(), self.state()),
    {
        self.at_type(TokenType::VARIABLE) || self.at_word("while") || self.at_word("if")
            || self.at_word("return")
    }

    /// The condition and the block behind `while` or `if`.
    fn governed_block(&mut self) -> (r: Result<(), Fault>)
        ensures
            follows(
                *old(self),
                *final(self),
                r,
                grammar::governed_block(old(self).input(), old(self).state()),
            ),
            r is Ok ==> final(self).state().idx > old(self).state().idx,
        decreases grammar::left(old(self).input(), old(self).state()), 0int,
    {
        if !self.has_token() {
            return self.fail(SyntaxErrorKind::InvalidIdentifier);
        }
        self.take();
        self.put(" (");
        self.expression()?;
        self.put(") ");
        self.block()
    }

    /// `WhileLoop := "while" "(" Expression ")" Block`
    fn while_loop(&mut self) -> (r: Result<(), Fault>)
        ensures
            follows(
                *old(self),
                *final(self),
                r,
                grammar::while_loop(old(self).input(), old(self).state()),
            ),
            r is Ok ==> final(self).state().idx > old(self).state().idx,
        decreases grammar::left(old(self).input(), old(self).state()), 1int,
    {
        self.governed_block()
    }

    /// `IfStatement := "if" "(" Expression ")" Block`
    fn if_statement(&mut self) -> (r: Result<(), Fault>)
        ensures
            follows(
                *old(self),
                *final(self),
                r,
                grammar::if_statement(old(self).input(), old(self).state()),
            ),
            r is Ok ==> final(self).state().idx > old(self).state().idx,
        decreases grammar::left(old(self).input(), old(self).state()), 1int,
    {
        self.governed_block()
    }

    /// `Statement := Assignment ';' | WhileLoop | IfStatement | ReturnStatement ';'`
    fn statement(&mut self) -> (r: Result<(), Fault>)
        ensures
            follows(
                *old(self),
                *final(self),
                r,
                grammar::statement(old(self).input(), old(self).state()),
            ),
            r is Ok ==> final(self).state().idx >= old(self).state().idx,
            r is Ok && grammar::at_statement(old(self).input(), old(self).state())
                ==> final(self).state().idx > old(self).state().idx,
        decreases grammar::left(old(self).input(), old(self).state()), 2int,
    {
        if self.at_type(TokenType::VARIABLE) {
            self.assignment()?;
            self.put(";\n");
            Ok(())
        } else if self.at_word("while") {
            self.while_loop()
        } else if self.at_word("if") {
            self.if_statement()
        } else if self.at_word("return") {
            self.return_statement()?;
            self.put(";\n");
            Ok(())
        } else {
            Ok(())
        }
    }

    /// `Block := "{" {Declaration} {Statement} "}"`
    fn block(&mut self) -> (r: Result<(), Fault>)
        ensures
            follows(
                *old(self),
                *final(self),
                r,
                grammar::block(old(self).input(), old(self).state()),
            ),
            r is Ok ==> final(self).state().idx >= old(self).state().idx,
        decreases grammar::left(old(self).input(), old(self).state()), 4int,
    {
        self.put("{\n");
        let ghost opened = self.state();
        while self.at_data_type()
            invariant
                self.input() == old(self).input(),
                self.state().idx >= opened.idx,
                opened == grammar::put(old(self).state(), "{\n"@),
                grammar::block_declarations(self.input(), self.state())
                    == grammar::block_declarations(self.input(), opened),
            decreases grammar::left(self.input(), self.state()),
        {
            self.declaration()?;
        }
        let ghost declared = self.state();
        while self.at_statement()
            invariant
                self.input() == old(self).input(),
                self.state().idx >= old(self).state().idx,
                grammar::statements(self.input(), self.state()) == grammar::statements(
                    self.input(),
                    declared,
                ),
                grammar::block(old(self).input(), old(self).state()) == (match grammar::statements(
                    self.input(),
                    declared,
                ) {
                    Ok(after) => Ok(grammar::put(after, "}\n"@)),
                    Err(failure) => Err(failure),
                }),
            decreases grammar::left(self.input(), self.state()),
        {
            self.statement()?;
        }
        self.put("}\n");
        Ok(())
    }

    /// `MainDeclaration := "void" "main" "(" ")" Block`
    fn main_declaration(&mut self) -> (r: Result<(), Fault>)
        ensures
            follows(
                *old(self),
                *final(self),
                r,
                grammar::main_declaration(old(self).input(), old(self).state()),
            ),
            r is Ok ==> final(self).state().idx > old(self).state().idx,
    {
        if !self.at_word("void") {
            return self.fail(SyntaxErrorKind::ExpectedVoid);
        }
        self.take();
        self.put(" ");
        if !self.at_word("main") {
            return self.fail(SyntaxErrorKind::ExpectedMain);
        }
        self.take();
        self.put("() ");
        self.block()
    }

    /// `FunctionDefinition := DeclarationType ParameterBlock Block`
    fn function_definition(&mut self) -> (r: Result<(), Fault>)
        ensures
            follows(
                *old(self),
                *final(self),
                r,
                grammar::function_definition(old(self).input(), old(self).state()),
            ),
            r is Ok ==> final(self).state().idx > old(self).state().idx,
    {
        self.declaration_type()?;
        self.parameter_block()?;
        self.put(" ");
        self.block()
    }

    /// `Program := {Declaration} MainDeclaration {FunctionDefinition}`
    fn program(&mut self) -> (r: Result<(), Fault>)
        ensures
            follows(
                *old(self),
                *final(self),
                r,
                grammar::program(old(self).input(), old(self).state()),
            ),
    {
        while self.has_token() && !self.at_word("void")
            invariant
                self.input() == old(self).input(),
                grammar::program_declarations(self.input(), self.state())
                    == grammar::program_declarations(old(self).input(), old(self).state()),
            decreases grammar::left(self.input(), self.state()),
        {
            self.declaration()?;
        }
        self.main_declaration()?;
        let ghost entered = self.state();
        while self.has_token()
            invariant
                self.input() == old(self).input(),
                grammar::function_definitions(self.input(), self.state())
                    == grammar::function_definitions(self.input(), entered),
                grammar::program(old(self).input(), old(self).state())
                    == grammar::function_definitions(self.input(), entered),
            decreases grammar::left(self.input(), self.state()),
        {
            self.function_definition()?;
        }
        Ok(())
    }

    /// The index of the first invalid token, if there is one.
    fn find_invalid(&self) -> (found: Option<usize>)
        ensures
            match grammar::first_invalid(self.input().tokens, 0) {
                Some(at) => found == Some(at as usize) && at < self.tokens.len(),
                None => found is None,
            },
    {
        let mut i: usize = 0;
        while i < self.tokens.len()
            invariant
                i <= self.tokens.len(),
                grammar::first_invalid(self.input().tokens, 0) == grammar::first_invalid(
                    self.input().tokens,
                    i as nat,
                ),
            decreases self.tokens.len() - i,
        {
            if *self.tokens[i].get_type() == TokenType::INVALID {
                return Some(i);
            }
            i += 1;
        }
        None
    }

    /// The line and the column that an error at token `at` reports.
    fn position_at(&self, at: usize) -> (position: (usize, usize))
        ensures
            position.0 == grammar::position_at(self.input().tokens, at as nat).0,
            position.1 == grammar::position_at(self.input().tokens, at as nat).1,
    {
        let n = self.tokens.len();
        if at < n {
            (self.tokens[at].get_line_number(), self.tokens[at].get_char_pos())
        } else if n > 0 {
            (self.tokens[n - 1].get_line_number(), self.tokens[n - 1].get_char_pos())
        } else {
            (0, 0)
        }
    }

    /// Recognises the program from the cursor on and writes it out.
    ///
    /// Where the tokens are a program, the text of the program is written
    /// behind what had been written, each token in the colour of its category,
    /// and the cursor ends behind the last token. Otherwise the first error is
    /// returned, nothing is left of the text, and the cursor stays where it
    /// was. A parser is made with the cursor at the first token and is moved
    /// by this function alone.
    pub fn parse(&mut self) -> (r: Result<(), ParseError>)
        ensures
            final(self).input() == old(self).input(),
            match grammar::parse_outcome(old(self).input(), old(self).state()) {
                Ok(after) => {
                    &&& r is Ok
                    &&& final(self).state() == after
                    &&& old(self).state().idx <= old(self).input().tokens.len() ==> after.idx
                        == old(self).input().tokens.len()
                },
                Err(error) => r matches Err(e) && e@ == error && final(self).state() == (State {
                    idx: old(self).state().idx,
                    out: Seq::empty(),
                }),
            },
    {
        let start = self.idx;
        proof {
            if self.idx <= self.tokens.len() {
                lemma_program_reads_every_token(self.input(), self.state());
            }
        }
        match self.find_invalid() {
            Some(at) => {
                let token = &self.tokens[at];
                let error = ParseError::Lex {
                    fragment: String::from_str(token.get_text()),
                    line_number: token.get_line_number(),
                    char_position: token.get_char_pos(),
                };
                self.result = String::new();
                Err(error)
            },
            None => match self.program() {
                Ok(()) => Ok(()),
                Err(fault) => {
                    let position = self.position_at(fault.at);
                    self.idx = start;
                    self.result = String::new();
                    Err(
                        ParseError::Syntax {
                            kind: fault.kind,
                            line_number: position.0,
                            char_position: position.1,
                        },
                    )
                },
            },
        }
    }

    /// A report of the tokens, for a reader who wants to see what the scanner
    /// made of the source.
    pub fn lex_results(&self) -> (report: String)
        ensures
            report@ == reports_of(self.input().tokens, self.input().tokens.len()),
    {
        let mut report = String::new();
        let mut i: usize = 0;
        while i < self.tokens.len()
            invariant
                i <= self.tokens.len(),
                report@ == reports_of(self.input().tokens, i as nat),
            decreases self.tokens.len() - i,
        {
            let token = &self.tokens[i];
            let mut entry = String::from_str("text: ");
            entry.append(token.get_text());
            entry.append("\ntoken type: ");
            entry.append(token.get_type().as_str());
            entry.append("\nline number: ");
            entry.append(decimal(token.get_line_number()).as_str());
            entry.append("\nchar position: ");
            entry.append(decimal(token.get_char_pos()).as_str());
            entry.append("\n=======================================\n");
            report.append(entry.as_str());
            i += 1;
        }
        report
    }

    /// The page that shows the text written so far.
    pub fn to_xhtml(&self) -> (page: String)
        ensures
            page@ == page_of(self.input().scheme, self.state().out),
    {
        let mut page = String::from_str(
            "<!DOCTYPE html PUBLIC \"-//W3C//DTD XHTML 1.0 Transitional//EN\"",
        );
        page.append(" \"http://www.w3.org/TR/xhtml1/DTD/xhtml1-transitional.dtd\">\n");
        page.append("<html xmlns=\"http://www.w3.org/1999/xhtml\" xml:lang=\"en\">\n");
        page.append("<head>\n<title>Formatted source</title>\n</head>\n");
        page.append(self.scheme.get_body_open().as_str());
        page.append("\n");
        page.append(self.scheme.get_font_open().as_str());
        page.append("\n");
        page.append(self.result.as_str());
        page.append(self.scheme.get_font_close().as_str());
        page.append("\n");
        page.append(self.scheme.get_body_close().as_str());
        page.append("\n</html>\n");
        page
    }
}

} // verus!
