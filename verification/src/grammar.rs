//! The grammar of the language, and what the parser writes for a program.
//!
//! ```text
//! Program            := {Declaration} MainDeclaration {FunctionDefinition}
//! Declaration        := DeclarationType (VarTail | FuncTail) ';'
//! DeclarationType    := DataType Identifier
//! DataType           := ["unsigned"] ("char"|"short"|"int"|"long"|"float"|"double")
//! VarTail            := ["=" Constant]
//! FuncTail           := ParameterBlock
//! MainDeclaration    := "void" "main" "(" ")" Block
//! FunctionDefinition := DeclarationType ParameterBlock Block
//! ParameterBlock     := "(" [Parameter {"," Parameter}] ")"
//! Parameter          := DeclarationType
//! Block              := "{" {Declaration} {Statement} "}"
//! Statement          := Assignment ';' | WhileLoop | IfStatement | ReturnStatement ';'
//! Assignment         := Identifier "=" {Identifier "="} Expression
//! WhileLoop          := "while" "(" Expression ")" Block
//! IfStatement        := "if" "(" Expression ")" Block
//! ReturnStatement    := "return" Expression
//! Expression         := SimpleExpr [RelOp SimpleExpr]
//! SimpleExpr         := Term {AddOp Term}
//! Term               := Factor {MultOp Factor}
//! Factor             := Constant | Identifier | FunctionCall
//! FunctionCall       := Identifier "(" Expression {"," Expression} ")"
//! Constant           := ["-"] (IntConstant | FloatConstant)
//! ```
//!
//! Parentheses, braces and semicolons never reach the parser: the scanner
//! passes over them, as it does over a comma directly behind a word or a
//! number. The parser writes them where the grammar has them. Where the
//! grammar would need one of them to decide, the parser goes by the tokens'
//! lines instead: a parameter list goes on while a data type follows on the
//! line of the token before it (the first parameter is taken on any line),
//! and an argument list goes on while a constant or an identifier follows on
//! the line of the token before it. A block ends at the first token that
//! begins no statement, so that what follows an inner block is read as part
//! of it, and a data type behind a block without statements as a declaration
//! in it.
//!
//! Each rule is a function from a state, the cursor and the text written so
//! far, to the state behind what the rule accepts, or to the failure that
//! stops it. A repetition goes on while its parts move the cursor forward
//! ([`moved`], [`kept`]); that every part which is accepted does so is proved
//! in [`crate::grammar_laws`].

use vstd::prelude::*;
use crate::error::ParseErrorView;
use crate::prettifier::{prettified, PrettifierView};
use crate::token::{
    is_add_text, is_mult_text, is_relational_text, is_type_word, TokenType, TokenView,
};

verus! {

/// What is wrong with a program that the grammar does not accept.
#[derive(Clone, Copy, Debug, PartialEq, Eq, Structural)]
pub enum SyntaxErrorKind {
    /// The entry point does not begin with `void`.
    ExpectedVoid,
    /// The word behind `void` is not `main`.
    ExpectedMain,
    /// A data type was due and the token names none.
    InvalidDataType,
    /// An identifier or an operand was due and the token is neither.
    InvalidIdentifier,
    /// The `=` of an assignment is missing.
    InvalidAssignment,
    /// A number was due and the token is none.
    InvalidConstant,
    /// An operator other than `-` stands before a constant.
    UnsupportedUnaryOperator,
}

/// What the parser works on: the tokens and the colour scheme.
pub struct Input {
    pub tokens: Seq<TokenView>,
    pub scheme: PrettifierView,
}

/// Where the parser stands: the index of the next token and the text written
/// so far.
pub struct State {
    pub idx: nat,
    pub out: Seq<char>,
}

/// Why the parser stopped and at which token; `at` is the number of tokens
/// where the input ended too early.
pub struct Failure {
    pub kind: SyntaxErrorKind,
    pub at: nat,
}

/// What a rule leaves: the state behind what it accepted, or a failure.
pub type Outcome = Result<State, Failure>;

/// How a rule goes on behind a part of it.
pub enum Step {
    /// The part was accepted and the cursor has moved forward.
    Next(State),
    /// The rule ends here with this outcome.
    Stop(Outcome),
}

/// Goes on from the outcome of a part that began at `before`. The cursor
/// never moves back: a part that left it where it was ends the repetition it
/// stands in.
pub open spec fn moved(before: State, outcome: Outcome) -> Step {
    match outcome {
        Ok(after) if after.idx > before.idx => Step::Next(after),
        _ => Step::Stop(outcome),
    }
}

/// Goes on from the outcome of a part that began at `before` and may have
/// accepted nothing.
pub open spec fn kept(before: State, outcome: Outcome) -> Step {
    match outcome {
        Ok(after) if after.idx >= before.idx => Step::Next(after),
        _ => Step::Stop(outcome),
    }
}

/// The number of tokens from the cursor on.
pub open spec fn left(inp: Input, st: State) -> nat {
    if st.idx < inp.tokens.len() {
        (inp.tokens.len() - st.idx) as nat
    } else {
        0
    }
}

/// Whether a token stands at the cursor.
pub open spec fn has_token(inp: Input, st: State) -> bool {
    st.idx < inp.tokens.len()
}

/// The token at the cursor.
pub open spec fn current(inp: Input, st: State) -> TokenView {
    inp.tokens[st.idx as int]
}

/// Whether the token at the cursor reads `word`.
pub open spec fn at_word(inp: Input, st: State, word: Seq<char>) -> bool {
    has_token(inp, st) && current(inp, st).text == word
}

/// Whether the token at the cursor is of category `token_type`.
pub open spec fn at_type(inp: Input, st: State, token_type: TokenType) -> bool {
    has_token(inp, st) && current(inp, st).token_type == token_type
}

/// Whether the tokens at `i` and before it stand on one line.
pub open spec fn same_line(inp: Input, i: nat) -> bool {
    0 < i < inp.tokens.len() && inp.tokens[i as int].line_number == inp.tokens[i
        - 1].line_number
}

/// The state with the token at the cursor written out and passed.
pub open spec fn take(inp: Input, st: State) -> State {
    State { idx: (st.idx + 1) as nat, out: st.out + prettified(inp.scheme, current(inp, st)) }
}

/// The state with `text` written.
pub open spec fn put(st: State, text: Seq<char>) -> State {
    State { idx: st.idx, out: st.out + text }
}

/// The failure of kind `kind` at the cursor.
pub open spec fn fail(kind: SyntaxErrorKind, st: State) -> Outcome {
    Err(Failure { kind, at: st.idx })
}

/// The words that name an integer type.
pub open spec fn is_integer_word(w: Seq<char>) -> bool {
    w == "char"@ || w == "short"@ || w == "int"@ || w == "long"@
}

/// The words that name a floating-point type.
pub open spec fn is_float_word(w: Seq<char>) -> bool {
    w == "float"@ || w == "double"@
}

/// `("char"|"short"|"int"|"long")`, written with a blank behind it.
pub open spec fn integer_type(inp: Input, st: State) -> Outcome {
    if has_token(inp, st) && is_integer_word(current(inp, st).text) {
        Ok(put(take(inp, st), " "@))
    } else {
        fail(SyntaxErrorKind::InvalidDataType, st)
    }
}

/// `("float"|"double")`, written with a blank behind it.
pub open spec fn float_type(inp: Input, st: State) -> Outcome {
    if has_token(inp, st) && is_float_word(current(inp, st).text) {
        Ok(put(take(inp, st), " "@))
    } else {
        fail(SyntaxErrorKind::InvalidDataType, st)
    }
}

/// The name of a type without `unsigned`.
pub open spec fn base_type(inp: Input, st: State) -> Outcome {
    if has_token(inp, st) && is_integer_word(current(inp, st).text) {
        integer_type(inp, st)
    } else {
        float_type(inp, st)
    }
}

/// `DataType := ["unsigned"] ("char"|"short"|"int"|"long"|"float"|"double")`
pub open spec fn data_type(inp: Input, st: State) -> Outcome {
    if at_word(inp, st, "unsigned"@) {
        base_type(inp, put(take(inp, st), " "@))
    } else {
        base_type(inp, st)
    }
}

/// An identifier: a variable or a function.
pub open spec fn identifier(inp: Input, st: State) -> Outcome {
    if at_type(inp, st, TokenType::VARIABLE) || at_type(inp, st, TokenType::FUNCTION) {
        Ok(take(inp, st))
    } else {
        fail(SyntaxErrorKind::InvalidIdentifier, st)
    }
}

/// `DeclarationType := DataType Identifier`
pub open spec fn declaration_type(inp: Input, st: State) -> Outcome {
    match data_type(inp, st) {
        Ok(typed) => identifier(inp, typed),
        Err(failure) => Err(failure),
    }
}

/// `IntConstant`
pub open spec fn int_constant(inp: Input, st: State) -> Outcome {
    if at_type(inp, st, TokenType::INTCONSTANT) {
        Ok(take(inp, st))
    } else {
        fail(SyntaxErrorKind::InvalidConstant, st)
    }
}

/// `FloatConstant`
pub open spec fn float_constant(inp: Input, st: State) -> Outcome {
    if at_type(inp, st, TokenType::FLOATCONSTANT) {
        Ok(take(inp, st))
    } else {
        fail(SyntaxErrorKind::InvalidConstant, st)
    }
}

/// `IntConstant | FloatConstant`
pub open spec fn number(inp: Input, st: State) -> Outcome {
    if at_type(inp, st, TokenType::FLOATCONSTANT) {
        float_constant(inp, st)
    } else {
        int_constant(inp, st)
    }
}

/// `Constant := ["-"] (IntConstant | FloatConstant)`; no operator but `-` may
/// stand before the number.
pub open spec fn constant(inp: Input, st: State) -> Outcome {
    if at_type(inp, st, TokenType::OPERATOR) {
        if at_word(inp, st, "-"@) {
            number(inp, take(inp, st))
        } else {
            fail(SyntaxErrorKind::UnsupportedUnaryOperator, st)
        }
    } else {
        number(inp, st)
    }
}

/// An operator between two operands, written between blanks.
pub open spec fn operator(inp: Input, st: State) -> State {
    put(take(inp, put(st, " "@)), " "@)
}

/// `VarTail := ["=" Constant]`
pub open spec fn variable_declaration(inp: Input, st: State) -> Outcome {
    if at_word(inp, st, "="@) {
        constant(inp, operator(inp, st))
    } else {
        Ok(st)
    }
}

/// `Parameter := DeclarationType`
pub open spec fn parameter(inp: Input, st: State) -> Outcome {
    declaration_type(inp, st)
}

/// Whether the token at the cursor names a data type.
pub open spec fn at_data_type(inp: Input, st: State) -> bool {
    has_token(inp, st) && is_type_word(current(inp, st).text)
}

/// `{"," Parameter}`: the list goes on while a data type follows on the line
/// of the token before it.
pub open spec fn more_parameters(inp: Input, st: State) -> Outcome
    decreases left(inp, st),
{
    if at_data_type(inp, st) && same_line(inp, st.idx) {
        match moved(st, parameter(inp, put(st, ", "@))) {
            Step::Next(after) => more_parameters(inp, after),
            Step::Stop(outcome) => outcome,
        }
    } else {
        Ok(st)
    }
}

/// `[Parameter {"," Parameter}]`
pub open spec fn parameters(inp: Input, st: State) -> Outcome {
    if at_data_type(inp, st) {
        match parameter(inp, st) {
            Ok(after) => more_parameters(inp, after),
            Err(failure) => Err(failure),
        }
    } else {
        Ok(st)
    }
}

/// `ParameterBlock := "(" [Parameter {"," Parameter}] ")"`
pub open spec fn parameter_block(inp: Input, st: State) -> Outcome {
    match parameters(inp, put(st, "("@)) {
        Ok(after) => Ok(put(after, ")"@)),
        Err(failure) => Err(failure),
    }
}

/// `FuncTail := ParameterBlock`
pub open spec fn function_declaration(inp: Input, st: State) -> Outcome {
    parameter_block(inp, st)
}

/// `Declaration := DeclarationType (VarTail | FuncTail) ';'`: the tail of a
/// function where the identifier is one, else that of a variable.
pub open spec fn declaration(inp: Input, st: State) -> Outcome {
    match declaration_type(inp, st) {
        Ok(named) => {
            let tail = if 0 < named.idx <= inp.tokens.len() && inp.tokens[named.idx
                - 1].token_type == TokenType::FUNCTION {
                function_declaration(inp, named)
            } else {
                variable_declaration(inp, named)
            };
            match tail {
                Ok(after) => Ok(put(after, ";\n"@)),
                Err(failure) => Err(failure),
            }
        },
        Err(failure) => Err(failure),
    }
}

/// `Factor := Constant | Identifier | FunctionCall`
pub open spec fn factor(inp: Input, st: State) -> Outcome
    decreases left(inp, st), 1int,
{
    if at_type(inp, st, TokenType::INTCONSTANT) || at_type(inp, st, TokenType::FLOATCONSTANT)
        || at_type(inp, st, TokenType::OPERATOR) {
        constant(inp, st)
    } else if at_type(inp, st, TokenType::VARIABLE) {
        Ok(take(inp, st))
    } else if at_type(inp, st, TokenType::FUNCTION) {
        function_call(inp, st)
    } else {
        fail(SyntaxErrorKind::InvalidIdentifier, st)
    }
}

/// `FunctionCall := Identifier "(" Expression {"," Expression} ")"`
pub open spec fn function_call(inp: Input, st: State) -> Outcome
    decreases left(inp, st), 0int,
{
    if at_type(inp, st, TokenType::FUNCTION) {
        match moved(st, expression(inp, put(take(inp, st), "("@))) {
            Step::Next(first) => match more_arguments(inp, first) {
                Ok(after) => Ok(put(after, ")"@)),
                Err(failure) => Err(failure),
            },
            Step::Stop(outcome) => outcome,
        }
    } else {
        fail(SyntaxErrorKind::InvalidIdentifier, st)
    }
}

/// Whether another argument follows: a constant or an identifier on the line
/// of the token before it.
pub open spec fn at_argument(inp: Input, st: State) -> bool {
    &&& same_line(inp, st.idx)
    &&& (at_type(inp, st, TokenType::INTCONSTANT) || at_type(inp, st, TokenType::FLOATCONSTANT)
        || at_type(inp, st, TokenType::VARIABLE) || at_type(inp, st, TokenType::FUNCTION))
}

/// `{"," Expression}`
pub open spec fn more_arguments(inp: Input, st: State) -> Outcome
    decreases left(inp, st), 5int,
{
    if at_argument(inp, st) {
        match moved(st, expression(inp, put(st, ", "@))) {
            Step::Next(after) => more_arguments(inp, after),
            Step::Stop(outcome) => outcome,
        }
    } else {
        Ok(st)
    }
}

/// Whether a multiplicative operator stands at the cursor.
pub open spec fn at_mult_op(inp: Input, st: State) -> bool {
    at_type(inp, st, TokenType::OPERATOR) && is_mult_text(current(inp, st).text)
}

/// Whether an additive operator stands at the cursor.
pub open spec fn at_add_op(inp: Input, st: State) -> bool {
    at_type(inp, st, TokenType::OPERATOR) && is_add_text(current(inp, st).text)
}

/// Whether a comparison operator stands at the cursor.
pub open spec fn at_relational_op(inp: Input, st: State) -> bool {
    at_type(inp, st, TokenType::OPERATOR) && is_relational_text(current(inp, st).text)
}

/// `{MultOp Factor}`
pub open spec fn more_factors(inp: Input, st: State) -> Outcome
    decreases left(inp, st), 0int,
{
    if at_mult_op(inp, st) {
        match moved(st, factor(inp, operator(inp, st))) {
            Step::Next(after) => more_factors(inp, after),
            Step::Stop(outcome) => outcome,
        }
    } else {
        Ok(st)
    }
}

/// `Term := Factor {MultOp Factor}`
pub open spec fn term(inp: Input, st: State) -> Outcome
    decreases left(inp, st), 2int,
{
    match moved(st, factor(inp, st)) {
        Step::Next(after) => more_factors(inp, after),
        Step::Stop(outcome) => outcome,
    }
}

/// `{AddOp Term}`
pub open spec fn more_terms(inp: Input, st: State) -> Outcome
    decreases left(inp, st), 0int,
{
    if at_add_op(inp, st) {
        match moved(st, term(inp, operator(inp, st))) {
            Step::Next(after) => more_terms(inp, after),
            Step::Stop(outcome) => outcome,
        }
    } else {
        Ok(st)
    }
}

/// `SimpleExpr := Term {AddOp Term}`
pub open spec fn simple_expression(inp: Input, st: State) -> Outcome
    decreases left(inp, st), 3int,
{
    match moved(st, term(inp, st)) {
        Step::Next(after) => more_terms(inp, after),
        Step::Stop(outcome) => outcome,
    }
}

/// `Expression := SimpleExpr [RelOp SimpleExpr]`
pub open spec fn expression(inp: Input, st: State) -> Outcome
    decreases left(inp, st), 4int,
{
    match moved(st, simple_expression(inp, st)) {
        Step::Next(after) => if at_relational_op(inp, after) {
            simple_expression(inp, operator(inp, after))
        } else {
            Ok(after)
        },
        Step::Stop(outcome) => outcome,
    }
}

/// `{Identifier "="}`: the further targets of an assignment.
pub open spec fn more_targets(inp: Input, st: State) -> Outcome
    decreases left(inp, st),
{
    if at_type(inp, st, TokenType::VARIABLE) && at_word(inp, take(inp, st), "="@) {
        more_targets(inp, operator(inp, take(inp, st)))
    } else {
        Ok(st)
    }
}

/// `Assignment := Identifier "=" {Identifier "="} Expression`
pub open spec fn assignment(inp: Input, st: State) -> Outcome {
    if at_type(inp, st, TokenType::VARIABLE) {
        let target = take(inp, st);
        if at_word(inp, target, "="@) {
            match more_targets(inp, operator(inp, target)) {
                Ok(after) => expression(inp, after),
                Err(failure) => Err(failure),
            }
        } else {
            fail(SyntaxErrorKind::InvalidAssignment, target)
        }
    } else {
        fail(SyntaxErrorKind::InvalidIdentifier, st)
    }
}

/// `ReturnStatement := "return" Expression`
pub open spec fn return_statement(inp: Input, st: State) -> Outcome {
    if has_token(inp, st) {
        expression(inp, put(take(inp, st), " "@))
    } else {
        fail(SyntaxErrorKind::InvalidIdentifier, st)
    }
}

/// Whether the token at the cursor begins a statement: a variable, or one of
/// `while`, `if` and `return`.
pub open spec fn at_statement(inp: Input, st: State) -> bool {
    at_type(inp, st, TokenType::VARIABLE) || at_word(inp, st, "while"@) || at_word(
        inp,
        st,
        "if"@,
    ) || at_word(inp, st, "return"@)
}

/// A condition and the block that it governs, behind `while` or `if`:
/// `"(" Expression ")" Block`.
pub open spec fn governed_block(inp: Input, st: State) -> Outcome
    decreases left(inp, st), 0int,
{
    if has_token(inp, st) {
        let opened = put(take(inp, st), " ("@);
        match kept(opened, expression(inp, opened)) {
            Step::Next(after) => block(inp, put(after, ") "@)),
            Step::Stop(outcome) => outcome,
        }
    } else {
        fail(SyntaxErrorKind::InvalidIdentifier, st)
    }
}

/// `WhileLoop := "while" "(" Expression ")" Block`
pub open spec fn while_loop(inp: Input, st: State) -> Outcome
    decreases left(inp, st), 1int,
{
    governed_block(inp, st)
}

/// `IfStatement := "if" "(" Expression ")" Block`
pub open spec fn if_statement(inp: Input, st: State) -> Outcome
    decreases left(inp, st), 1int,
{
    governed_block(inp, st)
}

/// `Statement := Assignment ';' | WhileLoop | IfStatement | ReturnStatement ';'`
pub open spec fn statement(inp: Input, st: State) -> Outcome
    decreases left(inp, st), 2int,
{
    if at_type(inp, st, TokenType::VARIABLE) {
        match assignment(inp, st) {
            Ok(after) => Ok(put(after, ";\n"@)),
            Err(failure) => Err(failure),
        }
    } else if at_word(inp, st, "while"@) {
        while_loop(inp, st)
    } else if at_word(inp, st, "if"@) {
        if_statement(inp, st)
    } else if at_word(inp, st, "return"@) {
        match return_statement(inp, st) {
            Ok(after) => Ok(put(after, ";\n"@)),
            Err(failure) => Err(failure),
        }
    } else {
        Ok(st)
    }
}

/// `{Statement}`: up to the first token that begins no statement.
pub open spec fn statements(inp: Input, st: State) -> Outcome
    decreases left(inp, st), 3int,
{
    if at_statement(inp, st) {
        match moved(st, statement(inp, st)) {
            Step::Next(after) => statements(inp, after),
            Step::Stop(outcome) => outcome,
        }
    } else {
        Ok(st)
    }
}

/// `{Declaration}` at the head of a block: while a data type stands at the
/// cursor.
pub open spec fn block_declarations(inp: Input, st: State) -> Outcome
    decreases left(inp, st),
{
    if at_data_type(inp, st) {
        match moved(st, declaration(inp, st)) {
            Step::Next(after) => block_declarations(inp, after),
            Step::Stop(outcome) => outcome,
        }
    } else {
        Ok(st)
    }
}

/// `Block := "{" {Declaration} {Statement} "}"`
pub open spec fn block(inp: Input, st: State) -> Outcome
    decreases left(inp, st), 4int,
{
    let opened = put(st, "{\n"@);
    match kept(opened, block_declarations(inp, opened)) {
        Step::Next(declared) => match statements(inp, declared) {
            Ok(after) => Ok(put(after, "}\n"@)),
            Err(failure) => Err(failure),
        },
        Step::Stop(outcome) => outcome,
    }
}

/// `MainDeclaration := "void" "main" "(" ")" Block`
pub open spec fn main_declaration(inp: Input, st: State) -> Outcome {
    if at_word(inp, st, "void"@) {
        let typed = put(take(inp, st), " "@);
        if at_word(inp, typed, "main"@) {
            block(inp, put(take(inp, typed), "() "@))
        } else {
            fail(SyntaxErrorKind::ExpectedMain, typed)
        }
    } else {
        fail(SyntaxErrorKind::ExpectedVoid, st)
    }
}

/// `FunctionDefinition := DeclarationType ParameterBlock Block`
pub open spec fn function_definition(inp: Input, st: State) -> Outcome {
    match declaration_type(inp, st) {
        Ok(named) => match parameter_block(inp, named) {
            Ok(after) => block(inp, put(after, " "@)),
            Err(failure) => Err(failure),
        },
        Err(failure) => Err(failure),
    }
}

/// `{Declaration}` at the head of a program: up to the token `void`.
pub open spec fn program_declarations(inp: Input, st: State) -> Outcome
    decreases left(inp, st),
{
    if has_token(inp, st) && !at_word(inp, st, "void"@) {
        match moved(st, declaration(inp, st)) {
            Step::Next(after) => program_declarations(inp, after),
            Step::Stop(outcome) => outcome,
        }
    } else {
        Ok(st)
    }
}

/// `{FunctionDefinition}`: up to the end of the tokens.
pub open spec fn function_definitions(inp: Input, st: State) -> Outcome
    decreases left(inp, st),
{
    if has_token(inp, st) {
        match moved(st, function_definition(inp, st)) {
            Step::Next(after) => function_definitions(inp, after),
            Step::Stop(outcome) => outcome,
        }
    } else {
        Ok(st)
    }
}

/// `Program := {Declaration} MainDeclaration {FunctionDefinition}`
pub open spec fn program(inp: Input, st: State) -> Outcome {
    match program_declarations(inp, st) {
        Ok(declared) => match main_declaration(inp, declared) {
            Ok(entered) => function_definitions(inp, entered),
            Err(failure) => Err(failure),
        },
        Err(failure) => Err(failure),
    }
}

/// The first invalid token from the `from`-th on, if there is one.
pub open spec fn first_invalid(tokens: Seq<TokenView>, from: nat) -> Option<nat>
    decreases tokens.len() - from,
{
    if from >= tokens.len() {
        None
    } else if tokens[from as int].token_type == TokenType::INVALID {
        Some(from)
    } else {
        first_invalid(tokens, from + 1)
    }
}

/// The line and the column that an error at token `at` reports: those of
/// that token, or of the last token where the tokens end before `at`, or
/// zeros where there is no token at all.
pub open spec fn position_at(tokens: Seq<TokenView>, at: nat) -> (nat, nat) {
    if at < tokens.len() {
        (tokens[at as int].line_number, tokens[at as int].char_position)
    } else if tokens.len() > 0 {
        (tokens.last().line_number, tokens.last().char_position)
    } else {
        (0, 0)
    }
}

/// What parsing from state `st` comes to: the state behind the program, or
/// the one error that stops it. An invalid token anywhere among the tokens is
/// reported before any fault of the grammar, the first such token first.
pub open spec fn parse_outcome(inp: Input, st: State) -> Result<State, ParseErrorView> {
    match first_invalid(inp.tokens, 0) {
        Some(at) => Err(
            ParseErrorView::Lex {
                fragment: inp.tokens[at as int].text,
                line_number: inp.tokens[at as int].line_number,
                char_position: inp.tokens[at as int].char_position,
            },
        ),
        None => match program(inp, st) {
            Ok(after) => Ok(after),
            Err(failure) => Err(
                ParseErrorView::Syntax {
                    kind: failure.kind,
                    line_number: position_at(inp.tokens, failure.at).0,
                    char_position: position_at(inp.tokens, failure.at).1,
                },
            ),
        },
    }
}

} // verus!
