//! What holds of every parse: the cursor never moves back.

use vstd::prelude::*;
use crate::grammar::{
    assignment, at_add_op, at_argument, at_data_type, at_mult_op, at_relational_op,
    at_statement, at_type, at_word, block, block_declarations, constant, declaration,
    declaration_type, expression, factor, function_call, function_definition,
    function_definitions, governed_block, has_token, if_statement, kept, left,
    main_declaration, more_arguments, more_factors, more_parameters, more_targets, more_terms,
    moved, operator, parameter, parameter_block, program, program_declarations, put, same_line,
    simple_expression, statement, statements, take, term, while_loop, Input, Outcome, State,
    Step, base_type, current, data_type, function_declaration, parameters, return_statement,
    variable_declaration, Failure,
};
use crate::token::TokenType;

verus! {

/// Whether an outcome lies ahead of the state `st` in which the rule began:
/// the cursor has not moved back (has moved forward, where `strictly` is
/// set) and stands at a token or behind the last one; a failure lies at the
/// cursor or ahead of it, at a token or behind the last one.
pub open spec fn ahead(inp: Input, st: State, outcome: Outcome, strictly: bool) -> bool {
    match outcome {
        Ok(after) => {
            &&& st.idx <= after.idx <= inp.tokens.len()
            &&& strictly ==> st.idx < after.idx
        },
        Err(failure) => st.idx <= failure.at <= inp.tokens.len(),
    }
}

/// A declaration type accepts at least two tokens.
pub proof fn lemma_declaration_type_moves(inp: Input, st: State)
    requires
        st.idx <= inp.tokens.len(),
    ensures
        ahead(inp, st, declaration_type(inp, st), true),
{
}

/// A constant accepts at least one token.
pub proof fn lemma_constant_moves(inp: Input, st: State)
    requires
        st.idx <= inp.tokens.len(),
    ensures
        ahead(inp, st, constant(inp, st), true),
{
}

/// Further parameters never move the cursor back.
pub proof fn lemma_more_parameters_moves(inp: Input, st: State)
    requires
        st.idx <= inp.tokens.len(),
    ensures
        ahead(inp, st, more_parameters(inp, st), false),
    decreases left(inp, st),
{
    if at_data_type(inp, st) && same_line(inp, st.idx) {
        lemma_declaration_type_moves(inp, put(st, ", "@));
        match moved(st, parameter(inp, put(st, ", "@))) {
            Step::Next(after) => lemma_more_parameters_moves(inp, after),
            Step::Stop(_) => {},
        }
    }
}

/// A parameter block never moves the cursor back.
pub proof fn lemma_parameter_block_moves(inp: Input, st: State)
    requires
        st.idx <= inp.tokens.len(),
    ensures
        ahead(inp, st, parameter_block(inp, st), false),
{
    let opened = put(st, "("@);
    if at_data_type(inp, opened) {
        lemma_declaration_type_moves(inp, opened);
        match parameter(inp, opened) {
            Ok(after) => lemma_more_parameters_moves(inp, after),
            Err(_) => {},
        }
    }
}

/// A declaration accepts at least two tokens.
pub proof fn lemma_declaration_moves(inp: Input, st: State)
    requires
        st.idx <= inp.tokens.len(),
    ensures
        ahead(inp, st, declaration(inp, st), true),
{
    lemma_declaration_type_moves(inp, st);
    match declaration_type(inp, st) {
        Ok(named) => {
            lemma_parameter_block_moves(inp, named);
            if at_word(inp, named, "="@) {
                lemma_constant_moves(inp, operator(inp, named));
            }
        },
        Err(_) => {},
    }
}

/// A factor accepts at least one token.
pub proof fn lemma_factor_moves(inp: Input, st: State)
    requires
        st.idx <= inp.tokens.len(),
    ensures
        ahead(inp, st, factor(inp, st), true),
    decreases left(inp, st), 1int,
{
    lemma_constant_moves(inp, st);
    if at_type(inp, st, TokenType::INTCONSTANT) || at_type(inp, st, TokenType::FLOATCONSTANT)
        || at_type(inp, st, TokenType::OPERATOR) {
    } else if at_type(inp, st, TokenType::VARIABLE) {
    } else if at_type(inp, st, TokenType::FUNCTION) {
        lemma_function_call_moves(inp, st);
    }
}

/// A function call accepts at least two tokens.
pub proof fn lemma_function_call_moves(inp: Input, st: State)
    requires
        st.idx <= inp.tokens.len(),
    ensures
        ahead(inp, st, function_call(inp, st), true),
    decreases left(inp, st), 0int,
{
    if at_type(inp, st, TokenType::FUNCTION) {
        let opened = put(take(inp, st), "("@);
        lemma_expression_moves(inp, opened);
        match moved(st, expression(inp, opened)) {
            Step::Next(first) => lemma_more_arguments_moves(inp, first),
            Step::Stop(_) => {},
        }
    }
}

/// Further arguments never move the cursor back.
pub proof fn lemma_more_arguments_moves(inp: Input, st: State)
    requires
        st.idx <= inp.tokens.len(),
    ensures
        ahead(inp, st, more_arguments(inp, st), false),
    decreases left(inp, st), 5int,
{
    if at_argument(inp, st) {
        lemma_expression_moves(inp, put(st, ", "@));
        match moved(st, expression(inp, put(st, ", "@))) {
            Step::Next(after) => lemma_more_arguments_moves(inp, after),
            Step::Stop(_) => {},
        }
    }
}

/// Further factors never move the cursor back.
pub proof fn lemma_more_factors_moves(inp: Input, st: State)
    requires
        st.idx <= inp.tokens.len(),
    ensures
        ahead(inp, st, more_factors(inp, st), false),
    decreases left(inp, st), 0int,
{
    if at_mult_op(inp, st) {
        lemma_factor_moves(inp, operator(inp, st));
        match moved(st, factor(inp, operator(inp, st))) {
            Step::Next(after) => lemma_more_factors_moves(inp, after),
            Step::Stop(_) => {},
        }
    }
}

/// A term accepts at least one token.
pub proof fn lemma_term_moves(inp: Input, st: State)
    requires
        st.idx <= inp.tokens.len(),
    ensures
        ahead(inp, st, term(inp, st), true),
    decreases left(inp, st), 2int,
{
    lemma_factor_moves(inp, st);
    match moved(st, factor(inp, st)) {
        Step::Next(after) => lemma_more_factors_moves(inp, after),
        Step::Stop(_) => {},
    }
}

/// Further terms never move the cursor back.
pub proof fn lemma_more_terms_moves(inp: Input, st: State)
    requires
        st.idx <= inp.tokens.len(),
    ensures
        ahead(inp, st, more_terms(inp, st), false),
    decreases left(inp, st), 0int,
{
    if at_add_op(inp, st) {
        lemma_term_moves(inp, operator(inp, st));
        match moved(st, term(inp, operator(inp, st))) {
            Step::Next(after) => lemma_more_terms_moves(inp, after),
            Step::Stop(_) => {},
        }
    }
}

/// A simple expression accepts at least one token.
pub proof fn lemma_simple_expression_moves(inp: Input, st: State)
    requires
        st.idx <= inp.tokens.len(),
    ensures
        ahead(inp, st, simple_expression(inp, st), true),
    decreases left(inp, st), 3int,
{
    lemma_term_moves(inp, st);
    match moved(st, term(inp, st)) {
        Step::Next(after) => lemma_more_terms_moves(inp, after),
        Step::Stop(_) => {},
    }
}

/// An expression accepts at least one token.
pub proof fn lemma_expression_moves(inp: Input, st: State)
    requires
        st.idx <= inp.tokens.len(),
    ensures
        ahead(inp, st, expression(inp, st), true),
    decreases left(inp, st), 4int,
{
    lemma_simple_expression_moves(inp, st);
    match moved(st, simple_expression(inp, st)) {
        Step::Next(after) => if at_relational_op(inp, after) {
            lemma_simple_expression_moves(inp, operator(inp, after));
        },
        Step::Stop(_) => {},
    }
}

/// Further targets never move the cursor back.
pub proof fn lemma_more_targets_moves(inp: Input, st: State)
    requires
        st.idx <= inp.tokens.len(),
    ensures
        ahead(inp, st, more_targets(inp, st), false),
    decreases left(inp, st),
{
    if at_type(inp, st, TokenType::VARIABLE) && at_word(inp, take(inp, st), "="@) {
        lemma_more_targets_moves(inp, operator(inp, take(inp, st)));
    }
}

/// An assignment accepts at least three tokens.
pub proof fn lemma_assignment_moves(inp: Input, st: State)
    requires
        st.idx <= inp.tokens.len(),
    ensures
        ahead(inp, st, assignment(inp, st), true),
{
    if at_type(inp, st, TokenType::VARIABLE) {
        let target = take(inp, st);
        if at_word(inp, target, "="@) {
            lemma_more_targets_moves(inp, operator(inp, target));
            match more_targets(inp, operator(inp, target)) {
                Ok(after) => lemma_expression_moves(inp, after),
                Err(_) => {},
            }
        }
    }
}

/// A governed block accepts at least two tokens.
pub proof fn lemma_governed_block_moves(inp: Input, st: State)
    requires
        st.idx <= inp.tokens.len(),
    ensures
        ahead(inp, st, governed_block(inp, st), true),
    decreases left(inp, st), 0int,
{
    if has_token(inp, st) {
        let opened = put(take(inp, st), " ("@);
        lemma_expression_moves(inp, opened);
        match kept(opened, expression(inp, opened)) {
            Step::Next(after) => lemma_block_moves(inp, put(after, ") "@)),
            Step::Stop(_) => {},
        }
    }
}

/// A statement never moves the cursor back, and moves it forward where a
/// statement begins.
pub proof fn lemma_statement_moves(inp: Input, st: State)
    requires
        st.idx <= inp.tokens.len(),
    ensures
        ahead(inp, st, statement(inp, st), at_statement(inp, st)),
    decreases left(inp, st), 2int,
{
    if at_type(inp, st, TokenType::VARIABLE) {
        lemma_assignment_moves(inp, st);
    } else if at_word(inp, st, "while"@) {
        lemma_governed_block_moves(inp, st);
    } else if at_word(inp, st, "if"@) {
        lemma_governed_block_moves(inp, st);
    } else if at_word(inp, st, "return"@) {
        lemma_expression_moves(inp, put(take(inp, st), " "@));
    }
}

/// Statements never move the cursor back.
pub proof fn lemma_statements_moves(inp: Input, st: State)
    requires
        st.idx <= inp.tokens.len(),
    ensures
        ahead(inp, st, statements(inp, st), false),
    decreases left(inp, st), 3int,
{
    if at_statement(inp, st) {
        lemma_statement_moves(inp, st);
        match moved(st, statement(inp, st)) {
            Step::Next(after) => lemma_statements_moves(inp, after),
            Step::Stop(_) => {},
        }
    }
}

/// The declarations of a block never move the cursor back.
pub proof fn lemma_block_declarations_moves(inp: Input, st: State)
    requires
        st.idx <= inp.tokens.len(),
    ensures
        ahead(inp, st, block_declarations(inp, st), false),
    decreases left(inp, st),
{
    if at_data_type(inp, st) {
        lemma_declaration_moves(inp, st);
        match moved(st, declaration(inp, st)) {
            Step::Next(after) => lemma_block_declarations_moves(inp, after),
            Step::Stop(_) => {},
        }
    }
}

/// A block never moves the cursor back.
pub proof fn lemma_block_moves(inp: Input, st: State)
    requires
        st.idx <= inp.tokens.len(),
    ensures
        ahead(inp, st, block(inp, st), false),
    decreases left(inp, st), 4int,
{
    let opened = put(st, "{\n"@);
    lemma_block_declarations_moves(inp, opened);
    match kept(opened, block_declarations(inp, opened)) {
        Step::Next(declared) => lemma_statements_moves(inp, declared),
        Step::Stop(_) => {},
    }
}

/// The entry point accepts at least two tokens.
pub proof fn lemma_main_declaration_moves(inp: Input, st: State)
    requires
        st.idx <= inp.tokens.len(),
    ensures
        ahead(inp, st, main_declaration(inp, st), true),
{
    if at_word(inp, st, "void"@) {
        let typed = put(take(inp, st), " "@);
        if at_word(inp, typed, "main"@) {
            lemma_block_moves(inp, put(take(inp, typed), "() "@));
        }
    }
}

/// A function definition accepts at least two tokens.
pub proof fn lemma_function_definition_moves(inp: Input, st: State)
    requires
        st.idx <= inp.tokens.len(),
    ensures
        ahead(inp, st, function_definition(inp, st), true),
{
    lemma_declaration_type_moves(inp, st);
    match declaration_type(inp, st) {
        Ok(named) => {
            lemma_parameter_block_moves(inp, named);
            match parameter_block(inp, named) {
                Ok(after) => lemma_block_moves(inp, put(after, " "@)),
                Err(_) => {},
            }
        },
        Err(_) => {},
    }
}

/// The declarations of a program never move the cursor back.
pub proof fn lemma_program_declarations_moves(inp: Input, st: State)
    requires
        st.idx <= inp.tokens.len(),
    ensures
        ahead(inp, st, program_declarations(inp, st), false),
    decreases left(inp, st),
{
    if has_token(inp, st) && !at_word(inp, st, "void"@) {
        lemma_declaration_moves(inp, st);
        match moved(st, declaration(inp, st)) {
            Step::Next(after) => lemma_program_declarations_moves(inp, after),
            Step::Stop(_) => {},
        }
    }
}

/// Function definitions go on to the end of the tokens.
pub proof fn lemma_function_definitions_reach_the_end(inp: Input, st: State)
    requires
        st.idx <= inp.tokens.len(),
    ensures
        ahead(inp, st, function_definitions(inp, st), false),
        function_definitions(inp, st) matches Ok(after) ==> after.idx == inp.tokens.len(),
    decreases left(inp, st),
{
    if has_token(inp, st) {
        lemma_function_definition_moves(inp, st);
        match moved(st, function_definition(inp, st)) {
            Step::Next(after) => lemma_function_definitions_reach_the_end(inp, after),
            Step::Stop(_) => {},
        }
    }
}

/// A program that is accepted is read to its last token, and one that is not
/// fails at a token ahead of the cursor or behind the last token.
pub proof fn lemma_program_reads_every_token(inp: Input, st: State)
    requires
        st.idx <= inp.tokens.len(),
    ensures
        match program(inp, st) {
            Ok(after) => after.idx == inp.tokens.len(),
            Err(failure) => st.idx <= failure.at <= inp.tokens.len(),
        },
{
    lemma_program_declarations_moves(inp, st);
    match program_declarations(inp, st) {
        Ok(declared) => {
            lemma_main_declaration_moves(inp, declared);
            match main_declaration(inp, declared) {
                Ok(entered) => lemma_function_definitions_reach_the_end(inp, entered),
                Err(_) => {},
            }
        },
        Err(_) => {},
    }
}

/// Whether two outcomes are alike: `x` was reached from the state `a` and
/// `y` from the state `b`, and either both are states at the same cursor that
/// hold what `a` and `b` held with the same text behind it, or both are the
/// same failure.
pub open spec fn alike(a: State, x: Outcome, b: State, y: Outcome) -> bool {
    match (x, y) {
        (Ok(p), Ok(q)) => {
            &&& p.idx == q.idx
            &&& a.out.len() <= p.out.len()
            &&& b.out.len() <= q.out.len()
            &&& p.out.take(a.out.len() as int) == a.out
            &&& q.out.take(b.out.len() as int) == b.out
            &&& p.out.skip(a.out.len() as int) == q.out.skip(b.out.len() as int)
        },
        (Err(f), Err(g)) => f == g,
        _ => false,
    }
}

/// Writing the same text in two states that are alike leaves them alike.
proof fn lemma_append_alike(a: State, p: State, b: State, q: State, text: Seq<char>, i: nat)
    requires
        alike(a, Ok(p), b, Ok(q)),
    ensures
        alike(
            a,
            Ok(State { idx: i, out: p.out + text }),
            b,
            Ok(State { idx: i, out: q.out + text }),
        ),
{
    let n = a.out.len() as int;
    let m = b.out.len() as int;
    assert((p.out + text).take(n) == p.out.take(n));
    assert((q.out + text).take(m) == q.out.take(m));
    assert((p.out + text).skip(n) == p.out.skip(n) + text);
    assert((q.out + text).skip(m) == q.out.skip(m) + text);
}

/// Writing a text in two states that are alike leaves them alike.
proof fn lemma_put_alike(a: State, p: State, b: State, q: State, text: Seq<char>)
    requires
        alike(a, Ok(p), b, Ok(q)),
    ensures
        alike(a, Ok(put(p, text)), b, Ok(put(q, text))),
{
    lemma_append_alike(a, p, b, q, text, p.idx);
}

/// Writing a token in two states that are alike leaves them alike.
proof fn lemma_take_alike(inp: Input, a: State, p: State, b: State, q: State)
    requires
        alike(a, Ok(p), b, Ok(q)),
    ensures
        alike(a, Ok(take(inp, p)), b, Ok(take(inp, q))),
{
    lemma_append_alike(
        a,
        p,
        b,
        q,
        crate::prettifier::prettified(inp.scheme, current(inp, p)),
        (p.idx + 1) as nat,
    );
}

/// Writing an operator in two states that are alike leaves them alike.
proof fn lemma_operator_alike(inp: Input, a: State, p: State, b: State, q: State)
    requires
        alike(a, Ok(p), b, Ok(q)),
    ensures
        alike(a, Ok(operator(inp, p)), b, Ok(operator(inp, q))),
{
    lemma_put_alike(a, p, b, q, " "@);
    lemma_take_alike(inp, a, put(p, " "@), b, put(q, " "@));
    lemma_put_alike(a, take(inp, put(p, " "@)), b, take(inp, put(q, " "@)), " "@);
}

/// The rule `base_type` leaves states that are alike alike.
proof fn lemma_base_type_alike(inp: Input, a: State, p: State, b: State, q: State)
    requires
        alike(a, Ok(p), b, Ok(q)),
    ensures
        alike(a, base_type(inp, p), b, base_type(inp, q)),
{
    lemma_take_alike(inp, a, p, b, q);
    lemma_put_alike(a, take(inp, p), b, take(inp, q), " "@);
}

/// The rule `declaration_type` leaves states that are alike alike.
proof fn lemma_declaration_type_alike(inp: Input, a: State, p: State, b: State, q: State)
    requires
        alike(a, Ok(p), b, Ok(q)),
    ensures
        alike(a, declaration_type(inp, p), b, declaration_type(inp, q)),
{
    lemma_base_type_alike(inp, a, p, b, q);
    lemma_take_alike(inp, a, p, b, q);
    lemma_put_alike(a, take(inp, p), b, take(inp, q), " "@);
    lemma_base_type_alike(inp, a, put(take(inp, p), " "@), b, put(take(inp, q), " "@));
    match (data_type(inp, p), data_type(inp, q)) {
        (Ok(x), Ok(y)) => lemma_take_alike(inp, a, x, b, y),
        _ => {},
    }
}

/// The rule `constant` leaves states that are alike alike.
proof fn lemma_constant_alike(inp: Input, a: State, p: State, b: State, q: State)
    requires
        alike(a, Ok(p), b, Ok(q)),
    ensures
        alike(a, constant(inp, p), b, constant(inp, q)),
{
    lemma_take_alike(inp, a, p, b, q);
    lemma_take_alike(inp, a, take(inp, p), b, take(inp, q));
}

/// The rule `more_parameters` leaves states that are alike alike.
proof fn lemma_more_parameters_alike(inp: Input, a: State, p: State, b: State, q: State)
    requires
        alike(a, Ok(p), b, Ok(q)),
    ensures
        alike(a, more_parameters(inp, p), b, more_parameters(inp, q)),
    decreases left(inp, p),
{
    if at_data_type(inp, p) && same_line(inp, p.idx) {
        lemma_put_alike(a, p, b, q, ", "@);
        lemma_declaration_type_alike(inp, a, put(p, ", "@), b, put(q, ", "@));
        match (moved(p, parameter(inp, put(p, ", "@))), moved(q, parameter(inp, put(q, ", "@)))) {
            (Step::Next(x), Step::Next(y)) => lemma_more_parameters_alike(inp, a, x, b, y),
            _ => {},
        }
    }
}

/// The rule `parameter_block` leaves states that are alike alike.
proof fn lemma_parameter_block_alike(inp: Input, a: State, p: State, b: State, q: State)
    requires
        alike(a, Ok(p), b, Ok(q)),
    ensures
        alike(a, parameter_block(inp, p), b, parameter_block(inp, q)),
{
    lemma_put_alike(a, p, b, q, "("@);
    let x = put(p, "("@);
    let y = put(q, "("@);
    if at_data_type(inp, x) {
        lemma_declaration_type_alike(inp, a, x, b, y);
        match (parameter(inp, x), parameter(inp, y)) {
            (Ok(x1), Ok(y1)) => lemma_more_parameters_alike(inp, a, x1, b, y1),
            _ => {},
        }
    }
    match (parameters(inp, x), parameters(inp, y)) {
        (Ok(x2), Ok(y2)) => lemma_put_alike(a, x2, b, y2, ")"@),
        _ => {},
    }
}

/// The rule `declaration` leaves states that are alike alike.
proof fn lemma_declaration_alike(inp: Input, a: State, p: State, b: State, q: State)
    requires
        alike(a, Ok(p), b, Ok(q)),
    ensures
        alike(a, declaration(inp, p), b, declaration(inp, q)),
{
    lemma_declaration_type_alike(inp, a, p, b, q);
    match (declaration_type(inp, p), declaration_type(inp, q)) {
        (Ok(x), Ok(y)) => {
            lemma_parameter_block_alike(inp, a, x, b, y);
            lemma_operator_alike(inp, a, x, b, y);
            lemma_constant_alike(inp, a, operator(inp, x), b, operator(inp, y));
            let tx = if 0 < x.idx <= inp.tokens.len() && inp.tokens[x.idx - 1].token_type
                == TokenType::FUNCTION {
                function_declaration(inp, x)
            } else {
                variable_declaration(inp, x)
            };
            let ty = if 0 < y.idx <= inp.tokens.len() && inp.tokens[y.idx - 1].token_type
                == TokenType::FUNCTION {
                function_declaration(inp, y)
            } else {
                variable_declaration(inp, y)
            };
            match (tx, ty) {
                (Ok(x1), Ok(y1)) => lemma_put_alike(a, x1, b, y1, ";\n"@),
                _ => {},
            }
        },
        _ => {},
    }
}

/// The rule `factor` leaves states that are alike alike.
proof fn lemma_factor_alike(inp: Input, a: State, p: State, b: State, q: State)
    requires
        alike(a, Ok(p), b, Ok(q)),
    ensures
        alike(a, factor(inp, p), b, factor(inp, q)),
    decreases left(inp, p), 1int,
{
    lemma_constant_alike(inp, a, p, b, q);
    lemma_take_alike(inp, a, p, b, q);
    if at_type(inp, p, TokenType::INTCONSTANT) || at_type(inp, p, TokenType::FLOATCONSTANT)
        || at_type(inp, p, TokenType::OPERATOR) {
    } else if at_type(inp, p, TokenType::VARIABLE) {
    } else if at_type(inp, p, TokenType::FUNCTION) {
        lemma_function_call_alike(inp, a, p, b, q);
    }
}

/// The rule `function_call` leaves states that are alike alike.
proof fn lemma_function_call_alike(inp: Input, a: State, p: State, b: State, q: State)
    requires
        alike(a, Ok(p), b, Ok(q)),
    ensures
        alike(a, function_call(inp, p), b, function_call(inp, q)),
    decreases left(inp, p), 0int,
{
    if at_type(inp, p, TokenType::FUNCTION) {
        lemma_take_alike(inp, a, p, b, q);
        lemma_put_alike(a, take(inp, p), b, take(inp, q), "("@);
        let x = put(take(inp, p), "("@);
        let y = put(take(inp, q), "("@);
        lemma_expression_alike(inp, a, x, b, y);
        match (moved(p, expression(inp, x)), moved(q, expression(inp, y))) {
            (Step::Next(x1), Step::Next(y1)) => {
                lemma_more_arguments_alike(inp, a, x1, b, y1);
                match (more_arguments(inp, x1), more_arguments(inp, y1)) {
                    (Ok(x2), Ok(y2)) => lemma_put_alike(a, x2, b, y2, ")"@),
                    _ => {},
                }
            },
            _ => {},
        }
    }
}

/// The rule `more_arguments` leaves states that are alike alike.
proof fn lemma_more_arguments_alike(inp: Input, a: State, p: State, b: State, q: State)
    requires
        alike(a, Ok(p), b, Ok(q)),
    ensures
        alike(a, more_arguments(inp, p), b, more_arguments(inp, q)),
    decreases left(inp, p), 5int,
{
    if at_argument(inp, p) {
        lemma_put_alike(a, p, b, q, ", "@);
        lemma_expression_alike(inp, a, put(p, ", "@), b, put(q, ", "@));
        match (
            moved(p, expression(inp, put(p, ", "@))),
            moved(q, expression(inp, put(q, ", "@))),
        ) {
            (Step::Next(x), Step::Next(y)) => lemma_more_arguments_alike(inp, a, x, b, y),
            _ => {},
        }
    }
}

/// The rule `more_factors` leaves states that are alike alike.
proof fn lemma_more_factors_alike(inp: Input, a: State, p: State, b: State, q: State)
    requires
        alike(a, Ok(p), b, Ok(q)),
    ensures
        alike(a, more_factors(inp, p), b, more_factors(inp, q)),
    decreases left(inp, p), 0int,
{
    if at_mult_op(inp, p) {
        lemma_operator_alike(inp, a, p, b, q);
        lemma_factor_alike(inp, a, operator(inp, p), b, operator(inp, q));
        match (
            moved(p, factor(inp, operator(inp, p))),
            moved(q, factor(inp, operator(inp, q))),
        ) {
            (Step::Next(x), Step::Next(y)) => lemma_more_factors_alike(inp, a, x, b, y),
            _ => {},
        }
    }
}

/// The rule `term` leaves states that are alike alike.
proof fn lemma_term_alike(inp: Input, a: State, p: State, b: State, q: State)
    requires
        alike(a, Ok(p), b, Ok(q)),
    ensures
        alike(a, term(inp, p), b, term(inp, q)),
    decreases left(inp, p), 2int,
{
    lemma_factor_alike(inp, a, p, b, q);
    match (moved(p, factor(inp, p)), moved(q, factor(inp, q))) {
        (Step::Next(x), Step::Next(y)) => lemma_more_factors_alike(inp, a, x, b, y),
        _ => {},
    }
}

/// The rule `more_terms` leaves states that are alike alike.
proof fn lemma_more_terms_alike(inp: Input, a: State, p: State, b: State, q: State)
    requires
        alike(a, Ok(p), b, Ok(q)),
    ensures
        alike(a, more_terms(inp, p), b, more_terms(inp, q)),
    decreases left(inp, p), 0int,
{
    if at_add_op(inp, p) {
        lemma_operator_alike(inp, a, p, b, q);
        lemma_term_alike(inp, a, operator(inp, p), b, operator(inp, q));
        match (moved(p, term(inp, operator(inp, p))), moved(q, term(inp, operator(inp, q)))) {
            (Step::Next(x), Step::Next(y)) => lemma_more_terms_alike(inp, a, x, b, y),
            _ => {},
        }
    }
}

/// The rule `simple_expression` leaves states that are alike alike.
proof fn lemma_simple_expression_alike(inp: Input, a: State, p: State, b: State, q: State)
    requires
        alike(a, Ok(p), b, Ok(q)),
    ensures
        alike(a, simple_expression(inp, p), b, simple_expression(inp, q)),
    decreases left(inp, p), 3int,
{
    lemma_term_alike(inp, a, p, b, q);
    match (moved(p, term(inp, p)), moved(q, term(inp, q))) {
        (Step::Next(x), Step::Next(y)) => lemma_more_terms_alike(inp, a, x, b, y),
        _ => {},
    }
}

/// The rule `expression` leaves states that are alike alike.
proof fn lemma_expression_alike(inp: Input, a: State, p: State, b: State, q: State)
    requires
        alike(a, Ok(p), b, Ok(q)),
    ensures
        alike(a, expression(inp, p), b, expression(inp, q)),
    decreases left(inp, p), 4int,
{
    lemma_simple_expression_alike(inp, a, p, b, q);
    match (moved(p, simple_expression(inp, p)), moved(q, simple_expression(inp, q))) {
        (Step::Next(x), Step::Next(y)) => if at_relational_op(inp, x) {
            lemma_operator_alike(inp, a, x, b, y);
            lemma_simple_expression_alike(inp, a, operator(inp, x), b, operator(inp, y));
        },
        _ => {},
    }
}

/// The rule `more_targets` leaves states that are alike alike.
proof fn lemma_more_targets_alike(inp: Input, a: State, p: State, b: State, q: State)
    requires
        alike(a, Ok(p), b, Ok(q)),
    ensures
        alike(a, more_targets(inp, p), b, more_targets(inp, q)),
    decreases left(inp, p),
{
    if at_type(inp, p, TokenType::VARIABLE) && at_word(inp, take(inp, p), "="@) {
        lemma_take_alike(inp, a, p, b, q);
        lemma_operator_alike(inp, a, take(inp, p), b, take(inp, q));
        lemma_more_targets_alike(
            inp,
            a,
            operator(inp, take(inp, p)),
            b,
            operator(inp, take(inp, q)),
        );
    }
}

/// The rule `assignment` leaves states that are alike alike.
proof fn lemma_assignment_alike(inp: Input, a: State, p: State, b: State, q: State)
    requires
        alike(a, Ok(p), b, Ok(q)),
    ensures
        alike(a, assignment(inp, p), b, assignment(inp, q)),
{
    if at_type(inp, p, TokenType::VARIABLE) {
        lemma_take_alike(inp, a, p, b, q);
        let x = take(inp, p);
        let y = take(inp, q);
        if at_word(inp, x, "="@) {
            lemma_operator_alike(inp, a, x, b, y);
            lemma_more_targets_alike(inp, a, operator(inp, x), b, operator(inp, y));
            match (more_targets(inp, operator(inp, x)), more_targets(inp, operator(inp, y))) {
                (Ok(x1), Ok(y1)) => lemma_expression_alike(inp, a, x1, b, y1),
                _ => {},
            }
        }
    }
}

/// The rule `governed_block` leaves states that are alike alike.
proof fn lemma_governed_block_alike(inp: Input, a: State, p: State, b: State, q: State)
    requires
        alike(a, Ok(p), b, Ok(q)),
    ensures
        alike(a, governed_block(inp, p), b, governed_block(inp, q)),
    decreases left(inp, p), 0int,
{
    if has_token(inp, p) {
        lemma_take_alike(inp, a, p, b, q);
        lemma_put_alike(a, take(inp, p), b, take(inp, q), " ("@);
        let x = put(take(inp, p), " ("@);
        let y = put(take(inp, q), " ("@);
        lemma_expression_alike(inp, a, x, b, y);
        match (kept(x, expression(inp, x)), kept(y, expression(inp, y))) {
            (Step::Next(x1), Step::Next(y1)) => {
                lemma_put_alike(a, x1, b, y1, ") "@);
                lemma_block_alike(inp, a, put(x1, ") "@), b, put(y1, ") "@));
            },
            _ => {},
        }
    }
}

/// The rule `statement` leaves states that are alike alike.
proof fn lemma_statement_alike(inp: Input, a: State, p: State, b: State, q: State)
    requires
        alike(a, Ok(p), b, Ok(q)),
    ensures
        alike(a, statement(inp, p), b, statement(inp, q)),
    decreases left(inp, p), 2int,
{
    if at_type(inp, p, TokenType::VARIABLE) {
        lemma_assignment_alike(inp, a, p, b, q);
        match (assignment(inp, p), assignment(inp, q)) {
            (Ok(x), Ok(y)) => lemma_put_alike(a, x, b, y, ";\n"@),
            _ => {},
        }
    } else if at_word(inp, p, "while"@) {
        lemma_governed_block_alike(inp, a, p, b, q);
    } else if at_word(inp, p, "if"@) {
        lemma_governed_block_alike(inp, a, p, b, q);
    } else if at_word(inp, p, "return"@) {
        lemma_take_alike(inp, a, p, b, q);
        lemma_put_alike(a, take(inp, p), b, take(inp, q), " "@);
        lemma_expression_alike(inp, a, put(take(inp, p), " "@), b, put(take(inp, q), " "@));
        match (return_statement(inp, p), return_statement(inp, q)) {
            (Ok(x), Ok(y)) => lemma_put_alike(a, x, b, y, ";\n"@),
            _ => {},
        }
    }
}

/// The rule `statements` leaves states that are alike alike.
proof fn lemma_statements_alike(inp: Input, a: State, p: State, b: State, q: State)
    requires
        alike(a, Ok(p), b, Ok(q)),
    ensures
        alike(a, statements(inp, p), b, statements(inp, q)),
    decreases left(inp, p), 3int,
{
    if at_statement(inp, p) {
        lemma_statement_alike(inp, a, p, b, q);
        match (moved(p, statement(inp, p)), moved(q, statement(inp, q))) {
            (Step::Next(x), Step::Next(y)) => lemma_statements_alike(inp, a, x, b, y),
            _ => {},
        }
    }
}

/// The rule `block_declarations` leaves states that are alike alike.
proof fn lemma_block_declarations_alike(inp: Input, a: State, p: State, b: State, q: State)
    requires
        alike(a, Ok(p), b, Ok(q)),
    ensures
        alike(a, block_declarations(inp, p), b, block_declarations(inp, q)),
    decreases left(inp, p),
{
    if at_data_type(inp, p) {
        lemma_declaration_alike(inp, a, p, b, q);
        match (moved(p, declaration(inp, p)), moved(q, declaration(inp, q))) {
            (Step::Next(x), Step::Next(y)) => lemma_block_declarations_alike(inp, a, x, b, y),
            _ => {},
        }
    }
}

/// The rule `block` leaves states that are alike alike.
proof fn lemma_block_alike(inp: Input, a: State, p: State, b: State, q: State)
    requires
        alike(a, Ok(p), b, Ok(q)),
    ensures
        alike(a, block(inp, p), b, block(inp, q)),
    decreases left(inp, p), 4int,
{
    lemma_put_alike(a, p, b, q, "{\n"@);
    let x = put(p, "{\n"@);
    let y = put(q, "{\n"@);
    lemma_block_declarations_alike(inp, a, x, b, y);
    match (kept(x, block_declarations(inp, x)), kept(y, block_declarations(inp, y))) {
        (Step::Next(x1), Step::Next(y1)) => {
            lemma_statements_alike(inp, a, x1, b, y1);
            match (statements(inp, x1), statements(inp, y1)) {
                (Ok(x2), Ok(y2)) => lemma_put_alike(a, x2, b, y2, "}\n"@),
                _ => {},
            }
        },
        _ => {},
    }
}

/// The rule `main_declaration` leaves states that are alike alike.
proof fn lemma_main_declaration_alike(inp: Input, a: State, p: State, b: State, q: State)
    requires
        alike(a, Ok(p), b, Ok(q)),
    ensures
        alike(a, main_declaration(inp, p), b, main_declaration(inp, q)),
{
    if at_word(inp, p, "void"@) {
        lemma_take_alike(inp, a, p, b, q);
        lemma_put_alike(a, take(inp, p), b, take(inp, q), " "@);
        let x = put(take(inp, p), " "@);
        let y = put(take(inp, q), " "@);
        if at_word(inp, x, "main"@) {
            lemma_take_alike(inp, a, x, b, y);
            lemma_put_alike(a, take(inp, x), b, take(inp, y), "() "@);
            lemma_block_alike(inp, a, put(take(inp, x), "() "@), b, put(take(inp, y), "() "@));
        }
    }
}

/// The rule `function_definition` leaves states that are alike alike.
proof fn lemma_function_definition_alike(inp: Input, a: State, p: State, b: State, q: State)
    requires
        alike(a, Ok(p), b, Ok(q)),
    ensures
        alike(a, function_definition(inp, p), b, function_definition(inp, q)),
{
    lemma_declaration_type_alike(inp, a, p, b, q);
    match (declaration_type(inp, p), declaration_type(inp, q)) {
        (Ok(x), Ok(y)) => {
            lemma_parameter_block_alike(inp, a, x, b, y);
            match (parameter_block(inp, x), parameter_block(inp, y)) {
                (Ok(x1), Ok(y1)) => {
                    lemma_put_alike(a, x1, b, y1, " "@);
                    lemma_block_alike(inp, a, put(x1, " "@), b, put(y1, " "@));
                },
                _ => {},
            }
        },
        _ => {},
    }
}

/// The rule `program_declarations` leaves states that are alike alike.
proof fn lemma_program_declarations_alike(inp: Input, a: State, p: State, b: State, q: State)
    requires
        alike(a, Ok(p), b, Ok(q)),
    ensures
        alike(a, program_declarations(inp, p), b, program_declarations(inp, q)),
    decreases left(inp, p),
{
    if has_token(inp, p) && !at_word(inp, p, "void"@) {
        lemma_declaration_alike(inp, a, p, b, q);
        match (moved(p, declaration(inp, p)), moved(q, declaration(inp, q))) {
            (Step::Next(x), Step::Next(y)) => lemma_program_declarations_alike(inp, a, x, b, y),
            _ => {},
        }
    }
}

/// The rule `function_definitions` leaves states that are alike alike.
proof fn lemma_function_definitions_alike(inp: Input, a: State, p: State, b: State, q: State)
    requires
        alike(a, Ok(p), b, Ok(q)),
    ensures
        alike(a, function_definitions(inp, p), b, function_definitions(inp, q)),
    decreases left(inp, p),
{
    if has_token(inp, p) {
        lemma_function_definition_alike(inp, a, p, b, q);
        match (moved(p, function_definition(inp, p)), moved(q, function_definition(inp, q))) {
            (Step::Next(x), Step::Next(y)) => lemma_function_definitions_alike(inp, a, x, b, y),
            _ => {},
        }
    }
}

/// What a program is written as does not depend on what had been written
/// before it, nor does the token at which it fails: begun at one cursor in
/// two states, the program is accepted in both or in neither; where it is
/// accepted, the cursor ends at the same token and the same text has been
/// written behind what each state held.
pub proof fn lemma_program_is_written_alike(inp: Input, a: State, b: State)
    requires
        a.idx == b.idx,
    ensures
        alike(a, program(inp, a), b, program(inp, b)),
{
    assert(a.out.take(a.out.len() as int) == a.out);
    assert(b.out.take(b.out.len() as int) == b.out);
    assert(a.out.skip(a.out.len() as int) == b.out.skip(b.out.len() as int));
    lemma_program_declarations_alike(inp, a, a, b, b);
    match (program_declarations(inp, a), program_declarations(inp, b)) {
        (Ok(x), Ok(y)) => {
            lemma_main_declaration_alike(inp, a, x, b, y);
            match (main_declaration(inp, x), main_declaration(inp, y)) {
                (Ok(x1), Ok(y1)) => lemma_function_definitions_alike(inp, a, x1, b, y1),
                _ => {},
            }
        },
        _ => {},
    }
}

/// The text that the tokens are written as, where they are a program.
pub open spec fn rendering(inp: Input) -> Option<Seq<char>> {
    match program(inp, State { idx: 0, out: Seq::empty() }) {
        Ok(after) => Some(after.out),
        Err(_) => None,
    }
}

/// A program is written behind what had been written: parsing from the first
/// token in a state that holds some text leaves that text with the rendering
/// of the program behind it, and fails as parsing with no text written fails.
pub proof fn lemma_program_is_appended(inp: Input, st: State)
    requires
        st.idx == 0,
    ensures
        match program(inp, State { idx: 0, out: Seq::empty() }) {
            Ok(fresh) => program(inp, st) == Ok::<State, Failure>(
                State { idx: fresh.idx, out: st.out + fresh.out },
            ),
            Err(failure) => program(inp, st) == Err::<State, Failure>(failure),
        },
{
    let empty = State { idx: 0, out: Seq::empty() };
    lemma_program_is_written_alike(inp, st, empty);
    match (program(inp, st), program(inp, empty)) {
        (Ok(p), Ok(q)) => {
            assert(q.out.skip(0) == q.out);
            assert(p.out == p.out.take(st.out.len() as int) + p.out.skip(st.out.len() as int));
        },
        _ => {},
    }
}

} // verus!
