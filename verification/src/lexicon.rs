//! What the scanner produces, stated on the source text alone.
//!
//! A source is a sequence of characters. Scanning from a position first passes
//! over separators; the token that begins at the first other character is
//! fixed by that character and by the characters that follow it.
//!
//! The character that ends a number or a word is consumed together with it,
//! unless it begins an operator. So the comma directly behind a parameter or
//! an argument leaves with the token before it and never becomes a token,
//! while a comma that stands by itself is an invalid token like any other
//! character that begins none.
//!
//! A word is a keyword, a function or a variable. The symbol table decides:
//! it holds the reserved words from the beginning, and every other word is
//! entered as a function when it is first met with an opening parenthesis
//! directly behind it.

use vstd::prelude::*;
use crate::text::{is_digit, is_letter, is_operator_char, is_separator, is_word_char};
use crate::token::{TokenType, TokenView};

verus! {

/// The number of newlines among the first `p` characters of `s`.
pub open spec fn newlines_before(s: Seq<char>, p: int) -> nat
    decreases p,
{
    if p <= 0 {
        0
    } else {
        newlines_before(s, p - 1) + if s[p - 1] == '\n' {
            1nat
        } else {
            0nat
        }
    }
}

/// The number of characters between the last newline before `p` and `p`.
pub open spec fn column_offset(s: Seq<char>, p: int) -> nat
    decreases p,
{
    if p <= 0 {
        0
    } else if s[p - 1] == '\n' {
        0
    } else {
        column_offset(s, p - 1) + 1
    }
}

/// The length of the run of separators that begins at `p`.
pub open spec fn separator_run(s: Seq<char>, p: int) -> nat
    decreases s.len() - p,
{
    if 0 <= p < s.len() && is_separator(s[p]) {
        1 + separator_run(s, p + 1)
    } else {
        0
    }
}

/// The length of the run of digits that begins at `p`.
pub open spec fn digit_run(s: Seq<char>, p: int) -> nat
    decreases s.len() - p,
{
    if 0 <= p < s.len() && is_digit(s[p]) {
        1 + digit_run(s, p + 1)
    } else {
        0
    }
}

/// The length of the run of letters and digits that begins at `p`.
pub open spec fn word_run(s: Seq<char>, p: int) -> nat
    decreases s.len() - p,
{
    if 0 <= p < s.len() && is_word_char(s[p]) {
        1 + word_run(s, p + 1)
    } else {
        0
    }
}

/// A token as a stretch of the source: the characters from `start` up to, not
/// including, `end`. A word carries `VARIABLE` here; which of keyword,
/// function and variable it is depends on the symbol table.
pub struct Lexeme {
    pub start: int,
    pub end: int,
    pub token_type: TokenType,
}

/// The lexeme that begins at `p`, where a character stands that is no
/// separator.
///
/// * An operator character is an operator, together with a `=` that follows
///   it directly.
/// * A digit begins a number: digits, then possibly a point and more digits.
///   A point with no digit behind it spoils the number.
/// * A letter begins a word of letters and digits.
/// * Any other character is invalid by itself.
pub open spec fn lexeme_at(s: Seq<char>, p: int) -> Lexeme {
    if is_operator_char(s[p]) {
        Lexeme {
            start: p,
            end: if p + 1 < s.len() && s[p + 1] == '=' {
                p + 2
            } else {
                p + 1
            },
            token_type: TokenType::OPERATOR,
        }
    } else if is_digit(s[p]) {
        let point = p + digit_run(s, p);
        if point < s.len() && s[point] == '.' {
            let decimals = digit_run(s, point + 1);
            if decimals > 0 {
                Lexeme {
                    start: p,
                    end: point + 1 + decimals,
                    token_type: TokenType::FLOATCONSTANT,
                }
            } else {
                Lexeme { start: p, end: point + 1, token_type: TokenType::INVALID }
            }
        } else {
            Lexeme { start: p, end: point, token_type: TokenType::INTCONSTANT }
        }
    } else if is_letter(s[p]) {
        Lexeme { start: p, end: p + word_run(s, p), token_type: TokenType::VARIABLE }
    } else {
        Lexeme { start: p, end: p + 1, token_type: TokenType::INVALID }
    }
}

/// Whether a character stands at `p` that begins no operator.
pub open spec fn is_taken_at(s: Seq<char>, p: int) -> bool {
    0 <= p < s.len() && !is_operator_char(s[p])
}

/// Whether the character behind the lexeme is consumed together with it: the
/// character that ends a number or a word is, unless it begins an operator.
pub open spec fn takes_terminator(s: Seq<char>, lexeme: Lexeme) -> bool {
    is_word_char(s[lexeme.start]) && is_taken_at(s, lexeme.end)
}

/// The position at which scanning goes on behind the lexeme.
pub open spec fn resume_at(s: Seq<char>, lexeme: Lexeme) -> int {
    if takes_terminator(s, lexeme) {
        lexeme.end + 1
    } else {
        lexeme.end
    }
}

/// The lexeme that scanning from `p` meets first, if any character other
/// than a separator is left.
pub open spec fn next_lexeme(s: Seq<char>, p: int) -> Option<Lexeme> {
    let start = p + separator_run(s, p);
    if start < s.len() {
        Some(lexeme_at(s, start))
    } else {
        None
    }
}

/// The characters of the lexeme.
pub open spec fn lexeme_text(s: Seq<char>, lexeme: Lexeme) -> Seq<char> {
    s.subrange(lexeme.start, lexeme.end)
}

/// The reserved words.
pub open spec fn is_keyword(w: Seq<char>) -> bool {
    w == "unsigned"@ || w == "char"@ || w == "short"@ || w == "int"@ || w == "long"@ || w
        == "float"@ || w == "double"@ || w == "void"@ || w == "main"@ || w == "while"@ || w
        == "for"@ || w == "if"@ || w == "return"@
}

/// The symbol table that scanning begins with: the reserved words.
pub open spec fn initial_table() -> Map<Seq<char>, TokenType> {
    Map::new(|w: Seq<char>| is_keyword(w), |w: Seq<char>| TokenType::KEYWORD)
}

/// The category of a word: what the table holds for it, else variable.
pub open spec fn lookup_word(table: Map<Seq<char>, TokenType>, w: Seq<char>) -> TokenType {
    if table.contains_key(w) {
        table[w]
    } else {
        TokenType::VARIABLE
    }
}

/// Whether the lexeme is a word with an opening parenthesis directly behind
/// it.
pub open spec fn is_call_site(s: Seq<char>, lexeme: Lexeme) -> bool {
    &&& lexeme.token_type == TokenType::VARIABLE
    &&& lexeme.end < s.len()
    &&& s[lexeme.end] == '('
}

/// The table once the lexeme has been read: a word with an opening
/// parenthesis directly behind it is entered as a function, unless the table
/// holds it already.
pub open spec fn record(
    table: Map<Seq<char>, TokenType>,
    s: Seq<char>,
    lexeme: Lexeme,
) -> Map<Seq<char>, TokenType> {
    if is_call_site(s, lexeme) && !table.contains_key(lexeme_text(s, lexeme)) {
        table.insert(lexeme_text(s, lexeme), TokenType::FUNCTION)
    } else {
        table
    }
}

/// The token made of the lexeme, classified by `table`. Its position is that
/// of its first character, lines and columns counted from 1.
pub open spec fn token_of(
    s: Seq<char>,
    lexeme: Lexeme,
    table: Map<Seq<char>, TokenType>,
) -> TokenView {
    TokenView {
        text: lexeme_text(s, lexeme),
        token_type: if lexeme.token_type == TokenType::VARIABLE {
            lookup_word(table, lexeme_text(s, lexeme))
        } else {
            lexeme.token_type
        },
        line_number: newlines_before(s, lexeme.start) + 1,
        char_position: column_offset(s, lexeme.start) + 1,
    }
}

/// How much of the source is left to scan at `p`.
pub open spec fn left_at(s: Seq<char>, p: int) -> nat {
    if p < s.len() {
        (s.len() - p) as nat
    } else {
        0
    }
}

/// The lexemes met when scanning from `p` to the end of the source.
pub open spec fn lexemes_from(s: Seq<char>, p: int) -> Seq<Lexeme>
    decreases left_at(s, p),
{
    match next_lexeme(s, p) {
        Some(lexeme) if 0 <= p => seq![lexeme] + lexemes_from(s, resume_at(s, lexeme)),
        _ => Seq::empty(),
    }
}

/// The symbol table after scanning from `p` to the end, begun with `table`.
pub open spec fn table_from(s: Seq<char>, p: int, table: Map<Seq<char>, TokenType>) -> Map<
    Seq<char>,
    TokenType,
>
    decreases left_at(s, p),
{
    match next_lexeme(s, p) {
        Some(lexeme) if 0 <= p => table_from(s, resume_at(s, lexeme), record(table, s, lexeme)),
        _ => table,
    }
}

/// The tokens produced when scanning from `p` to the end, begun with `table`:
/// each is classified by the table as it stands once the token has been read.
pub open spec fn tokens_from(s: Seq<char>, p: int, table: Map<Seq<char>, TokenType>) -> Seq<
    TokenView,
>
    decreases left_at(s, p),
{
    match next_lexeme(s, p) {
        Some(lexeme) if 0 <= p => seq![token_of(s, lexeme, record(table, s, lexeme))]
            + tokens_from(s, resume_at(s, lexeme), record(table, s, lexeme)),
        _ => Seq::empty(),
    }
}

/// The token classified once more by `table`: a word that was taken for a
/// variable gets the category that the table holds for it.
pub open spec fn resolve(token: TokenView, table: Map<Seq<char>, TokenType>) -> TokenView {
    if token.token_type == TokenType::VARIABLE {
        TokenView { token_type: lookup_word(table, token.text), ..token }
    } else {
        token
    }
}

/// The tokens of a whole source: those met when scanning from the beginning,
/// each word classified by the symbol table as it stands at the end. A name
/// that is used bare before its first call is a function throughout.
pub open spec fn tokens_of(s: Seq<char>) -> Seq<TokenView> {
    tokens_from(s, 0, initial_table()).map_values(
        |t: TokenView| resolve(t, table_from(s, 0, initial_table())),
    )
}

} // verus!
