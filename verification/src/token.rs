//! Tokens and their categories.

use vstd::prelude::*;
use crate::text::same_text;

verus! {

/// The category of a token.
#[derive(Clone, Copy, Debug, PartialEq, Eq, Structural)]
pub enum TokenType {
    NONE,
    INTCONSTANT,
    FLOATCONSTANT,
    OPERATOR,
    KEYWORD,
    VARIABLE,
    FUNCTION,
    INVALID,
}

impl TokenType {
    /// The name of the category as it is shown to a reader.
    pub open spec fn name(self) -> Seq<char> {
        match self {
            TokenType::NONE => "None"@,
            TokenType::INTCONSTANT => "IntConstant"@,
            TokenType::FLOATCONSTANT => "FloatConstant"@,
            TokenType::OPERATOR => "Operator"@,
            TokenType::KEYWORD => "Keyword"@,
            TokenType::VARIABLE => "Variable"@,
            TokenType::FUNCTION => "Function"@,
            TokenType::INVALID => "Invalid"@,
        }
    }

    /// The name of the category as it is shown to a reader.
    pub fn as_str(&self) -> (s: &'static str)
        ensures
            s@ == self.name(),
    {
        match self {
            TokenType::NONE => "None",
            TokenType::INTCONSTANT => "IntConstant",
            TokenType::FLOATCONSTANT => "FloatConstant",
            TokenType::OPERATOR => "Operator",
            TokenType::KEYWORD => "Keyword",
            TokenType::VARIABLE => "Variable",
            TokenType::FUNCTION => "Function",
            TokenType::INVALID => "Invalid",
        }
    }
}

/// What a token is, as plain values.
pub struct TokenView {
    pub text: Seq<char>,
    pub token_type: TokenType,
    pub line_number: nat,
    pub char_position: nat,
}

/// A lexical unit: its text, its category and where its first character
/// stands in the source (both counted from 1).
#[derive(Debug)]
pub struct Token {
    text: String,
    token_type: TokenType,
    line_number: usize,
    char_position: usize,
}

impl View for Token {
    type V = TokenView;

    closed spec fn view(&self) -> TokenView {
        TokenView {
            text: self.text@,
            token_type: self.token_type,
            line_number: self.line_number as nat,
            char_position: self.char_position as nat,
        }
    }
}

impl Clone for Token {
    /// A token equal to this one in every part.
    fn clone(&self) -> (t: Token)
        ensures
            t@ == self@,
    {
        Token {
            text: self.text.clone(),
            token_type: self.token_type,
            line_number: self.line_number,
            char_position: self.char_position,
        }
    }
}

/// The tokens of a vector as plain values.
pub open spec fn token_views(tokens: Seq<Token>) -> Seq<TokenView> {
    tokens.map_values(|t: Token| t@)
}

/// The words that name a data type.
pub open spec fn is_type_word(w: Seq<char>) -> bool {
    w == "unsigned"@ || w == "char"@ || w == "short"@ || w == "int"@ || w == "long"@ || w
        == "float"@ || w == "double"@
}

/// The texts of the comparison operators.
pub open spec fn is_relational_text(w: Seq<char>) -> bool {
    w == "=="@ || w == "<"@ || w == ">"@ || w == "<="@ || w == ">="@ || w == "!="@
}

/// The texts of the additive operators.
pub open spec fn is_add_text(w: Seq<char>) -> bool {
    w == "+"@ || w == "-"@
}

/// The texts of the multiplicative operators.
pub open spec fn is_mult_text(w: Seq<char>) -> bool {
    w == "*"@ || w == "/"@
}

impl Token {
    /// The token with text `s` and category `t` whose first character stands
    /// in line `linenum` at column `charpos`.
    pub fn new(s: String, t: TokenType, linenum: usize, charpos: usize) -> (token: Token)
        ensures
            token@ == (TokenView {
                text: s@,
                token_type: t,
                line_number: linenum as nat,
                char_position: charpos as nat,
            }),
    {
        Token { text: s, token_type: t, line_number: linenum, char_position: charpos }
    }

    /// The text of the token.
    pub fn get_text(&self) -> (s: &str)
        ensures
            s@ == self@.text,
    {
        self.text.as_str()
    }

    /// The category of the token.
    pub fn get_type(&self) -> (t: &TokenType)
        ensures
            *t == self@.token_type,
    {
        &self.token_type
    }

    /// The line in which the token begins, counted from 1.
    pub fn get_line_number(&self) -> (n: usize)
        ensures
            n == self@.line_number,
    {
        self.line_number
    }

    /// The column at which the token begins, counted from 1.
    pub fn get_char_pos(&self) -> (n: usize)
        ensures
            n == self@.char_position,
    {
        self.char_position
    }

    /// Whether the token's text names a data type, `unsigned` included.
    pub fn is_type(&self) -> (r: bool)
        ensures
            r == is_type_word(self@.text),
    {
        let text = self.get_text();
        same_text(text, "unsigned") || same_text(text, "char") || same_text(text, "short")
            || same_text(text, "int") || same_text(text, "long") || same_text(text, "float")
            || same_text(text, "double")
    }

    /// Whether the token is one of the six comparison operators.
    pub fn is_relational_op(&self) -> (r: bool)
        ensures
            r == (self@.token_type == TokenType::OPERATOR && is_relational_text(self@.text)),
    {
        let text = self.get_text();
        self.token_type == TokenType::OPERATOR && (same_text(text, "==") || same_text(text, "<")
            || same_text(text, ">") || same_text(text, "<=") || same_text(text, ">=")
            || same_text(text, "!="))
    }

    /// Whether the token is `+` or `-`.
    pub fn is_add_op(&self) -> (r: bool)
        ensures
            r == (self@.token_type == TokenType::OPERATOR && is_add_text(self@.text)),
    {
        let text = self.get_text();
        self.token_type == TokenType::OPERATOR && (same_text(text, "+") || same_text(text, "-"))
    }

    /// Whether the token is `*` or `/`.
    pub fn is_mult_op(&self) -> (r: bool)
        ensures
            r == (self@.token_type == TokenType::OPERATOR && is_mult_text(self@.text)),
    {
        let text = self.get_text();
        self.token_type == TokenType::OPERATOR && (same_text(text, "*") || same_text(text, "/"))
    }
}

} // verus!
