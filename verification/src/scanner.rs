//! The scanner: it cuts the source text into tokens, one call at a time.

use vstd::prelude::*;
use vstd::hash_map::StringHashMap;
use vstd::string::StringExecFns;
use crate::character_stream::CharStream;
use crate::lexicon::{
    column_offset, digit_run, initial_table, is_taken_at, lexeme_at, lexeme_text, lookup_word,
    newlines_before, next_lexeme, record, resolve, resume_at, separator_run, table_from,
    token_of, tokens_from, word_run,
};
use crate::text::{digit, is_operator_char, letter, operator_char, separator, word_char};
use crate::token::{token_views, Token, TokenType, TokenView};

verus! {

/// A scanner over one source text. It owns the symbol table: the reserved
/// words, and every word met so far with an opening parenthesis directly
/// behind it.
pub struct Scanner {
    text: CharStream,
    id_map: StringHashMap<TokenType>,
    /// Newlines consumed so far.
    line_num: usize,
    /// Characters consumed since the last newline.
    char_pos: usize,
}

impl Scanner {
    /// The counters agree with the read position.
    pub closed spec fn wf(&self) -> bool {
        &&& 0 <= self.text.position() <= self.text.text().len() <= usize::MAX
        &&& self.line_num == newlines_before(self.text.text(), self.text.position())
        &&& self.char_pos == column_offset(self.text.text(), self.text.position())
        &&& self.line_num <= self.text.position()
        &&& self.char_pos <= self.text.position()
    }

    /// The source text.
    pub closed spec fn source(&self) -> Seq<char> {
        self.text.text()
    }

    /// How many characters of the source have been consumed.
    pub closed spec fn position(&self) -> int {
        self.text.position()
    }

    /// The symbol table as it stands.
    pub closed spec fn table(&self) -> Map<Seq<char>, TokenType> {
        self.id_map@
    }

    /// A scanner at the beginning of `text`, its table holding the reserved
    /// words.
    pub fn new(text: &str) -> (scanner: Scanner)
        ensures
            scanner.wf(),
            scanner.source() == text@,
            scanner.position() == 0,
            scanner.table() == initial_table(),
    {
        let mut id_map: StringHashMap<TokenType> = StringHashMap::new();
        id_map.insert(String::from_str("unsigned"), TokenType::KEYWORD);
        id_map.insert(String::from_str("char"), TokenType::KEYWORD);
        id_map.insert(String::from_str("short"), TokenType::KEYWORD);
        id_map.insert(String::from_str("int"), TokenType::KEYWORD);
        id_map.insert(String::from_str("long"), TokenType::KEYWORD);
        id_map.insert(String::from_str("float"), TokenType::KEYWORD);
        id_map.insert(String::from_str("double"), TokenType::KEYWORD);
        id_map.insert(String::from_str("void"), TokenType::KEYWORD);
        id_map.insert(String::from_str("main"), TokenType::KEYWORD);
        id_map.insert(String::from_str("while"), TokenType::KEYWORD);
        id_map.insert(String::from_str("for"), TokenType::KEYWORD);
        id_map.insert(String::from_str("if"), TokenType::KEYWORD);
        id_map.insert(String::from_str("return"), TokenType::KEYWORD);
        Scanner { text: CharStream::new(text), id_map, line_num: 0, char_pos: 0 }
    }

    /// Consumes one character, if one is left, and counts it.
    fn advance(&mut self) -> (c: Option<char>)
        requires
            old(self).wf(),
        ensures
            final(self).wf(),
            final(self).source() == old(self).source(),
            final(self).table() == old(self).table(),
            old(self).position() < old(self).source().len() ==> c == Some(
                old(self).source()[old(self).position()],
            ) && final(self).position() == old(self).position() + 1,
            old(self).position() >= old(self).source().len() ==> c is None
                && final(self).position() == old(self).position(),
    {
        let c = self.text.get_next_char();
        match c {
            Some(ch) => {
                if ch == '\n' {
                    self.line_num = self.line_num + 1;
                    self.char_pos = 0;
                } else {
                    self.char_pos = self.char_pos + 1;
                }
            },
            None => {},
        }
        c
    }

    /// Passes over the separators at the read position.
    fn trim(&mut self)
        requires
            old(self).wf(),
        ensures
            final(self).wf(),
            final(self).source() == old(self).source(),
            final(self).table() == old(self).table(),
            final(self).position() == old(self).position() + separator_run(
                old(self).source(),
                old(self).position(),
            ),
    {
        loop
            invariant
                self.wf(),
                self.source() == old(self).source(),
                self.table() == old(self).table(),
                self.position() + separator_run(self.source(), self.position())
                    == old(self).position() + separator_run(
                    old(self).source(),
                    old(self).position(),
                ),
            ensures
                separator_run(self.source(), self.position()) == 0,
            decreases self.source().len() - self.position(),
        {
            match self.text.peek_next_char() {
                Some(ch) if separator(ch) => {
                    self.advance();
                },
                _ => {
                    break ;
                },
            }
        }
    }

    /// The category of `word`: what the table holds for it, else variable.
    pub fn lookup(&self, word: &str) -> (t: TokenType)
        ensures
            t == lookup_word(self.table(), word@),
    {
        match self.id_map.get(word) {
            None => TokenType::VARIABLE,
            Some(t) => *t,
        }
    }

    /// Whether the next character begins an operator.
    fn is_next_operator(&self) -> (r: bool)
        ensures
            r == (self.position() < self.source().len() && is_operator_char(
                self.source()[self.position()],
            )),
    {
        match self.text.peek_next_char() {
            None => false,
            Some(ch) => operator_char(ch),
        }
    }

    /// Whether the next character is an opening parenthesis.
    fn is_next_parenthesis(&self) -> (r: bool)
        ensures
            r == (self.position() < self.source().len() && self.source()[self.position()] == '('),
    {
        match self.text.peek_next_char() {
            Some('(') => true,
            _ => false,
        }
    }

    /// Consumes the digits at the read position into `word` and counts them.
    fn read_digits(&mut self, word: &mut String) -> (n: usize)
        requires
            old(self).wf(),
        ensures
            final(self).wf(),
            final(self).source() == old(self).source(),
            final(self).table() == old(self).table(),
            n == digit_run(old(self).source(), old(self).position()),
            final(self).position() == old(self).position() + n,
            final(word)@ == old(word)@ + old(self).source().subrange(
                old(self).position(),
                final(self).position(),
            ),
    {
        let mut n: usize = 0;
        loop
            invariant
                self.wf(),
                self.source() == old(self).source(),
                self.table() == old(self).table(),
                self.position() == old(self).position() + n,
                n + digit_run(self.source(), self.position()) == digit_run(
                    old(self).source(),
                    old(self).position(),
                ),
                word@ == old(word)@ + self.source().subrange(
                    old(self).position(),
                    self.position(),
                ),
            ensures
                digit_run(self.source(), self.position()) == 0,
            decreases self.source().len() - self.position(),
        {
            match self.text.peek_next_char() {
                Some(ch) if digit(ch) => {
                    self.advance();
                    word.push(ch);
                    n = n + 1;
                },
                _ => {
                    break ;
                },
            }
        }
        n
    }

    /// Consumes the letters and digits at the read position into `word`.
    fn read_word(&mut self, word: &mut String)
        requires
            old(self).wf(),
        ensures
            final(self).wf(),
            final(self).source() == old(self).source(),
            final(self).table() == old(self).table(),
            final(self).position() == old(self).position() + word_run(
                old(self).source(),
                old(self).position(),
            ),
            final(word)@ == old(word)@ + old(self).source().subrange(
                old(self).position(),
                final(self).position(),
            ),
    {
        loop
            invariant
                self.wf(),
                self.source() == old(self).source(),
                self.table() == old(self).table(),
                old(self).position() <= self.position(),
                self.position() + word_run(self.source(), self.position())
                    == old(self).position() + word_run(
                    old(self).source(),
                    old(self).position(),
                ),
                word@ == old(word)@ + self.source().subrange(
                    old(self).position(),
                    self.position(),
                ),
            ensures
                word_run(self.source(), self.position()) == 0,
            decreases self.source().len() - self.position(),
        {
            match self.text.peek_next_char() {
                Some(ch) if word_char(ch) => {
                    self.advance();
                    word.push(ch);
                },
                _ => {
                    break ;
                },
            }
        }
    }

    /// Consumes the character that ended a number or a word, unless it begins
    /// an operator.
    fn take_terminator(&mut self)
        requires
            old(self).wf(),
        ensures
            final(self).wf(),
            final(self).source() == old(self).source(),
            final(self).table() == old(self).table(),
            final(self).position() == old(self).position() + (if is_taken_at(
                old(self).source(),
                old(self).position(),
            ) {
                1int
            } else {
                0int
            }),
    {
        if self.text.more_available() && !self.is_next_operator() {
            self.advance();
        }
    }

    /// The next token, or `None` when nothing but separators is left.
    ///
    /// The token is the lexeme that the read position meets first, classified
    /// by the symbol table once the lexeme has been recorded.
    pub fn get_next_token(&mut self) -> (token: Option<Token>)
        requires
            old(self).wf(),
        ensures
            final(self).wf(),
            final(self).source() == old(self).source(),
            match next_lexeme(old(self).source(), old(self).position()) {
                Some(lexeme) => {
                    &&& final(self).table() == record(old(self).table(), old(self).source(), lexeme)
                    &&& final(self).position() == resume_at(old(self).source(), lexeme)
                    &&& token matches Some(t) && t@ == token_of(
                        old(self).source(),
                        lexeme,
                        final(self).table(),
                    )
                },
                None => {
                    &&& token is None
                    &&& final(self).table() == old(self).table()
                    &&& final(self).position() == old(self).source().len()
                },
            },
    {
        self.trim();
        let ghost s = self.source();
        let ghost start = self.position();
        let first = match self.text.peek_next_char() {
            None => {
                return None;
            },
            Some(ch) => ch,
        };
        let ghost lexeme = lexeme_at(s, start);
        let line = self.line_num + 1;
        let column = self.char_pos + 1;
        let mut curr_word = String::new();
        let curr_type: TokenType;
        if operator_char(first) {
            self.advance();
            curr_word.push(first);
            match self.text.peek_next_char() {
                Some('=') => {
                    self.advance();
                    curr_word.push('=');
                },
                _ => {},
            }
            curr_type = TokenType::OPERATOR;
            assert(curr_word@ == lexeme_text(s, lexeme));
        } else if digit(first) {
            self.read_digits(&mut curr_word);
            match self.text.peek_next_char() {
                Some('.') => {
                    self.advance();
                    curr_word.push('.');
                    let decimals = self.read_digits(&mut curr_word);
                    if decimals > 0 {
                        curr_type = TokenType::FLOATCONSTANT;
                    } else {
                        curr_type = TokenType::INVALID;
                    }
                },
                _ => {
                    curr_type = TokenType::INTCONSTANT;
                },
            }
            assert(curr_word@ == lexeme_text(s, lexeme));
            self.take_terminator();
        } else if letter(first) {
            self.read_word(&mut curr_word);
            if self.is_next_parenthesis() && !self.id_map.contains_key(curr_word.as_str()) {
                self.id_map.insert(curr_word.clone(), TokenType::FUNCTION);
            }
            self.take_terminator();
            curr_type = self.lookup(curr_word.as_str());
        } else {
            self.advance();
            curr_word.push(first);
            curr_type = TokenType::INVALID;
            assert(curr_word@ == lexeme_text(s, lexeme));
        }
        Some(Token::new(curr_word, curr_type, line, column))
    }

    /// All the tokens that are left, in order, each word classified by the
    /// symbol table as it stands when the source is exhausted.
    pub fn scan_all(&mut self) -> (tokens: Vec<Token>)
        requires
            old(self).wf(),
        ensures
            final(self).wf(),
            final(self).source() == old(self).source(),
            final(self).position() == old(self).source().len(),
            final(self).table() == table_from(
                old(self).source(),
                old(self).position(),
                old(self).table(),
            ),
            token_views(tokens@) == tokens_from(
                old(self).source(),
                old(self).position(),
                old(self).table(),
            ).map_values(|t: TokenView| resolve(t, final(self).table())),
    {
        let mut found: Vec<Token> = Vec::new();
        loop
            invariant
                self.wf(),
                self.source() == old(self).source(),
                0 <= self.position(),
                tokens_from(old(self).source(), old(self).position(), old(self).table())
                    == token_views(found@) + tokens_from(
                    self.source(),
                    self.position(),
                    self.table(),
                ),
                table_from(old(self).source(), old(self).position(), old(self).table())
                    == table_from(self.source(), self.position(), self.table()),
            ensures
                self.position() == self.source().len(),
                tokens_from(self.source(), self.position(), self.table())
                    == Seq::<TokenView>::empty(),
                table_from(self.source(), self.position(), self.table()) == self.table(),
            decreases self.source().len() - self.position(),
        {
            match self.get_next_token() {
                Some(token) => {
                    found.push(token);
                },
                None => {
                    break ;
                },
            }
        }
        let mut tokens: Vec<Token> = Vec::new();
        let mut i: usize = 0;
        while i < found.len()
            invariant
                i <= found.len(),
                token_views(tokens@) == token_views(found@).take(i as int).map_values(
                    |t: TokenView| resolve(t, self.table()),
                ),
            decreases found.len() - i,
        {
            let ghost before = token_views(tokens@);
            let token = &found[i];
            let token_type = match token.get_type() {
                TokenType::VARIABLE => self.lookup(token.get_text()),
                other => *other,
            };
            let resolved = Token::new(
                String::from_str(token.get_text()),
                token_type,
                token.get_line_number(),
                token.get_char_pos(),
            );
            tokens.push(resolved);
            assert(token_views(tokens@) == before.push(resolved@));
            i += 1;
        }
        tokens
    }
}

} // verus!
