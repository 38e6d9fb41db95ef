//! What holds of every source: theorems about scanning.
//!
//! The scanner loses nothing and reorders nothing, a word keeps the category
//! that a call gave it, and the shapes of operators and numbers are as the
//! lexicon says.

use vstd::prelude::*;
use crate::lexicon::{
    digit_run, initial_table, is_call_site, is_keyword, left_at, lexeme_at, lexeme_text,
    lexemes_from, lookup_word, next_lexeme, record, resolve, resume_at, separator_run,
    table_from, takes_terminator, token_of, tokens_from, tokens_of, word_run, Lexeme,
};
use crate::text::{is_digit, is_operator_char, is_separator, is_word_char};
use crate::token::{TokenType, TokenView};

verus! {

/// The run of separators at `p` stays inside the source, holds separators
/// only, and ends where the source ends or another character stands.
pub proof fn lemma_separator_run(s: Seq<char>, p: int)
    requires
        0 <= p <= s.len(),
    ensures
        p + separator_run(s, p) <= s.len(),
        forall|q: int| p <= q < p + separator_run(s, p) ==> is_separator(#[trigger] s[q]),
        p + separator_run(s, p) < s.len() ==> !is_separator(s[p + separator_run(s, p)]),
    decreases s.len() - p,
{
    if p < s.len() && is_separator(s[p]) {
        lemma_separator_run(s, p + 1);
    }
}

/// The run of digits at `p` stays inside the source.
pub proof fn lemma_digit_run(s: Seq<char>, p: int)
    requires
        0 <= p <= s.len(),
    ensures
        p + digit_run(s, p) <= s.len(),
        forall|q: int| p <= q < p + digit_run(s, p) ==> is_digit(#[trigger] s[q]),
        p + digit_run(s, p) < s.len() ==> !is_digit(s[p + digit_run(s, p)]),
    decreases s.len() - p,
{
    if p < s.len() && is_digit(s[p]) {
        lemma_digit_run(s, p + 1);
    }
}

/// The run of letters and digits at `p` stays inside the source.
pub proof fn lemma_word_run(s: Seq<char>, p: int)
    requires
        0 <= p <= s.len(),
    ensures
        p + word_run(s, p) <= s.len(),
        forall|q: int| p <= q < p + word_run(s, p) ==> is_word_char(#[trigger] s[q]),
        p + word_run(s, p) < s.len() ==> !is_word_char(s[p + word_run(s, p)]),
    decreases s.len() - p,
{
    if p < s.len() && is_word_char(s[p]) {
        lemma_word_run(s, p + 1);
    }
}

/// A lexeme is not empty and ends inside the source, and so does the
/// terminator that is taken with it.
pub proof fn lemma_lexeme_extent(s: Seq<char>, p: int)
    requires
        0 <= p < s.len(),
    ensures
        lexeme_at(s, p).start == p,
        p < lexeme_at(s, p).end <= resume_at(s, lexeme_at(s, p)) <= s.len(),
{
    lemma_digit_run(s, p);
    lemma_word_run(s, p);
    let point = p + digit_run(s, p);
    if is_digit(s[p]) && point < s.len() {
        lemma_digit_run(s, point + 1);
    }
}

/// Whether position `q` belongs to the lexeme or is the terminator taken
/// with it.
pub open spec fn holds(s: Seq<char>, lexeme: Lexeme, q: int) -> bool {
    lexeme.start <= q < resume_at(s, lexeme)
}

/// Scanning from `p` loses nothing and reorders nothing.
///
/// The lexemes lie in the source behind `p`, each one non-empty, one behind
/// the other without overlap; and a character behind `p` that no lexeme
/// holds is a separator.
pub proof fn lemma_lexemes_in_order(s: Seq<char>, p: int)
    requires
        0 <= p,
    ensures
        forall|i: int|
            0 <= i < lexemes_from(s, p).len() ==> p <= (#[trigger] lexemes_from(s, p)[i]).start
                < lexemes_from(s, p)[i].end <= s.len(),
        forall|i: int, j: int|
            0 <= i < j < lexemes_from(s, p).len() ==> resume_at(
                s,
                #[trigger] lexemes_from(s, p)[i],
            ) <= (#[trigger] lexemes_from(s, p)[j]).start,
        forall|q: int|
            p <= q < s.len() ==> is_separator(#[trigger] s[q]) || exists|i: int|
                0 <= i < lexemes_from(s, p).len() && holds(s, #[trigger] lexemes_from(s, p)[i], q),
    decreases left_at(s, p),
{
    let all = lexemes_from(s, p);
    if p <= s.len() {
        lemma_separator_run(s, p);
    }
    match next_lexeme(s, p) {
        Some(first) => {
            let start = p + separator_run(s, p);
            lemma_lexeme_extent(s, start);
            let next = resume_at(s, first);
            let rest = lexemes_from(s, next);
            lemma_lexemes_in_order(s, next);
            assert forall|q: int| p <= q < s.len() implies is_separator(#[trigger] s[q])
                || exists|i: int| 0 <= i < all.len() && holds(s, #[trigger] all[i], q) by {
                if q < start {
                } else if q < next {
                    assert(holds(s, all[0], q));
                } else if !is_separator(s[q]) {
                    let i = choose|i: int| 0 <= i < rest.len() && holds(s, #[trigger] rest[i], q);
                    assert(holds(s, all[i + 1], q));
                }
            }
        },
        None => {},
    }
}

/// The tokens are the lexemes: as many, in the same order, each with the
/// characters of its lexeme.
pub proof fn lemma_tokens_are_lexemes(s: Seq<char>, p: int, table: Map<Seq<char>, TokenType>)
    requires
        0 <= p,
    ensures
        tokens_from(s, p, table).len() == lexemes_from(s, p).len(),
        forall|i: int|
            0 <= i < lexemes_from(s, p).len() ==> (#[trigger] tokens_from(s, p, table)[i]).text
                == lexeme_text(s, lexemes_from(s, p)[i]),
    decreases left_at(s, p),
{
    match next_lexeme(s, p) {
        Some(first) => {
            let start = p + separator_run(s, p);
            if p <= s.len() {
                lemma_separator_run(s, p);
            }
            lemma_lexeme_extent(s, start);
            let next = resume_at(s, first);
            let after = record(table, s, first);
            lemma_tokens_are_lexemes(s, next, after);
        },
        None => {},
    }
}

/// The tokens of a source reproduce it.
///
/// Every token is a stretch of the source; the stretches come in the order of
/// the tokens and do not overlap; and a character of the source that lies in
/// none of them is a separator or the one character that ended a number or a
/// word.
pub proof fn lemma_tokens_reproduce_source(s: Seq<char>)
    ensures
        tokens_of(s).len() == lexemes_from(s, 0).len(),
        forall|i: int|
            0 <= i < tokens_of(s).len() ==> {
                let lexeme = lexemes_from(s, 0)[i];
                &&& 0 <= lexeme.start < lexeme.end <= s.len()
                &&& (#[trigger] tokens_of(s)[i]).text == s.subrange(lexeme.start, lexeme.end)
            },
        forall|i: int, j: int|
            0 <= i < j < lexemes_from(s, 0).len() ==> (#[trigger] lexemes_from(s, 0)[i]).end <= (
            #[trigger] lexemes_from(s, 0)[j]).start,
        forall|q: int|
            0 <= q < s.len() ==> is_separator(#[trigger] s[q]) || exists|i: int|
                0 <= i < lexemes_from(s, 0).len() && {
                    let lexeme = #[trigger] lexemes_from(s, 0)[i];
                    lexeme.start <= q < lexeme.end || (q == lexeme.end && takes_terminator(
                        s,
                        lexeme,
                    ))
                },
{
    lemma_lexemes_in_order(s, 0);
    lemma_tokens_are_lexemes(s, 0, initial_table());
}

/// A symbol table in good order: it holds every reserved word as a keyword,
/// and whatever else it holds is a function.
pub open spec fn table_in_order(table: Map<Seq<char>, TokenType>) -> bool {
    &&& forall|w: Seq<char>|
        is_keyword(w) ==> table.contains_key(w) && #[trigger] table[w] == TokenType::KEYWORD
    &&& forall|w: Seq<char>|
        table.contains_key(w) && !is_keyword(w) ==> #[trigger] table[w] == TokenType::FUNCTION
}

/// Whether the lexeme is a word.
pub open spec fn is_word(lexeme: Lexeme) -> bool {
    lexeme.token_type == TokenType::VARIABLE
}

/// A lexeme that reads like a word is one.
proof fn lemma_same_text_same_shape(s: Seq<char>, a: int, b: int)
    requires
        0 <= a < s.len(),
        0 <= b < s.len(),
        is_word(lexeme_at(s, a)),
        lexeme_text(s, lexeme_at(s, a)) == lexeme_text(s, lexeme_at(s, b)),
    ensures
        is_word(lexeme_at(s, b)),
{
    lemma_lexeme_extent(s, a);
    lemma_lexeme_extent(s, b);
    let y = lexeme_text(s, lexeme_at(s, b));
    assert(y[0] == s[b]);
}

/// Every lexeme met from `p` on is the lexeme at its own start.
proof fn lemma_lexemes_are_lexemes(s: Seq<char>, p: int)
    requires
        0 <= p,
    ensures
        forall|i: int|
            0 <= i < lexemes_from(s, p).len() ==> {
                let lexeme = #[trigger] lexemes_from(s, p)[i];
                0 <= lexeme.start < s.len() && lexeme == lexeme_at(s, lexeme.start)
            },
    decreases left_at(s, p),
{
    match next_lexeme(s, p) {
        Some(first) => {
            let start = p + separator_run(s, p);
            lemma_lexeme_extent(s, start);
            let next = resume_at(s, first);
            lemma_lexemes_are_lexemes(s, next);
        },
        None => {},
    }
}

/// What the table holds stays in it: a word that the table holds keeps its
/// category in every token behind, and in the table at the end.
pub proof fn lemma_table_keeps(
    s: Seq<char>,
    p: int,
    table: Map<Seq<char>, TokenType>,
    w: Seq<char>,
)
    requires
        0 <= p,
        table.contains_key(w),
    ensures
        table_from(s, p, table).contains_key(w),
        table_from(s, p, table)[w] == table[w],
        forall|i: int|
            0 <= i < lexemes_from(s, p).len() && is_word(lexemes_from(s, p)[i]) && lexeme_text(
                s,
                lexemes_from(s, p)[i],
            ) == w ==> (#[trigger] tokens_from(s, p, table)[i]).token_type == table[w],
    decreases left_at(s, p),
{
    match next_lexeme(s, p) {
        Some(first) => {
            let start = p + separator_run(s, p);
            lemma_lexeme_extent(s, start);
            let next = resume_at(s, first);
            let after = record(table, s, first);
            lemma_table_keeps(s, next, after, w);
            lemma_tokens_are_lexemes(s, p, table);
        },
        None => {},
    }
}

/// Reading a lexeme leaves a table in good order in good order.
pub proof fn lemma_record_in_order(table: Map<Seq<char>, TokenType>, s: Seq<char>, lexeme: Lexeme)
    requires
        table_in_order(table),
    ensures
        table_in_order(record(table, s, lexeme)),
{
}

/// The table with which scanning begins is in good order.
pub proof fn lemma_initial_table_in_order()
    ensures
        table_in_order(initial_table()),
{
}

/// Scanning leaves a table in good order in good order.
pub proof fn lemma_table_stays_in_order(s: Seq<char>, p: int, table: Map<Seq<char>, TokenType>)
    requires
        0 <= p,
        table_in_order(table),
    ensures
        table_in_order(table_from(s, p, table)),
    decreases left_at(s, p),
{
    match next_lexeme(s, p) {
        Some(first) => {
            let start = p + separator_run(s, p);
            lemma_lexeme_extent(s, start);
            lemma_record_in_order(table, s, first);
            lemma_table_stays_in_order(s, resume_at(s, first), record(table, s, first));
        },
        None => {},
    }
}

/// Classification is stable while scanning goes on.
///
/// Once a word has been met with an opening parenthesis directly behind it,
/// every later token with the same text has the category of that one: a
/// keyword if the word is reserved, a function if it is not.
pub proof fn lemma_call_site_fixes_category(
    s: Seq<char>,
    p: int,
    table: Map<Seq<char>, TokenType>,
    i: int,
    j: int,
)
    requires
        0 <= p,
        table_in_order(table),
        0 <= i <= j < lexemes_from(s, p).len(),
        is_call_site(s, lexemes_from(s, p)[i]),
        lexeme_text(s, lexemes_from(s, p)[j]) == lexeme_text(s, lexemes_from(s, p)[i]),
    ensures
        tokens_from(s, p, table)[j].token_type == tokens_from(s, p, table)[i].token_type,
        tokens_from(s, p, table)[i].token_type == if is_keyword(
            lexeme_text(s, lexemes_from(s, p)[i]),
        ) {
            TokenType::KEYWORD
        } else {
            TokenType::FUNCTION
        },
        table_from(s, p, table).contains_key(lexeme_text(s, lexemes_from(s, p)[i])),
    decreases i,
{
    let all = lexemes_from(s, p);
    let first = next_lexeme(s, p)->0;
    let start = p + separator_run(s, p);
    lemma_lexeme_extent(s, start);
    let next = resume_at(s, first);
    let after = record(table, s, first);
    lemma_record_in_order(table, s, first);
    lemma_tokens_are_lexemes(s, p, table);
    if i == 0 {
        let w = lexeme_text(s, first);
        lemma_table_keeps(s, next, after, w);
        if j > 0 {
            lemma_lexemes_are_lexemes(s, p);
            lemma_same_text_same_shape(s, all[0].start, all[j].start);
        }
    } else {
        lemma_call_site_fixes_category(s, next, after, i - 1, j - 1);
    }
}

/// Each word token of a whole source has the category that the table holds
/// for its text when scanning has ended.
pub proof fn lemma_words_follow_final_table(
    s: Seq<char>,
    p: int,
    table: Map<Seq<char>, TokenType>,
    last: Map<Seq<char>, TokenType>,
    i: int,
)
    requires
        0 <= p,
        last == table_from(s, p, table),
        0 <= i < lexemes_from(s, p).len(),
        is_word(lexemes_from(s, p)[i]),
    ensures
        resolve(tokens_from(s, p, table)[i], last).token_type == lookup_word(
            last,
            lexeme_text(s, lexemes_from(s, p)[i]),
        ),
        resolve(tokens_from(s, p, table)[i], last).text == lexeme_text(s, lexemes_from(s, p)[i]),
    decreases i,
{
    let first = next_lexeme(s, p)->0;
    let start = p + separator_run(s, p);
    lemma_lexeme_extent(s, start);
    let next = resume_at(s, first);
    let after = record(table, s, first);
    lemma_tokens_are_lexemes(s, next, after);
    if i == 0 {
        let w = lexeme_text(s, first);
        if after.contains_key(w) {
            lemma_table_keeps(s, next, after, w);
        }
    } else {
        lemma_words_follow_final_table(s, next, after, last, i - 1);
    }
}

/// Classification is stable over a whole source.
///
/// Among the tokens of a source, a word that stands anywhere with an opening
/// parenthesis directly behind it has one category at every place where it
/// stands, before that place as well as behind it: a keyword if the word is
/// reserved, a function if it is not.
pub proof fn lemma_classification_is_stable(s: Seq<char>, i: int, j: int)
    requires
        0 <= i < lexemes_from(s, 0).len(),
        0 <= j < lexemes_from(s, 0).len(),
        is_call_site(s, lexemes_from(s, 0)[i]),
        lexeme_text(s, lexemes_from(s, 0)[j]) == lexeme_text(s, lexemes_from(s, 0)[i]),
    ensures
        tokens_of(s).len() == lexemes_from(s, 0).len(),
        tokens_of(s)[j].token_type == tokens_of(s)[i].token_type,
        tokens_of(s)[i].token_type == if is_keyword(lexeme_text(s, lexemes_from(s, 0)[i])) {
            TokenType::KEYWORD
        } else {
            TokenType::FUNCTION
        },
{
    let all = lexemes_from(s, 0);
    let table = initial_table();
    let last = table_from(s, 0, table);
    lemma_initial_table_in_order();
    lemma_tokens_are_lexemes(s, 0, table);
    lemma_lexemes_are_lexemes(s, 0);
    lemma_same_text_same_shape(s, all[i].start, all[j].start);
    lemma_words_follow_final_table(s, 0, table, last, i);
    lemma_words_follow_final_table(s, 0, table, last, j);
    lemma_call_site_fixes_category(s, 0, table, i, i);
    lemma_table_stays_in_order(s, 0, table);
}

/// An operator character with `=` directly behind it makes one operator of
/// two characters.
pub proof fn lemma_operator_folds(s: Seq<char>, p: int)
    requires
        0 <= p,
        p + 1 < s.len(),
        is_operator_char(s[p]),
        s[p + 1] == '=',
    ensures
        next_lexeme(s, p) == Some(
            Lexeme { start: p, end: p + 2, token_type: TokenType::OPERATOR },
        ),
        lexeme_text(s, next_lexeme(s, p)->0) == seq![s[p], '='],
        resume_at(s, next_lexeme(s, p)->0) == p + 2,
{
}

/// An operator character with anything but `=` behind it is an operator of one
/// character, and the character behind it begins the next token.
pub proof fn lemma_operator_alone(s: Seq<char>, p: int)
    requires
        0 <= p < s.len(),
        is_operator_char(s[p]),
        p + 1 < s.len() ==> s[p + 1] != '=',
    ensures
        next_lexeme(s, p) == Some(
            Lexeme { start: p, end: p + 1, token_type: TokenType::OPERATOR },
        ),
        lexeme_text(s, next_lexeme(s, p)->0) == seq![s[p]],
        resume_at(s, next_lexeme(s, p)->0) == p + 1,
{
}

/// A number is a decimal constant exactly when a point and at least one digit
/// follow its first digits; with a point and no digit behind it the whole is
/// invalid, the point included; without a point it is an integer constant.
pub proof fn lemma_number_shapes(s: Seq<char>, p: int)
    requires
        0 <= p < s.len(),
        is_digit(s[p]),
    ensures
        ({
            let lexeme = lexeme_at(s, p);
            let point = p + digit_run(s, p);
            let pointed = point < s.len() && s[point] == '.';
            let decimal = pointed && point + 1 < s.len() && is_digit(s[point + 1]);
            &&& next_lexeme(s, p) == Some(lexeme)
            &&& forall|q: int| p <= q < point ==> is_digit(#[trigger] s[q])
            &&& !pointed ==> lexeme.token_type == TokenType::INTCONSTANT && lexeme.end == point
            &&& pointed && !decimal ==> lexeme.token_type == TokenType::INVALID && lexeme.end
                == point + 1
            &&& decimal ==> lexeme.token_type == TokenType::FLOATCONSTANT && lexeme.end == point
                + 1 + digit_run(s, point + 1)
        }),
{
    lemma_digit_run(s, p);
}

/// The texts of the tokens, one behind the other.
pub open spec fn joined(tokens: Seq<TokenView>) -> Seq<char>
    decreases tokens.len(),
{
    if tokens.len() == 0 {
        Seq::empty()
    } else {
        tokens[0].text + joined(tokens.drop_first())
    }
}

/// The source with every separator taken out.
pub open spec fn without_separators(s: Seq<char>) -> Seq<char> {
    s.filter(|c: char| !is_separator(c))
}

/// Whether what ends a number or a word, from `p` on, is always a separator,
/// an operator or the end of the source, so that no other character is
/// consumed together with a token.
pub open spec fn is_tidy_from(s: Seq<char>, p: int) -> bool {
    forall|i: int|
        0 <= i < lexemes_from(s, p).len() && takes_terminator(s, #[trigger] lexemes_from(s, p)[i])
            ==> is_separator(s[lexemes_from(s, p)[i].end])
}

/// Nothing is left of a stretch of separators once the separators are taken
/// out, and a stretch without separators stays as it is.
proof fn lemma_stretch_without_separators(s: Seq<char>)
    ensures
        (forall|q: int| 0 <= q < s.len() ==> is_separator(#[trigger] s[q])) ==> without_separators(
            s,
        ) == Seq::<char>::empty(),
        (forall|q: int| 0 <= q < s.len() ==> !is_separator(#[trigger] s[q]))
            ==> without_separators(s) == s,
    decreases s.len(),
{
    reveal(Seq::filter);
    if s.len() > 0 {
        lemma_stretch_without_separators(s.drop_last());
    }
}

/// No separator stands inside a lexeme.
proof fn lemma_lexeme_holds_no_separator(s: Seq<char>, p: int)
    requires
        0 <= p < s.len(),
        !is_separator(s[p]),
    ensures
        forall|q: int|
            lexeme_at(s, p).start <= q < lexeme_at(s, p).end ==> !is_separator(#[trigger] s[q]),
{
    lemma_digit_run(s, p);
    lemma_word_run(s, p);
    let point = p + digit_run(s, p);
    if is_digit(s[p]) && point < s.len() {
        lemma_digit_run(s, point + 1);
    }
}

/// The texts of two sequences of tokens that agree in their texts are the
/// same when joined.
proof fn lemma_joined_by_texts(a: Seq<TokenView>, b: Seq<TokenView>)
    requires
        a.len() == b.len(),
        forall|i: int| 0 <= i < a.len() ==> (#[trigger] a[i]).text == b[i].text,
    ensures
        joined(a) == joined(b),
    decreases a.len(),
{
    if a.len() > 0 {
        lemma_joined_by_texts(a.drop_first(), b.drop_first());
    }
}

/// In a tidy source the texts of the tokens met from `p` on, one behind the
/// other, are what follows `p` with its separators taken out.
pub proof fn lemma_texts_from(s: Seq<char>, p: int, table: Map<Seq<char>, TokenType>)
    requires
        0 <= p <= s.len(),
        is_tidy_from(s, p),
    ensures
        joined(tokens_from(s, p, table)) == without_separators(s.skip(p)),
    decreases left_at(s, p),
{
    lemma_separator_run(s, p);
    let start = p + separator_run(s, p);
    let gap = s.subrange(p, start);
    lemma_stretch_without_separators(gap);
    let keep = |c: char| !is_separator(c);
    match next_lexeme(s, p) {
        Some(first) => {
            lemma_lexeme_extent(s, start);
            lemma_lexeme_holds_no_separator(s, start);
            let next = resume_at(s, first);
            let after = record(table, s, first);
            let all = lexemes_from(s, p);
            let rest = lexemes_from(s, next);
            assert(all[0] == first);
            assert forall|i: int| 0 <= i < rest.len() && takes_terminator(
                s,
                #[trigger] rest[i],
            ) implies is_separator(s[rest[i].end]) by {
                assert(all[i + 1] == rest[i]);
            }
            lemma_texts_from(s, next, after);
            let text = lexeme_text(s, first);
            let taken = s.subrange(first.end, next);
            lemma_stretch_without_separators(text);
            lemma_stretch_without_separators(taken);
            assert(s.skip(p) == gap + (text + (taken + s.skip(next))));
            Seq::filter_distributes_over_add(gap, text + (taken + s.skip(next)), keep);
            Seq::filter_distributes_over_add(text, taken + s.skip(next), keep);
            Seq::filter_distributes_over_add(taken, s.skip(next), keep);
            let tokens = tokens_from(s, p, table);
            assert(tokens.drop_first() == tokens_from(s, next, after));
        },
        None => {
        },
    }
}

/// The texts of the tokens of a tidy source, one behind the other, are the
/// source with its separators taken out.
pub proof fn lemma_texts_are_source_without_separators(s: Seq<char>)
    requires
        is_tidy_from(s, 0),
    ensures
        joined(tokens_of(s)) == without_separators(s),
{
    let table = initial_table();
    lemma_texts_from(s, 0, table);
    lemma_joined_by_texts(tokens_of(s), tokens_from(s, 0, table));
    assert(s.skip(0) == s);
}

} // verus!
