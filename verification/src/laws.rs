//! What holds of the tokens of every text.

use vstd::prelude::*;

use crate::error::SyntaxErrorView;
use crate::grammar::{
    closing_quote, decimal_of, digits_end, eof_token, errors_of, is_digit, lemma_closing_quote,
    lemma_digits_end, lemma_find_unique, lemma_lex_one_advances, lemma_line_at_ascends,
    lemma_line_at_bounds, lex_one, line_at, literal_of, number_end, tokens_from, tokens_of,
};
use crate::token::{TokenType, TokenView};

verus! {

/// The lexeme of a number literal holds digits and at most one point, which
/// has a digit on either side; so the number that it writes has a digit for
/// each character but the point, each below ten.
pub proof fn lemma_number_is_well_formed(text: Seq<char>, start: int)
    requires
        0 <= start < text.len(),
        is_digit(text[start]),
    ensures
        decimal_of(text.subrange(start, number_end(text, start))).well_formed(),
        decimal_of(text.subrange(start, number_end(text, start))).scale < number_end(text, start)
            - start,
{
    let whole_end = digits_end(text, start);
    let end = number_end(text, start);
    lemma_digits_end(text, start);
    if whole_end + 1 < text.len() {
        lemma_digits_end(text, whole_end + 1);
    }
    let lexeme = text.subrange(start, end);
    let point = whole_end - start;
    assert forall|i: int| 0 <= i < lexeme.len() && i != point implies is_digit(lexeme[i]) by {
        assert(lexeme[i] == text[start + i]);
    }
    lemma_find_unique(lexeme, 0, '.', point);
    let number = decimal_of(lexeme);
    assert forall|i: int| 0 <= i < number.digits.len() implies number.digits[i] <= 9 by {
        if i < point {
            assert(is_digit(lexeme[i]));
        } else {
            assert(is_digit(lexeme[i + 1]));
        }
    }
}

/// The token of a step, where it yields one, is no end marker; its lexeme is
/// what the step consumed, which is not empty; it stands on the line of its
/// first character; and its value is the one that its kind and its lexeme
/// give it.
pub proof fn lemma_token_of_step(text: Seq<char>, start: int)
    requires
        0 <= start < text.len(),
    ensures
        lex_one(text, start).token matches Some(token) ==> {
            &&& token.kind != TokenType::Eof
            &&& token.lexeme == text.subrange(start, lex_one(text, start).end)
            &&& token.lexeme.len() > 0
            &&& token.line == line_at(text, start)
            &&& token.literal == literal_of(token.kind, token.lexeme)
        },
{
    lemma_lex_one_advances(text, start);
    if text[start] == '"' {
        let close = closing_quote(text, start + 1);
        lemma_closing_quote(text, start + 1);
        if close < text.len() {
            let lexeme = text.subrange(start, close + 1);
            assert(lexeme.subrange(1, lexeme.len() - 1) =~= text.subrange(start + 1, close));
        }
    }
}

/// Each token of a text carries the value that its kind and its lexeme give
/// it: a string what stands between its quotes, a number what its digits
/// write, and any other token none.
pub proof fn lemma_token_values(text: Seq<char>, start: int)
    requires
        0 <= start <= text.len(),
    ensures
        forall|i: int|
            0 <= i < tokens_from(text, start).len() ==> (#[trigger] tokens_from(
                text,
                start,
            )[i]).literal == literal_of(
                tokens_from(text, start)[i].kind,
                tokens_from(text, start)[i].lexeme,
            ),
    decreases text.len() - start,
{
    if start < text.len() {
        lemma_lex_one_advances(text, start);
        lemma_token_of_step(text, start);
        lemma_token_values(text, lex_one(text, start).end);
    }
}

/// Each number among the tokens of a text is well-formed: its digits are
/// below ten, and its point lies within them.
pub proof fn lemma_numbers_are_well_formed(text: Seq<char>, start: int)
    requires
        0 <= start <= text.len(),
    ensures
        forall|i: int|
            0 <= i < tokens_from(text, start).len() && (#[trigger] tokens_from(
                text,
                start,
            )[i]).kind == TokenType::Number ==> decimal_of(
                tokens_from(text, start)[i].lexeme,
            ).well_formed(),
    decreases text.len() - start,
{
    if start < text.len() {
        lemma_lex_one_advances(text, start);
        if is_digit(text[start]) {
            lemma_number_is_well_formed(text, start);
        }
        lemma_numbers_are_well_formed(text, lex_one(text, start).end);
    }
}

/// The tokens of a text end with the end marker, which has no lexeme and no
/// value and stands on the last line of the text; no token before it is an
/// end marker or has an empty lexeme.
pub proof fn lemma_tokens_end_with_eof(text: Seq<char>, start: int)
    requires
        0 <= start <= text.len(),
    ensures
        tokens_from(text, start).len() >= 1,
        tokens_from(text, start).last() == eof_token(text),
        eof_token(text).kind == TokenType::Eof,
        eof_token(text).lexeme.len() == 0,
        eof_token(text).literal is None,
        eof_token(text).line == line_at(text, text.len() as int),
        forall|i: int|
            0 <= i < tokens_from(text, start).len() - 1 ==> {
                &&& (#[trigger] tokens_from(text, start)[i]).kind != TokenType::Eof
                &&& tokens_from(text, start)[i].lexeme.len() > 0
            },
    decreases text.len() - start,
{
    if start < text.len() {
        lemma_lex_one_advances(text, start);
        lemma_token_of_step(text, start);
        lemma_tokens_end_with_eof(text, lex_one(text, start).end);
    }
}

/// The lines of the tokens of a text never go down, from the line of the
/// position they are scanned from to the last line of the text.
pub proof fn lemma_token_lines_ascend(text: Seq<char>, start: int)
    requires
        0 <= start <= text.len(),
    ensures
        forall|i: int|
            0 <= i < tokens_from(text, start).len() ==> line_at(text, start) <= (
            #[trigger] tokens_from(text, start)[i]).line <= line_at(text, text.len() as int),
        forall|i: int, j: int|
            0 <= i <= j < tokens_from(text, start).len() ==> (#[trigger] tokens_from(
                text,
                start,
            )[i]).line <= (#[trigger] tokens_from(text, start)[j]).line,
    decreases text.len() - start,
{
    if start < text.len() {
        let end = lex_one(text, start).end;
        lemma_lex_one_advances(text, start);
        lemma_token_of_step(text, start);
        lemma_token_lines_ascend(text, end);
        lemma_line_at_ascends(text, start, end);
        lemma_line_at_ascends(text, start, text.len() as int);
    } else {
        lemma_line_at_ascends(text, start, text.len() as int);
    }
}

/// The first line is line one: no token of a text stands on a line before it.
pub proof fn lemma_token_lines_start_at_one(text: Seq<char>)
    ensures
        forall|i: int| 0 <= i < tokens_of(text).len() ==> (#[trigger] tokens_of(text)[i]).line >= 1,
{
    lemma_token_lines_ascend(text, 0);
    lemma_line_at_bounds(text, 0);
}

/// Scanning is a function of the text: two scans of one text find the same
/// tokens and the same errors.
pub proof fn lemma_scan_repeats(
    text: Seq<char>,
    first: (Seq<TokenView>, Seq<SyntaxErrorView>),
    second: (Seq<TokenView>, Seq<SyntaxErrorView>),
)
    requires
        first.0 == tokens_of(text) && first.1 == errors_of(text),
        second.0 == tokens_of(text) && second.1 == errors_of(text),
    ensures
        first == second,
{
}

} // verus!
