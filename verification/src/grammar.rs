//! The lexical grammar, stated over sequences of characters: which characters
//! belong to which class, where a literal ends, what one step of scanning
//! yields at a position, and the tokens and errors of a whole text.

use vstd::prelude::*;

use crate::error::{syntax_error_at, SyntaxErrorKind, SyntaxErrorView};
use crate::token::{DecimalView, LiteralView, TokenType, TokenView};

verus! {

/// An ASCII decimal digit.
pub open spec fn is_digit(c: char) -> bool {
    '0' <= c <= '9'
}

/// An ASCII letter or an underscore.
pub open spec fn is_alpha(c: char) -> bool {
    ('a' <= c <= 'z') || ('A' <= c <= 'Z') || c == '_'
}

/// A character that may stand inside an identifier.
pub open spec fn is_alphanumeric(c: char) -> bool {
    is_alpha(c) || is_digit(c)
}

/// White space within a line: a space, a carriage return or a tab.
pub open spec fn is_blank(c: char) -> bool {
    c == ' ' || c == '\r' || c == '\t'
}

/// The number of newline characters in `text`.
pub open spec fn newlines(text: Seq<char>) -> nat
    decreases text.len(),
{
    if text.len() == 0 {
        0
    } else {
        newlines(text.drop_last()) + if text.last() == '\n' {
            1nat
        } else {
            0nat
        }
    }
}

/// The number of the line that the character at `position` stands on, counted
/// from one: one more than the number of newlines before it.
pub open spec fn line_at(text: Seq<char>, position: int) -> nat
    recommends
        0 <= position <= text.len(),
{
    1 + newlines(text.take(position))
}

/// The first position at or after `from` that holds `c`, or the length of
/// `text` where there is none.
pub open spec fn find(text: Seq<char>, from: int, c: char) -> int
    recommends
        0 <= from <= text.len(),
    decreases text.len() - from,
{
    if 0 <= from < text.len() && text[from] != c {
        find(text, from + 1, c)
    } else {
        from
    }
}

/// The first position at or after `from` that holds no digit, or the length
/// of `text` where there is none.
pub open spec fn digits_end(text: Seq<char>, from: int) -> int
    recommends
        0 <= from <= text.len(),
    decreases text.len() - from,
{
    if 0 <= from < text.len() && is_digit(text[from]) {
        digits_end(text, from + 1)
    } else {
        from
    }
}

/// The first position at or after `from` that holds no letter, digit or
/// underscore, or the length of `text` where there is none.
pub open spec fn word_end(text: Seq<char>, from: int) -> int
    recommends
        0 <= from <= text.len(),
    decreases text.len() - from,
{
    if 0 <= from < text.len() && is_alphanumeric(text[from]) {
        word_end(text, from + 1)
    } else {
        from
    }
}

/// The position of the quote that closes a string whose inside starts at
/// `from`, or the length of `text` where none does. A backslash takes the
/// character behind it with it, so a quote behind a backslash closes nothing.
pub open spec fn closing_quote(text: Seq<char>, from: int) -> int
    recommends
        0 <= from <= text.len(),
    decreases text.len() - from,
{
    if 0 <= from < text.len() && text[from] != '"' {
        if text[from] == '\\' && from + 1 < text.len() {
            closing_quote(text, from + 2)
        } else {
            closing_quote(text, from + 1)
        }
    } else {
        from
    }
}

/// The kind of the token that `c` is all by itself, whatever follows it.
pub open spec fn punctuation(c: char) -> Option<TokenType> {
    if c == '(' {
        Some(TokenType::LeftParen)
    } else if c == ')' {
        Some(TokenType::RightParen)
    } else if c == '{' {
        Some(TokenType::LeftBrace)
    } else if c == '}' {
        Some(TokenType::RightBrace)
    } else if c == ',' {
        Some(TokenType::Comma)
    } else if c == '.' {
        Some(TokenType::Dot)
    } else if c == '-' {
        Some(TokenType::Minus)
    } else if c == '+' {
        Some(TokenType::Plus)
    } else if c == ';' {
        Some(TokenType::Semicolon)
    } else if c == '*' {
        Some(TokenType::Star)
    } else {
        None
    }
}

/// The kind of the operator that `c` is when no `=` follows it, for the
/// characters that are another operator with `=` behind them.
pub open spec fn operator(c: char) -> Option<TokenType> {
    if c == '!' {
        Some(TokenType::Bang)
    } else if c == '=' {
        Some(TokenType::Equal)
    } else if c == '<' {
        Some(TokenType::Less)
    } else if c == '>' {
        Some(TokenType::Greater)
    } else {
        None
    }
}

/// The kind of the operator that the operator of kind `kind` and `=` are
/// together.
pub open spec fn with_equal(kind: TokenType) -> TokenType {
    match kind {
        TokenType::Bang => TokenType::BangEqual,
        TokenType::Equal => TokenType::EqualEqual,
        TokenType::Less => TokenType::LessEqual,
        TokenType::Greater => TokenType::GreaterEqual,
        other => other,
    }
}

/// The kind of the reserved word that `word` is, if it is one.
pub open spec fn keyword(word: Seq<char>) -> Option<TokenType> {
    if word == "and"@ {
        Some(TokenType::And)
    } else if word == "class"@ {
        Some(TokenType::Class)
    } else if word == "else"@ {
        Some(TokenType::Else)
    } else if word == "false"@ {
        Some(TokenType::False)
    } else if word == "fun"@ {
        Some(TokenType::Fun)
    } else if word == "for"@ {
        Some(TokenType::For)
    } else if word == "if"@ {
        Some(TokenType::If)
    } else if word == "nil"@ {
        Some(TokenType::Nil)
    } else if word == "or"@ {
        Some(TokenType::Or)
    } else if word == "print"@ {
        Some(TokenType::Print)
    } else if word == "return"@ {
        Some(TokenType::Return)
    } else if word == "super"@ {
        Some(TokenType::Super)
    } else if word == "this"@ {
        Some(TokenType::This)
    } else if word == "true"@ {
        Some(TokenType::True)
    } else if word == "var"@ {
        Some(TokenType::Var)
    } else if word == "while"@ {
        Some(TokenType::While)
    } else {
        None
    }
}

/// The kind of the word `word`: that of the keyword it is, else an
/// identifier.
pub open spec fn word_kind(word: Seq<char>) -> TokenType {
    match keyword(word) {
        Some(kind) => kind,
        None => TokenType::Identifier,
    }
}

/// The value of the digit `c`.
pub open spec fn digit_of(c: char) -> u8
    recommends
        is_digit(c),
{
    (c as int - '0' as int) as u8
}

/// The values of the digits `chars`, in their order.
pub open spec fn digits_of(chars: Seq<char>) -> Seq<u8> {
    Seq::new(chars.len(), |i: int| digit_of(chars[i]))
}

/// The number that the lexeme of a number literal writes: its digits with the
/// point taken out, and the count of digits behind the point.
pub open spec fn decimal_of(lexeme: Seq<char>) -> DecimalView {
    let point = find(lexeme, 0, '.');
    if point < lexeme.len() {
        DecimalView {
            digits: digits_of(lexeme.take(point)) + digits_of(lexeme.skip(point + 1)),
            scale: (lexeme.len() - point - 1) as nat,
        }
    } else {
        DecimalView { digits: digits_of(lexeme), scale: 0 }
    }
}

/// The value that a token of the given kind and lexeme carries: a string
/// its lexeme without the two quotes, a number what its lexeme writes, and
/// any other token none.
pub open spec fn literal_of(kind: TokenType, lexeme: Seq<char>) -> Option<LiteralView> {
    match kind {
        TokenType::String => Some(LiteralView::Text(lexeme.subrange(1, lexeme.len() - 1))),
        TokenType::Number => Some(LiteralView::Number(decimal_of(lexeme))),
        _ => None,
    }
}

/// What one step of scanning yields: the position behind what it consumed,
/// and the token or the error that it found there, if any. White space and
/// comments yield neither.
pub struct Lexed {
    pub end: int,
    pub token: Option<TokenView>,
    pub error: Option<SyntaxErrorView>,
}

/// The token of the given kind and literal value whose lexeme is `text` from
/// `start` to `end`. Its line is that of its first character.
pub open spec fn token_at(
    text: Seq<char>,
    kind: TokenType,
    start: int,
    end: int,
    literal: Option<LiteralView>,
) -> TokenView {
    TokenView { kind, lexeme: text.subrange(start, end), literal, line: line_at(text, start) }
}

/// A step that yields the token of the given kind from `start` to `end`.
pub open spec fn emit(
    text: Seq<char>,
    kind: TokenType,
    start: int,
    end: int,
    literal: Option<LiteralView>,
) -> Lexed {
    Lexed { end, token: Some(token_at(text, kind, start, end, literal)), error: None }
}

/// A step that consumes up to `end` and yields nothing.
pub open spec fn skip(end: int) -> Lexed {
    Lexed { end, token: None, error: None }
}

/// A step that consumes up to `end` and yields an error of the given kind,
/// reported at the line of `start`.
pub open spec fn fail(text: Seq<char>, kind: SyntaxErrorKind, start: int, end: int) -> Lexed {
    Lexed { end, token: None, error: Some(syntax_error_at(kind, line_at(text, start))) }
}

/// The step at an opening quote: the string runs to the quote that closes
/// it, over any newlines, and its value is what stands between the two, as it
/// stands. Without a closing quote the rest of the text is consumed and the
/// step fails, at the line of the opening quote.
pub open spec fn lex_string(text: Seq<char>, start: int) -> Lexed {
    let close = closing_quote(text, start + 1);
    if close < text.len() {
        emit(
            text,
            TokenType::String,
            start,
            close + 1,
            Some(LiteralView::Text(text.subrange(start + 1, close))),
        )
    } else {
        fail(text, SyntaxErrorKind::UnterminatedString, start, text.len() as int)
    }
}

/// Where the number literal that starts at `start` ends: behind its digits,
/// or, where a point and at least one more digit follow them, behind the
/// digits after the point.
pub open spec fn number_end(text: Seq<char>, start: int) -> int {
    let whole_end = digits_end(text, start);
    if whole_end + 1 < text.len() && text[whole_end] == '.' && is_digit(text[whole_end + 1]) {
        digits_end(text, whole_end + 1)
    } else {
        whole_end
    }
}

/// The step at a digit.
pub open spec fn lex_number(text: Seq<char>, start: int) -> Lexed {
    let end = number_end(text, start);
    emit(
        text,
        TokenType::Number,
        start,
        end,
        Some(LiteralView::Number(decimal_of(text.subrange(start, end)))),
    )
}

/// The step at a letter or an underscore.
pub open spec fn lex_word(text: Seq<char>, start: int) -> Lexed {
    let end = word_end(text, start);
    emit(text, word_kind(text.subrange(start, end)), start, end, None)
}

/// The step of scanning at `start`, a position within `text`.
pub open spec fn lex_one(text: Seq<char>, start: int) -> Lexed
    recommends
        0 <= start < text.len(),
{
    let c = text[start];
    let next = start + 1;
    if punctuation(c) is Some {
        emit(text, punctuation(c)->0, start, next, None)
    } else if operator(c) is Some {
        if next < text.len() && text[next] == '=' {
            emit(text, with_equal(operator(c)->0), start, next + 1, None)
        } else {
            emit(text, operator(c)->0, start, next, None)
        }
    } else if c == '/' {
        if next < text.len() && text[next] == '/' {
            skip(find(text, next + 1, '\n'))
        } else {
            emit(text, TokenType::Slash, start, next, None)
        }
    } else if is_blank(c) || c == '\n' {
        skip(next)
    } else if c == '"' {
        lex_string(text, start)
    } else if is_digit(c) {
        lex_number(text, start)
    } else if is_alpha(c) {
        lex_word(text, start)
    } else {
        fail(text, SyntaxErrorKind::UnexpectedCharacter, start, next)
    }
}

/// The token that marks the end of `text`: no lexeme, no value, and the line
/// of the end of the text.
pub open spec fn eof_token(text: Seq<char>) -> TokenView {
    token_at(text, TokenType::Eof, text.len() as int, text.len() as int, None)
}

/// The item of an option as a sequence of its own: one element, or none.
pub open spec fn optional<T>(item: Option<T>) -> Seq<T> {
    match item {
        Some(t) => seq![t],
        None => Seq::empty(),
    }
}

/// The tokens of `text` from `start` on, the end marker included.
pub open spec fn tokens_from(text: Seq<char>, start: int) -> Seq<TokenView>
    recommends
        0 <= start <= text.len(),
    decreases text.len() - start,
{
    if 0 <= start < text.len() {
        let step = lex_one(text, start);
        proof {
            lemma_lex_one_advances(text, start);
        }
        optional(step.token) + tokens_from(text, step.end)
    } else {
        seq![eof_token(text)]
    }
}

/// The lexical errors of `text` from `start` on, in the order of the text.
pub open spec fn errors_from(text: Seq<char>, start: int) -> Seq<SyntaxErrorView>
    recommends
        0 <= start <= text.len(),
    decreases text.len() - start,
{
    if 0 <= start < text.len() {
        let step = lex_one(text, start);
        proof {
            lemma_lex_one_advances(text, start);
        }
        optional(step.error) + errors_from(text, step.end)
    } else {
        Seq::empty()
    }
}

/// The tokens of `text`.
pub open spec fn tokens_of(text: Seq<char>) -> Seq<TokenView> {
    tokens_from(text, 0)
}

/// The lexical errors of `text`.
pub open spec fn errors_of(text: Seq<char>) -> Seq<SyntaxErrorView> {
    errors_from(text, 0)
}

/// A text holds no more newlines than characters.
pub proof fn lemma_newlines_bound(text: Seq<char>)
    ensures
        newlines(text) <= text.len(),
    decreases text.len(),
{
    if text.len() > 0 {
        lemma_newlines_bound(text.drop_last());
    }
}

/// Lines are counted from one, and a position lies on no later line than
/// one more than the characters before it.
pub proof fn lemma_line_at_bounds(text: Seq<char>, position: int)
    requires
        0 <= position <= text.len(),
    ensures
        1 <= line_at(text, position) <= position + 1,
{
    lemma_newlines_bound(text.take(position));
}

/// The line of the first position is one.
pub proof fn lemma_line_at_start(text: Seq<char>)
    ensures
        line_at(text, 0) == 1,
{
    assert(text.take(0).len() == 0);
}

/// The next position lies on the next line behind a newline, and on the same
/// line behind any other character.
pub proof fn lemma_line_at_next(text: Seq<char>, position: int)
    requires
        0 <= position < text.len(),
    ensures
        line_at(text, position + 1) == line_at(text, position) + if text[position] == '\n' {
            1nat
        } else {
            0nat
        },
{
    let longer = text.take(position + 1);
    assert(longer.drop_last() =~= text.take(position));
    assert(longer.last() == text[position]);
}

/// Later positions lie on later or equal lines.
pub proof fn lemma_line_at_ascends(text: Seq<char>, from: int, to: int)
    requires
        0 <= from <= to <= text.len(),
    ensures
        line_at(text, from) <= line_at(text, to),
    decreases to - from,
{
    if from < to {
        lemma_line_at_ascends(text, from, to - 1);
        lemma_line_at_next(text, to - 1);
    }
}

/// `find` stays within the text, passes nothing that is `c`, and stops at
/// `c` or at the end.
pub proof fn lemma_find(text: Seq<char>, from: int, c: char)
    requires
        0 <= from <= text.len(),
    ensures
        from <= find(text, from, c) <= text.len(),
        forall|i: int| from <= i < find(text, from, c) ==> text[i] != c,
        find(text, from, c) < text.len() ==> text[find(text, from, c)] == c,
    decreases text.len() - from,
{
    if from < text.len() && text[from] != c {
        lemma_find(text, from + 1, c);
    }
}

/// The position that passes nothing that is `c` and stops at `c` or at the
/// end is the one that `find` gives.
pub proof fn lemma_find_unique(text: Seq<char>, from: int, c: char, end: int)
    requires
        0 <= from <= end <= text.len(),
        forall|i: int| from <= i < end ==> text[i] != c,
        end < text.len() ==> text[end] == c,
    ensures
        find(text, from, c) == end,
    decreases end - from,
{
    if from < end {
        lemma_find_unique(text, from + 1, c, end);
    }
}

/// `closing_quote` stays within the text and stops at a quote or at the end.
pub proof fn lemma_closing_quote(text: Seq<char>, from: int)
    requires
        0 <= from <= text.len(),
    ensures
        from <= closing_quote(text, from) <= text.len(),
        closing_quote(text, from) < text.len() ==> text[closing_quote(text, from)] == '"',
    decreases text.len() - from,
{
    if from < text.len() && text[from] != '"' {
        if text[from] == '\\' && from + 1 < text.len() {
            lemma_closing_quote(text, from + 2);
        } else {
            lemma_closing_quote(text, from + 1);
        }
    }
}

/// `digits_end` stays within the text, passes digits only, and stops at what
/// is no digit or at the end.
pub proof fn lemma_digits_end(text: Seq<char>, from: int)
    requires
        0 <= from <= text.len(),
    ensures
        from <= digits_end(text, from) <= text.len(),
        forall|i: int| from <= i < digits_end(text, from) ==> is_digit(text[i]),
        digits_end(text, from) < text.len() ==> !is_digit(text[digits_end(text, from)]),
    decreases text.len() - from,
{
    if from < text.len() && is_digit(text[from]) {
        lemma_digits_end(text, from + 1);
    }
}

/// The position that passes digits only and stops at what is no digit or at
/// the end is the one that `digits_end` gives.
pub proof fn lemma_digits_end_unique(text: Seq<char>, from: int, end: int)
    requires
        0 <= from <= end <= text.len(),
        forall|i: int| from <= i < end ==> is_digit(text[i]),
        end < text.len() ==> !is_digit(text[end]),
    ensures
        digits_end(text, from) == end,
    decreases end - from,
{
    if from < end {
        lemma_digits_end_unique(text, from + 1, end);
    }
}

/// `word_end` stays within the text, passes letters, digits and underscores
/// only, and stops at what is none of them or at the end.
pub proof fn lemma_word_end(text: Seq<char>, from: int)
    requires
        0 <= from <= text.len(),
    ensures
        from <= word_end(text, from) <= text.len(),
        forall|i: int| from <= i < word_end(text, from) ==> is_alphanumeric(text[i]),
        word_end(text, from) < text.len() ==> !is_alphanumeric(text[word_end(text, from)]),
    decreases text.len() - from,
{
    if from < text.len() && is_alphanumeric(text[from]) {
        lemma_word_end(text, from + 1);
    }
}

/// The position that passes letters, digits and underscores only and stops
/// at what is none of them or at the end is the one that `word_end` gives.
pub proof fn lemma_word_end_unique(text: Seq<char>, from: int, end: int)
    requires
        0 <= from <= end <= text.len(),
        forall|i: int| from <= i < end ==> is_alphanumeric(text[i]),
        end < text.len() ==> !is_alphanumeric(text[end]),
    ensures
        word_end(text, from) == end,
    decreases end - from,
{
    if from < end {
        lemma_word_end_unique(text, from + 1, end);
    }
}

/// A number literal is at least one character long and ends within the text.
pub proof fn lemma_number_end(text: Seq<char>, start: int)
    requires
        0 <= start < text.len(),
        is_digit(text[start]),
    ensures
        start < number_end(text, start) <= text.len(),
{
    lemma_digits_end(text, start);
    let whole_end = digits_end(text, start);
    if whole_end + 1 < text.len() {
        lemma_digits_end(text, whole_end + 1);
    }
}

/// Every step consumes at least one character and ends within the text.
pub proof fn lemma_lex_one_advances(text: Seq<char>, start: int)
    requires
        0 <= start < text.len(),
    ensures
        start < lex_one(text, start).end <= text.len(),
{
    let c = text[start];
    let next = start + 1;
    if punctuation(c) is Some {
    } else if operator(c) is Some {
    } else if c == '/' {
        if next < text.len() && text[next] == '/' {
            lemma_find(text, next + 1, '\n');
        }
    } else if is_blank(c) || c == '\n' {
    } else if c == '"' {
        lemma_closing_quote(text, next);
    } else if is_digit(c) {
        lemma_number_end(text, start);
    } else if is_alpha(c) {
        lemma_word_end(text, start);
    }
}

} // verus!
