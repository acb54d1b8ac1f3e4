//! The executable side of the grammar's classes: which class a character
//! belongs to, which kind a word or an operator has, and what number the
//! digits of a literal write.

use vstd::prelude::*;

use crate::grammar::{
    decimal_of, digit_of, digits_of, is_alpha, is_alphanumeric, is_blank, is_digit,
    lemma_find_unique, operator, punctuation, with_equal, word_kind,
};
use crate::token::{Decimal, TokenType};

verus! {

/// Whether `c` is a decimal digit.
pub(crate) fn char_is_digit(c: char) -> (r: bool)
    ensures
        r == is_digit(c),
{
    '0' <= c && c <= '9'
}

/// Whether `c` is a letter or an underscore.
pub(crate) fn char_is_alpha(c: char) -> (r: bool)
    ensures
        r == is_alpha(c),
{
    ('a' <= c && c <= 'z') || ('A' <= c && c <= 'Z') || c == '_'
}

/// Whether `c` may stand inside an identifier.
pub(crate) fn char_is_alphanumeric(c: char) -> (r: bool)
    ensures
        r == is_alphanumeric(c),
{
    char_is_alpha(c) || char_is_digit(c)
}

/// Whether `c` is white space within a line.
pub(crate) fn char_is_blank(c: char) -> (r: bool)
    ensures
        r == is_blank(c),
{
    c == ' ' || c == '\r' || c == '\t'
}

/// The kind of the token that `c` is all by itself, if it is one.
pub(crate) fn punctuation_kind(c: char) -> (kind: Option<TokenType>)
    ensures
        kind == punctuation(c),
{
    match c {
        '(' => Some(TokenType::LeftParen),
        ')' => Some(TokenType::RightParen),
        '{' => Some(TokenType::LeftBrace),
        '}' => Some(TokenType::RightBrace),
        ',' => Some(TokenType::Comma),
        '.' => Some(TokenType::Dot),
        '-' => Some(TokenType::Minus),
        '+' => Some(TokenType::Plus),
        ';' => Some(TokenType::Semicolon),
        '*' => Some(TokenType::Star),
        _ => None,
    }
}

/// The kind of the operator that `c` is when no `=` follows it, if `c` is
/// one of those that `=` may follow.
pub(crate) fn operator_kind(c: char) -> (kind: Option<TokenType>)
    ensures
        kind == operator(c),
{
    match c {
        '!' => Some(TokenType::Bang),
        '=' => Some(TokenType::Equal),
        '<' => Some(TokenType::Less),
        '>' => Some(TokenType::Greater),
        _ => None,
    }
}

/// The kind of the operator that the operator of kind `kind` and `=` are
/// together.
pub(crate) fn kind_with_equal(kind: TokenType) -> (longer: TokenType)
    ensures
        longer == with_equal(kind),
{
    match kind {
        TokenType::Bang => TokenType::BangEqual,
        TokenType::Equal => TokenType::EqualEqual,
        TokenType::Less => TokenType::LessEqual,
        TokenType::Greater => TokenType::GreaterEqual,
        other => other,
    }
}

/// Whether the characters of `source` from `start` to `end` spell `word`.
pub(crate) fn spells(source: &Vec<char>, start: usize, end: usize, word: &str) -> (same: bool)
    requires
        start <= end <= source.len(),
    ensures
        same == (source@.subrange(start as int, end as int) == word@),
{
    let ghost lexeme = source@.subrange(start as int, end as int);
    let mut same = true;
    let mut at: usize = start;
    for c in it: word.chars()
        invariant
            it.seq() == word@,
            lexeme == source@.subrange(start as int, end as int),
            start <= at <= end <= source.len(),
            same ==> at == start + it.index(),
            same ==> forall|i: int| 0 <= i < it.index() ==> lexeme[i] == word@[i],
            !same ==> lexeme != word@,
    {
        if same {
            if at < end && source[at] == c {
                at += 1;
            } else {
                same = false;
            }
        }
    }
    let same = same && at == end;
    proof {
        if same {
            assert(lexeme =~= word@);
        }
    }
    same
}

/// The kind of the word that the characters of `source` from `start` to
/// `end` spell.
pub(crate) fn word_kind_between(source: &Vec<char>, start: usize, end: usize) -> (kind: TokenType)
    requires
        start <= end <= source.len(),
    ensures
        kind == word_kind(source@.subrange(start as int, end as int)),
{
    if spells(source, start, end, "and") {
        TokenType::And
    } else if spells(source, start, end, "class") {
        TokenType::Class
    } else if spells(source, start, end, "else") {
        TokenType::Else
    } else if spells(source, start, end, "false") {
        TokenType::False
    } else if spells(source, start, end, "fun") {
        TokenType::Fun
    } else if spells(source, start, end, "for") {
        TokenType::For
    } else if spells(source, start, end, "if") {
        TokenType::If
    } else if spells(source, start, end, "nil") {
        TokenType::Nil
    } else if spells(source, start, end, "or") {
        TokenType::Or
    } else if spells(source, start, end, "print") {
        TokenType::Print
    } else if spells(source, start, end, "return") {
        TokenType::Return
    } else if spells(source, start, end, "super") {
        TokenType::Super
    } else if spells(source, start, end, "this") {
        TokenType::This
    } else if spells(source, start, end, "true") {
        TokenType::True
    } else if spells(source, start, end, "var") {
        TokenType::Var
    } else if spells(source, start, end, "while") {
        TokenType::While
    } else {
        TokenType::Identifier
    }
}

/// The value of the digit `c`.
pub(crate) fn digit_value(c: char) -> (value: u8)
    requires
        is_digit(c),
    ensures
        value == digit_of(c),
        value <= 9,
{
    ((c as u32) - ('0' as u32)) as u8
}

/// Appends to `digits` the values of the digits of `source` from `from` to
/// `to`.
fn push_digits(digits: &mut Vec<u8>, source: &Vec<char>, from: usize, to: usize)
    requires
        from <= to <= source.len(),
        forall|i: int| from <= i < to ==> is_digit(source@[i]),
    ensures
        final(digits)@ == old(digits)@ + digits_of(source@.subrange(from as int, to as int)),
{
    let ghost before = digits@;
    let mut at: usize = from;
    assert(digits@ =~= before + digits_of(source@.subrange(from as int, at as int)));
    while at < to
        invariant
            from <= at <= to <= source.len(),
            forall|i: int| from <= i < to ==> is_digit(source@[i]),
            digits@ == before + digits_of(source@.subrange(from as int, at as int)),
        decreases to - at,
    {
        digits.push(digit_value(source[at]));
        at += 1;
        assert(digits@ =~= before + digits_of(source@.subrange(from as int, at as int)));
    }
}

/// The number that the characters of `source` from `start` to `end` write,
/// where they are digits up to `whole_end` and, if that is not yet `end`, a
/// point there and digits behind it.
pub(crate) fn decimal_between(
    source: &Vec<char>,
    start: usize,
    whole_end: usize,
    end: usize,
) -> (number: Decimal)
    requires
        start <= whole_end <= end <= source.len(),
        forall|i: int| start <= i < whole_end ==> is_digit(source@[i]),
        whole_end < end ==> source@[whole_end as int] == '.',
        forall|i: int| whole_end < i < end ==> is_digit(source@[i]),
    ensures
        number@ == decimal_of(source@.subrange(start as int, end as int)),
        number@.well_formed(),
{
    let ghost lexeme = source@.subrange(start as int, end as int);
    let ghost point = whole_end - start;
    proof {
        lemma_find_unique(lexeme, 0, '.', point);
    }
    let mut digits: Vec<u8> = Vec::new();
    push_digits(&mut digits, source, start, whole_end);
    assert(lexeme.take(point) =~= source@.subrange(start as int, whole_end as int));
    if whole_end < end {
        push_digits(&mut digits, source, whole_end + 1, end);
        assert(lexeme.skip(point + 1) =~= source@.subrange(whole_end + 1, end as int));
        Decimal { digits, scale: end - whole_end - 1 }
    } else {
        assert(lexeme.take(point) =~= lexeme);
        Decimal { digits, scale: 0 }
    }
}

} // verus!
