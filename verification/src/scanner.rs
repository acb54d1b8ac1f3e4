//! The scanner: a cursor over the characters of a text that finds one token
//! after the other, and the function that scans a whole text.

use vstd::prelude::*;
use vstd::string::*;

use crate::classify::{
    char_is_alpha, char_is_alphanumeric, char_is_blank, char_is_digit, decimal_between,
    kind_with_equal, operator_kind, punctuation_kind, word_kind_between,
};
use crate::error::{RloxSyntaxError, SyntaxErrorKind, SyntaxErrorView};
use crate::grammar::{
    closing_quote, digits_end, eof_token, errors_from, errors_of, find, is_alpha,
    is_alphanumeric, is_digit, lemma_digits_end, lemma_digits_end_unique, lemma_find_unique,
    lemma_lex_one_advances, lemma_line_at_bounds, lemma_line_at_next, lemma_line_at_start,
    lemma_word_end_unique, lex_number, lex_one, lex_string, lex_word, line_at, optional,
    token_at, tokens_from, tokens_of,
};
use crate::laws::{lemma_token_lines_ascend, lemma_tokens_end_with_eof};
use crate::token::{literal_view, Literal, Token, TokenType, TokenView};

verus! {

/// `String::push` of std appends the one character to the string and leaves
/// what was there as it was.
pub assume_specification[ std::string::String::push ](s: &mut std::string::String, ch: char)
    ensures
        final(s)@ == old(s)@.push(ch),
;

/// The characters of `source` from `from` to `to`, as a string.
fn text_between(source: &Vec<char>, from: usize, to: usize) -> (text: String)
    requires
        from <= to <= source.len(),
    ensures
        text@ == source@.subrange(from as int, to as int),
{
    let mut text = String::new();
    let mut at: usize = from;
    while at < to
        invariant
            from <= at <= to <= source.len(),
            text@ == source@.subrange(from as int, at as int),
        decreases to - at,
    {
        text.push(source[at]);
        at += 1;
        assert(source@.subrange(from as int, at as int) =~= source@.subrange(
            from as int,
            at - 1,
        ).push(source@[at - 1]));
    }
    assert(source@.subrange(from as int, from as int) =~= Seq::<char>::empty());
    text
}

/// The cursor of one scan: the text, the start of the token that is being
/// read and the position of the next character to read, each with its line,
/// and the tokens and errors found so far.
pub struct Scanner {
    source: Vec<char>,
    tokens: Vec<Token>,
    errors: Vec<RloxSyntaxError>,
    start: usize,
    start_line: u128,
    current: usize,
    line: u128,
}

impl Scanner {
    /// The text that is scanned.
    pub closed spec fn text(&self) -> Seq<char> {
        self.source@
    }

    /// The position at which the token that is being read starts.
    pub closed spec fn token_start(&self) -> int {
        self.start as int
    }

    /// The line that the scanner holds for `token_start`.
    pub closed spec fn token_line(&self) -> nat {
        self.start_line as nat
    }

    /// The position of the next character to read.
    pub closed spec fn position(&self) -> int {
        self.current as int
    }

    /// The line that the scanner holds for `position`.
    pub closed spec fn line(&self) -> nat {
        self.line as nat
    }

    /// The tokens found so far.
    pub closed spec fn found_tokens(&self) -> Seq<TokenView> {
        self.tokens.deep_view()
    }

    /// The errors found so far.
    pub closed spec fn found_errors(&self) -> Seq<SyntaxErrorView> {
        self.errors.deep_view()
    }

    /// The cursor lies within the text, the start of the token not behind the
    /// position, and the two lines that the scanner holds are those of the
    /// two positions.
    pub open spec fn well_formed(&self) -> bool {
        &&& 0 <= self.token_start() <= self.position() <= self.text().len()
        &&& self.token_line() == line_at(self.text(), self.token_start())
        &&& self.line() == line_at(self.text(), self.position())
    }

    /// Two scanners that differ at most in their cursor: the text and what
    /// was found so far are the same.
    pub open spec fn same_findings(&self, other: &Scanner) -> bool {
        &&& self.text() == other.text()
        &&& self.found_tokens() == other.found_tokens()
        &&& self.found_errors() == other.found_errors()
    }

    /// A scanner at the start of `source`, with nothing found yet.
    pub fn new(source: &str) -> (scanner: Scanner)
        ensures
            scanner.well_formed(),
            scanner.text() == source@,
            scanner.token_start() == 0,
            scanner.position() == 0,
            scanner.found_tokens() == Seq::<TokenView>::empty(),
            scanner.found_errors() == Seq::<SyntaxErrorView>::empty(),
    {
        let mut chars: Vec<char> = Vec::new();
        for c in it: source.chars()
            invariant
                chars@ == it.seq().take(it.index()),
        {
            chars.push(c);
        }
        let scanner = Scanner {
            source: chars,
            tokens: Vec::new(),
            errors: Vec::new(),
            start: 0,
            start_line: 1,
            current: 0,
            line: 1,
        };
        proof {
            lemma_line_at_start(scanner.source@);
            assert(scanner.tokens.deep_view() =~= Seq::<TokenView>::empty());
            assert(scanner.errors.deep_view() =~= Seq::<SyntaxErrorView>::empty());
        }
        scanner
    }

    /// Whether the whole text has been read.
    pub fn is_at_end(&self) -> (at_end: bool)
        ensures
            at_end == (self.position() >= self.text().len()),
    {
        self.current >= self.source.len()
    }

    /// Reads the next character and moves behind it, to the next line where
    /// the character is a newline.
    pub fn advance(&mut self) -> (c: char)
        requires
            old(self).well_formed(),
            old(self).position() < old(self).text().len(),
        ensures
            final(self).well_formed(),
            final(self).same_findings(old(self)),
            final(self).token_start() == old(self).token_start(),
            final(self).position() == old(self).position() + 1,
            c == old(self).text()[old(self).position()],
    {
        let c = self.source[self.current];
        proof {
            assert(self.current < self.source.len());
            lemma_line_at_bounds(self.source@, self.current as int);
            lemma_line_at_next(self.source@, self.current as int);
        }
        self.current += 1;
        if c == '\n' {
            self.line += 1;
        }
        c
    }

    /// The next character, where there is one.
    fn peek(&self) -> (next: Option<char>)
        requires
            self.well_formed(),
        ensures
            next == if self.position() < self.text().len() {
                Some(self.text()[self.position()])
            } else {
                None
            },
    {
        if self.current < self.source.len() {
            Some(self.source[self.current])
        } else {
            None
        }
    }

    /// The character behind the next one, where there is one.
    fn peek_next(&self) -> (next: Option<char>)
        requires
            self.well_formed(),
        ensures
            next == if self.position() + 1 < self.text().len() {
                Some(self.text()[self.position() + 1])
            } else {
                None
            },
    {
        if self.current < self.source.len() && self.current + 1 < self.source.len() {
            Some(self.source[self.current + 1])
        } else {
            None
        }
    }

    /// Adds the token of the given kind and literal value whose lexeme runs
    /// from the start of the token to the position.
    pub fn add_literal_token(&mut self, token_type: TokenType, literal: Option<Literal>)
        requires
            old(self).well_formed(),
        ensures
            final(self).well_formed(),
            final(self).text() == old(self).text(),
            final(self).token_start() == old(self).token_start(),
            final(self).position() == old(self).position(),
            final(self).found_errors() == old(self).found_errors(),
            final(self).found_tokens() == old(self).found_tokens().push(
                token_at(
                    old(self).text(),
                    token_type,
                    old(self).token_start(),
                    old(self).position(),
                    literal_view(literal),
                ),
            ),
    {
        let lexeme = text_between(&self.source, self.start, self.current);
        proof {
            lemma_line_at_bounds(self.source@, self.start as int);
        }
        let token = Token::new(token_type, lexeme, literal, self.start_line);
        let ghost before = self.tokens.deep_view();
        self.tokens.push(token);
        assert(self.tokens.deep_view() =~= before.push(token@));
    }

    /// Adds the token of the given kind, without a literal value, whose
    /// lexeme runs from the start of the token to the position.
    pub fn add_token(&mut self, token_type: TokenType)
        requires
            old(self).well_formed(),
        ensures
            final(self).well_formed(),
            final(self).text() == old(self).text(),
            final(self).token_start() == old(self).token_start(),
            final(self).position() == old(self).position(),
            final(self).found_errors() == old(self).found_errors(),
            final(self).found_tokens() == old(self).found_tokens().push(
                token_at(
                    old(self).text(),
                    token_type,
                    old(self).token_start(),
                    old(self).position(),
                    None,
                ),
            ),
    {
        self.add_literal_token(token_type, None)
    }

    /// Reads the next character if it is `expected`, and says whether it was.
    fn match_next(&mut self, expected: char) -> (matched: bool)
        requires
            old(self).well_formed(),
        ensures
            final(self).well_formed(),
            final(self).same_findings(old(self)),
            final(self).token_start() == old(self).token_start(),
            matched == (old(self).position() < old(self).text().len() && old(self).text()[old(
                self,
            ).position()] == expected),
            final(self).position() == old(self).position() + if matched {
                1int
            } else {
                0int
            },
    {
        if self.peek() == Some(expected) {
            self.advance();
            true
        } else {
            false
        }
    }

    /// Reads up to the end of the line, and leaves the newline unread.
    fn skip_line(&mut self)
        requires
            old(self).well_formed(),
        ensures
            final(self).well_formed(),
            final(self).same_findings(old(self)),
            final(self).token_start() == old(self).token_start(),
            final(self).position() == find(old(self).text(), old(self).position(), '\n'),
    {
        let ghost from = self.position();
        while !self.is_at_end() && self.source[self.current] != '\n'
            invariant
                self.well_formed(),
                self.same_findings(old(self)),
                self.token_start() == old(self).token_start(),
                from <= self.position(),
                forall|i: int| from <= i < self.position() ==> self.text()[i] != '\n',
            decreases self.text().len() - self.position(),
        {
            self.advance();
        }
        proof {
            lemma_find_unique(self.text(), from, '\n', self.position());
        }
    }

    /// Reads the rest of a string literal, whose opening quote has just been
    /// read, and adds its token; without a closing quote, reads the rest of
    /// the text and returns the error.
    fn string(&mut self) -> (result: Result<(), RloxSyntaxError>)
        requires
            old(self).well_formed(),
            old(self).position() == old(self).token_start() + 1,
        ensures
            final(self).well_formed(),
            final(self).text() == old(self).text(),
            final(self).token_start() == old(self).token_start(),
            final(self).found_errors() == old(self).found_errors(),
            ({
                let step = lex_string(old(self).text(), old(self).token_start());
                &&& final(self).position() == step.end
                &&& final(self).found_tokens() == old(self).found_tokens() + optional(step.token)
                &&& match result {
                    Ok(()) => step.error is None,
                    Err(e) => step.error == Some(e@),
                }
            }),
    {
        let ghost close = closing_quote(self.text(), self.position());
        while !self.is_at_end() && self.source[self.current] != '"'
            invariant
                self.well_formed(),
                self.same_findings(old(self)),
                self.token_start() == old(self).token_start(),
                self.token_start() < self.position(),
                close == closing_quote(self.text(), self.position()),
            decreases self.text().len() - self.position(),
        {
            let c = self.advance();
            if c == '\\' && !self.is_at_end() {
                self.advance();
            }
        }
        if self.is_at_end() {
            assert(self.found_tokens() + Seq::<TokenView>::empty() =~= self.found_tokens());
            Err(RloxSyntaxError::new(SyntaxErrorKind::UnterminatedString, self.start_line))
        } else {
            let value = text_between(&self.source, self.start + 1, self.current);
            self.advance();
            let ghost before = self.found_tokens();
            self.add_literal_token(TokenType::String, Some(Literal::Text(value)));
            assert(before.push(self.found_tokens().last()) =~= before + seq![
                self.found_tokens().last(),
            ]);
            Ok(())
        }
    }

    /// Reads on while digits follow.
    fn skip_digits(&mut self)
        requires
            old(self).well_formed(),
        ensures
            final(self).well_formed(),
            final(self).same_findings(old(self)),
            final(self).token_start() == old(self).token_start(),
            final(self).position() == digits_end(old(self).text(), old(self).position()),
    {
        let ghost from = self.position();
        while !self.is_at_end() && char_is_digit(self.source[self.current])
            invariant
                self.well_formed(),
                self.same_findings(old(self)),
                self.token_start() == old(self).token_start(),
                from <= self.position(),
                forall|i: int| from <= i < self.position() ==> is_digit(self.text()[i]),
            decreases self.text().len() - self.position(),
        {
            self.advance();
        }
        proof {
            lemma_digits_end_unique(self.text(), from, self.position());
        }
    }

    /// Reads the rest of a number literal, whose first digit has just been
    /// read, and adds its token.
    fn number(&mut self)
        requires
            old(self).well_formed(),
            old(self).position() == old(self).token_start() + 1,
            is_digit(old(self).text()[old(self).token_start()]),
        ensures
            final(self).well_formed(),
            final(self).text() == old(self).text(),
            final(self).token_start() == old(self).token_start(),
            final(self).found_errors() == old(self).found_errors(),
            ({
                let step = lex_number(old(self).text(), old(self).token_start());
                &&& final(self).position() == step.end
                &&& final(self).found_tokens() == old(self).found_tokens() + optional(step.token)
            }),
    {
        let ghost text = self.text();
        let ghost start = self.token_start();
        proof {
            lemma_digits_end(text, start);
            lemma_digits_end(text, start + 1);
        }
        self.skip_digits();
        let whole_end = self.current;
        let fraction = match (self.peek(), self.peek_next()) {
            (Some(point), Some(digit)) => point == '.' && char_is_digit(digit),
            _ => false,
        };
        if fraction {
            proof {
                lemma_digits_end(text, whole_end + 1);
            }
            self.advance();
            self.skip_digits();
        }
        let value = decimal_between(&self.source, self.start, whole_end, self.current);
        let ghost before = self.found_tokens();
        self.add_literal_token(TokenType::Number, Some(Literal::Number(value)));
        assert(before.push(self.found_tokens().last()) =~= before + seq![
            self.found_tokens().last(),
        ]);
    }

    /// Reads the rest of a word, whose first character has just been read,
    /// and adds the token of the keyword or of the identifier that it is.
    fn identifier(&mut self)
        requires
            old(self).well_formed(),
            old(self).position() == old(self).token_start() + 1,
            is_alpha(old(self).text()[old(self).token_start()]),
        ensures
            final(self).well_formed(),
            final(self).text() == old(self).text(),
            final(self).token_start() == old(self).token_start(),
            final(self).found_errors() == old(self).found_errors(),
            ({
                let step = lex_word(old(self).text(), old(self).token_start());
                &&& final(self).position() == step.end
                &&& final(self).found_tokens() == old(self).found_tokens() + optional(step.token)
            }),
    {
        let ghost from = self.token_start();
        while !self.is_at_end() && char_is_alphanumeric(self.source[self.current])
            invariant
                self.well_formed(),
                self.same_findings(old(self)),
                self.token_start() == old(self).token_start(),
                from < self.position(),
                forall|i: int| from <= i < self.position() ==> is_alphanumeric(self.text()[i]),
            decreases self.text().len() - self.position(),
        {
            self.advance();
        }
        proof {
            lemma_word_end_unique(self.text(), from, self.position());
        }
        let kind = word_kind_between(&self.source, self.start, self.current);
        let ghost before = self.found_tokens();
        self.add_token(kind);
        assert(before.push(self.found_tokens().last()) =~= before + seq![
            self.found_tokens().last(),
        ]);
    }

    /// Scans one step: starts a token at the position, reads it, and adds it
    /// to the tokens found. White space and comments are read and add
    /// nothing. What starts no token, and a string without its closing quote,
    /// is read too, and the error is returned; the scanner can go on behind
    /// it.
    pub fn scan_token(&mut self) -> (result: Result<(), RloxSyntaxError>)
        requires
            old(self).well_formed(),
            old(self).position() < old(self).text().len(),
        ensures
            final(self).well_formed(),
            final(self).text() == old(self).text(),
            final(self).token_start() == old(self).position(),
            final(self).found_errors() == old(self).found_errors(),
            ({
                let step = lex_one(old(self).text(), old(self).position());
                &&& final(self).position() == step.end
                &&& final(self).found_tokens() == old(self).found_tokens() + optional(step.token)
                &&& match result {
                    Ok(()) => step.error is None,
                    Err(e) => step.error == Some(e@),
                }
            }),
    {
        self.start = self.current;
        self.start_line = self.line;
        let ghost before = self.found_tokens();
        let c = self.advance();
        if let Some(kind) = punctuation_kind(c) {
            self.add_token(kind);
        } else if let Some(kind) = operator_kind(c) {
            if self.match_next('=') {
                self.add_token(kind_with_equal(kind));
            } else {
                self.add_token(kind);
            }
        } else if c == '/' {
            if self.match_next('/') {
                self.skip_line();
                assert(before + Seq::<TokenView>::empty() =~= before);
                return Ok(());
            } else {
                self.add_token(TokenType::Slash);
            }
        } else if char_is_blank(c) || c == '\n' {
            assert(before + Seq::<TokenView>::empty() =~= before);
            return Ok(());
        } else if c == '"' {
            return self.string();
        } else if char_is_digit(c) {
            self.number();
            return Ok(());
        } else if char_is_alpha(c) {
            self.identifier();
            return Ok(());
        } else {
            assert(before + Seq::<TokenView>::empty() =~= before);
            return Err(RloxSyntaxError::new(SyntaxErrorKind::UnexpectedCharacter, self.start_line));
        }
        assert(before.push(self.found_tokens().last()) =~= before + seq![
            self.found_tokens().last(),
        ]);
        Ok(())
    }

    /// Scans the rest of the text: adds its tokens, the end marker last, to
    /// the tokens found and its errors to the errors found, and returns the
    /// tokens.
    pub fn scan_tokens(&mut self) -> (tokens: &Vec<Token>)
        requires
            old(self).well_formed(),
        ensures
            final(self).well_formed(),
            final(self).text() == old(self).text(),
            final(self).position() == old(self).text().len(),
            final(self).found_tokens() == old(self).found_tokens() + tokens_from(
                old(self).text(),
                old(self).position(),
            ),
            final(self).found_errors() == old(self).found_errors() + errors_from(
                old(self).text(),
                old(self).position(),
            ),
            tokens.deep_view() == final(self).found_tokens(),
            tokens@.len() >= 1,
            tokens@.last().token_type == TokenType::Eof,
            tokens@.last().lexeme@.len() == 0,
            tokens@.last().line_number == line_at(old(self).text(), old(self).text().len() as int),
    {
        let ghost text = self.text();
        let ghost all_tokens = self.found_tokens() + tokens_from(text, self.position());
        let ghost all_errors = self.found_errors() + errors_from(text, self.position());
        while !self.is_at_end()
            invariant
                self.well_formed(),
                self.text() == text,
                all_tokens == self.found_tokens() + tokens_from(text, self.position()),
                all_errors == self.found_errors() + errors_from(text, self.position()),
            decreases self.text().len() - self.position(),
        {
            let ghost step = lex_one(text, self.position());
            let ghost tokens_before = self.found_tokens();
            let ghost errors_before = self.found_errors();
            proof {
                lemma_lex_one_advances(text, self.position());
            }
            match self.scan_token() {
                Ok(()) => {
                    assert(errors_before + Seq::<SyntaxErrorView>::empty() =~= errors_before);
                },
                Err(e) => {
                    self.errors.push(e);
                    assert(self.errors.deep_view() =~= errors_before.push(e@));
                    assert(errors_before.push(e@) =~= errors_before + seq![e@]);
                },
            }
            assert(all_tokens =~= self.found_tokens() + tokens_from(text, self.position())) by {
                assert((tokens_before + optional(step.token)) + tokens_from(text, step.end)
                    =~= tokens_before + (optional(step.token) + tokens_from(text, step.end)));
            }
            assert(all_errors =~= self.found_errors() + errors_from(text, self.position())) by {
                assert((errors_before + optional(step.error)) + errors_from(text, step.end)
                    =~= errors_before + (optional(step.error) + errors_from(text, step.end)));
            }
        }
        self.start = self.current;
        self.start_line = self.line;
        let ghost before = self.found_tokens();
        self.add_token(TokenType::Eof);
        assert(all_tokens =~= self.found_tokens()) by {
            assert(before.push(eof_token(text)) =~= before + seq![eof_token(text)]);
        }
        assert(all_errors =~= self.found_errors()) by {
            assert(self.found_errors() + Seq::<SyntaxErrorView>::empty() =~= self.found_errors());
        }
        assert(self.tokens@.last()@ == self.tokens.deep_view().last());
        &self.tokens
    }

    /// The tokens found so far.
    pub fn tokens(&self) -> (tokens: &Vec<Token>)
        ensures
            tokens.deep_view() == self.found_tokens(),
    {
        &self.tokens
    }

    /// The errors found so far.
    pub fn errors(&self) -> (errors: &Vec<RloxSyntaxError>)
        ensures
            errors.deep_view() == self.found_errors(),
    {
        &self.errors
    }

    /// Ends the scan and hands out what was found: the tokens and the errors.
    pub fn into_parts(self) -> (found: (Vec<Token>, Vec<RloxSyntaxError>))
        ensures
            found.0.deep_view() == self.found_tokens(),
            found.1.deep_view() == self.found_errors(),
    {
        (self.tokens, self.errors)
    }
}

/// Scans `source`: its tokens in their order, the end marker last, and its
/// lexical errors in the order in which they stand in the text. Scanning goes
/// on behind an error, so both come back whatever the text holds.
///
/// The last token is the end marker, with an empty lexeme, and it is the only
/// one; the lines of the tokens never go down.
pub fn scan(source: &str) -> (found: (Vec<Token>, Vec<RloxSyntaxError>))
    ensures
        found.0.deep_view() == tokens_of(source@),
        found.1.deep_view() == errors_of(source@),
        found.0@.len() >= 1,
        found.0@.last().token_type == TokenType::Eof,
        found.0@.last().lexeme@.len() == 0,
        found.0@.last().line_number == line_at(source@, source@.len() as int),
        forall|i: int|
            0 <= i < found.0@.len() - 1 ==> (#[trigger] found.0@[i]).token_type != TokenType::Eof,
        forall|i: int, j: int|
            0 <= i <= j < found.0@.len() ==> (#[trigger] found.0@[i]).line_number <= (
            #[trigger] found.0@[j]).line_number,
{
    let mut scanner = Scanner::new(source);
    scanner.scan_tokens();
    let found = scanner.into_parts();
    proof {
        let tokens = tokens_of(source@);
        assert(Seq::<TokenView>::empty() + tokens =~= tokens);
        assert(Seq::<SyntaxErrorView>::empty() + errors_of(source@) =~= errors_of(source@));
        lemma_tokens_end_with_eof(source@, 0);
        lemma_token_lines_ascend(source@, 0);
        assert(forall|i: int|
            0 <= i < found.0@.len() ==> (#[trigger] found.0@[i])@ == found.0.deep_view()[i]);
        assert forall|i: int, j: int| 0 <= i <= j < found.0@.len() implies (
        #[trigger] found.0@[i]).line_number <= (#[trigger] found.0@[j]).line_number by {
            assert(tokens[i].line <= tokens[j].line);
        }
        assert forall|i: int| 0 <= i < found.0@.len() - 1 implies (
        #[trigger] found.0@[i]).token_type != TokenType::Eof by {
            assert(tokens[i].kind != TokenType::Eof);
        }
    }
    found
}

} // verus!
