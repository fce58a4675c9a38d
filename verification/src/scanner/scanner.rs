use super::tokens::{Token, TokenType, TokenView};
use crate::common::error::{fault, Error, ErrorView};
use crate::common::literal::{Literal, LiteralView};
use crate::common::decimal::is_decimal_literal;
use crate::common::number::{ieee_from_decimal, Number};
use crate::common::text::{from_chars, is_digit, to_chars};
use vstd::prelude::*;
use vstd::slice::slice_subrange;

verus! {

/// A letter of the Latin alphabet or an underscore.
pub open spec fn is_alpha(c: char) -> bool {
    ('a' <= c && c <= 'z') || ('A' <= c && c <= 'Z') || c == '_'
}

/// A character that may stand inside an identifier.
pub open spec fn is_alpha_numeric(c: char) -> bool {
    is_alpha(c) || is_digit(c)
}

/// Where the run of digits that starts at `from` ends.
pub open spec fn digits_end(source: Seq<char>, from: int) -> int
    decreases source.len() - from,
{
    if 0 <= from < source.len() && is_digit(source[from]) {
        digits_end(source, from + 1)
    } else {
        from
    }
}

/// Where the run of letters, digits and underscores that starts at `from` ends.
pub open spec fn word_end(source: Seq<char>, from: int) -> int
    decreases source.len() - from,
{
    if 0 <= from < source.len() && is_alpha_numeric(source[from]) {
        word_end(source, from + 1)
    } else {
        from
    }
}

/// The place of the first `stop` at or after `from`, or the end of the source.
pub open spec fn find(source: Seq<char>, from: int, stop: char) -> int
    decreases source.len() - from,
{
    if 0 <= from < source.len() && source[from] != stop {
        find(source, from + 1, stop)
    } else {
        from
    }
}

/// The place behind the first `*/` at or after `from`, or the end of the
/// source where the comment is not closed.
pub open spec fn comment_end(source: Seq<char>, from: int) -> int
    decreases source.len() - from,
{
    if 0 <= from && from + 1 < source.len() {
        if source[from] == '*' && source[from + 1] == '/' {
            from + 2
        } else {
            comment_end(source, from + 1)
        }
    } else {
        source.len() as int
    }
}

/// The number of line breaks from `from` up to `to`.
pub open spec fn newlines(source: Seq<char>, from: int, to: int) -> int
    decreases to - from,
{
    if 0 <= from < to <= source.len() {
        newlines(source, from, to - 1) + if source[to - 1] == '\n' {
            1int
        } else {
            0int
        }
    } else {
        0
    }
}

/// The kind of token that a word is: a keyword, or an identifier.
pub open spec fn keyword(text: Seq<char>) -> TokenType {
    if text == "and"@ {
        TokenType::AND
    } else if text == "class"@ {
        TokenType::CLASS
    } else if text == "else"@ {
        TokenType::ELSE
    } else if text == "false"@ {
        TokenType::FALSE
    } else if text == "for"@ {
        TokenType::FOR
    } else if text == "fun"@ {
        TokenType::FUN
    } else if text == "if"@ {
        TokenType::IF
    } else if text == "nil"@ {
        TokenType::NIL
    } else if text == "or"@ {
        TokenType::OR
    } else if text == "print"@ {
        TokenType::PRINT
    } else if text == "return"@ {
        TokenType::RETURN
    } else if text == "super"@ {
        TokenType::SUPER
    } else if text == "this"@ {
        TokenType::THIS
    } else if text == "true"@ {
        TokenType::TRUE
    } else if text == "var"@ {
        TokenType::VAR
    } else if text == "while"@ {
        TokenType::WHILE
    } else {
        TokenType::IDENTIFIER
    }
}

/// What one step of the scan does: where it ends, on which line, and the token
/// or the error that it adds, if any.
pub struct Step {
    pub next: int,
    pub line: int,
    pub token: Option<TokenView>,
    pub error: Option<ErrorView>,
}

/// A step that adds nothing.
pub open spec fn skip(next: int, line: int) -> Step {
    Step { next, line, token: None, error: None }
}

/// A step that adds a token without a value.
pub open spec fn plain(kind: TokenType, source: Seq<char>, from: int, next: int, line: int) -> Step {
    Step {
        next,
        line,
        token: Some(
            TokenView {
                typ: kind,
                lexeme: source.subrange(from, next),
                literal: None,
                line: line as usize,
            },
        ),
        error: None,
    }
}

/// A step that reports an error.
pub open spec fn failed(message: Seq<char>, next: int, line: int) -> Step {
    Step { next, line, token: None, error: Some(fault(message, line as usize)) }
}

/// The step for `!`, `=`, `<` or `>`: two characters if `=` follows, else one.
pub open spec fn pair_step(
    alone: TokenType,
    with_equal: TokenType,
    source: Seq<char>,
    from: int,
    line: int,
) -> Step {
    if from + 1 < source.len() && source[from + 1] == '=' {
        plain(with_equal, source, from, from + 2, line)
    } else {
        plain(alone, source, from, from + 1, line)
    }
}

/// The step for `/`: a line comment, a block comment, or the operator.
pub open spec fn slash_step(source: Seq<char>, from: int, line: int) -> Step {
    if from + 1 < source.len() && source[from + 1] == '/' {
        skip(find(source, from + 2, '\n'), line)
    } else if from + 1 < source.len() && source[from + 1] == '*' {
        let end = comment_end(source, from + 2);
        skip(end, line + newlines(source, from + 2, end))
    } else {
        plain(TokenType::SLASH, source, from, from + 1, line)
    }
}

/// The step for a string literal, which starts with the quote at `from`.
pub open spec fn string_step(source: Seq<char>, from: int, line: int) -> Step {
    let close = find(source, from + 1, '"');
    let ended = line + newlines(source, from + 1, close);
    if close >= source.len() {
        failed("Unterminated string."@, source.len() as int, ended)
    } else {
        Step {
            next: close + 1,
            line: ended,
            token: Some(
                TokenView {
                    typ: TokenType::STRING,
                    lexeme: source.subrange(from, close + 1),
                    literal: Some(LiteralView::String(source.subrange(from + 1, close))),
                    line: ended as usize,
                },
            ),
            error: None,
        }
    }
}

/// Where the number literal that starts at `from` ends: after the digits, and
/// after a point and more digits where they follow.
pub open spec fn number_end(source: Seq<char>, from: int) -> int {
    let whole = digits_end(source, from);
    if whole + 1 < source.len() && source[whole] == '.' && is_digit(source[whole + 1]) {
        digits_end(source, whole + 1)
    } else {
        whole
    }
}

/// The step for a number literal, which starts with the digit at `from`.
pub open spec fn number_step(source: Seq<char>, from: int, line: int) -> Step {
    let end = number_end(source, from + 1);
    Step {
        next: end,
        line,
        token: Some(
            TokenView {
                typ: TokenType::NUMBER,
                lexeme: source.subrange(from, end),
                literal: Some(
                    LiteralView::Number(
                        Number { bits: ieee_from_decimal(source.subrange(from, end)) },
                    ),
                ),
                line: line as usize,
            },
        ),
        error: None,
    }
}

/// A run of digits holds digits only, and ends in the source.
pub proof fn lemma_digits_run(source: Seq<char>, from: int)
    requires
        0 <= from <= source.len(),
    ensures
        from <= digits_end(source, from) <= source.len(),
        forall|k: int| from <= k < digits_end(source, from) ==> is_digit(#[trigger] source[k]),
        digits_end(source, from) < source.len() ==> !is_digit(
            source[digits_end(source, from)],
        ),
    decreases source.len() - from,
{
    if from < source.len() && is_digit(source[from]) {
        lemma_digits_run(source, from + 1);
    }
}

/// The characters of a number literal are a decimal literal.
pub proof fn lemma_number_is_literal(source: Seq<char>, from: int)
    requires
        0 <= from < source.len(),
        is_digit(source[from]),
    ensures
        from < number_end(source, from + 1) <= source.len(),
        is_decimal_literal(source.subrange(from, number_end(source, from + 1))),
{
    let whole = digits_end(source, from + 1);
    lemma_digits_run(source, from + 1);
    let end = number_end(source, from + 1);
    if end != whole {
        lemma_digits_run(source, whole + 1);
    }
    let text = source.subrange(from, end);
    assert forall|i: int| 0 <= i < text.len() implies (is_digit(#[trigger] text[i]) || text[i]
        == '.') && (text[i] == '.' ==> end != whole && i == whole - from) by {
        assert(text[i] == source[from + i]);
    }
    assert(text[0] == source[from]);
    assert(text[text.len() - 1] == source[end - 1]);
}

/// The step for a keyword or an identifier, which starts at `from`.
pub open spec fn word_step(source: Seq<char>, from: int, line: int) -> Step {
    let end = word_end(source, from + 1);
    plain(keyword(source.subrange(from, end)), source, from, end, line)
}

/// The step of the scan that starts at `from`, on line `line`.
pub open spec fn scan_step(source: Seq<char>, from: int, line: int) -> Step {
    let c = source[from];
    if c == '(' {
        plain(TokenType::LEFTPAREN, source, from, from + 1, line)
    } else if c == ')' {
        plain(TokenType::RIGHTPAREN, source, from, from + 1, line)
    } else if c == '{' {
        plain(TokenType::LEFTBRACE, source, from, from + 1, line)
    } else if c == '}' {
        plain(TokenType::RIGHTBRACE, source, from, from + 1, line)
    } else if c == ',' {
        plain(TokenType::COMMA, source, from, from + 1, line)
    } else if c == '.' {
        plain(TokenType::DOT, source, from, from + 1, line)
    } else if c == '-' {
        plain(TokenType::MINUS, source, from, from + 1, line)
    } else if c == '+' {
        plain(TokenType::PLUS, source, from, from + 1, line)
    } else if c == ':' {
        plain(TokenType::COLON, source, from, from + 1, line)
    } else if c == ';' {
        plain(TokenType::SEMICOLON, source, from, from + 1, line)
    } else if c == '*' {
        plain(TokenType::STAR, source, from, from + 1, line)
    } else if c == '?' {
        plain(TokenType::QUESTIONMARK, source, from, from + 1, line)
    } else if c == '!' {
        pair_step(TokenType::BANG, TokenType::BANGEQUAL, source, from, line)
    } else if c == '=' {
        pair_step(TokenType::EQUAL, TokenType::EQUALEQUAL, source, from, line)
    } else if c == '<' {
        pair_step(TokenType::LESS, TokenType::LESSEQUAL, source, from, line)
    } else if c == '>' {
        pair_step(TokenType::GREATER, TokenType::GREATEREQUAL, source, from, line)
    } else if c == '/' {
        slash_step(source, from, line)
    } else if c == ' ' || c == '\r' || c == '\t' {
        skip(from + 1, line)
    } else if c == '\n' {
        skip(from + 1, line + 1)
    } else if c == '"' {
        string_step(source, from, line)
    } else if is_digit(c) {
        number_step(source, from, line)
    } else if is_alpha(c) {
        word_step(source, from, line)
    } else {
        failed("Unexpected character."@, from + 1, line)
    }
}

/// The token that ends every scan.
pub open spec fn end_token(line: int) -> TokenView {
    TokenView { typ: TokenType::EOF, lexeme: "EOF"@, literal: None, line: line as usize }
}

/// The tokens and the errors of a scan.
pub struct Scanned {
    pub tokens: Seq<TokenView>,
    pub errors: Seq<ErrorView>,
}

/// The sequence of what an optional value holds.
pub open spec fn optional<T>(value: Option<T>) -> Seq<T> {
    match value {
        Some(v) => seq![v],
        None => Seq::empty(),
    }
}

/// The tokens and errors of the source from `from` on, where `from` is on line
/// `line`: step after step, then the end token.
pub open spec fn scan_from(source: Seq<char>, from: int, line: int) -> Scanned
    decreases source.len() - from,
{
    if 0 <= from < source.len() {
        let step = scan_step(source, from, line);
        if step.next <= from || step.next > source.len() {
            Scanned { tokens: seq![end_token(line)], errors: Seq::empty() }
        } else {
            let rest = scan_from(source, step.next, step.line);
            Scanned {
                tokens: optional(step.token) + rest.tokens,
                errors: optional(step.error) + rest.errors,
            }
        }
    } else {
        Scanned { tokens: seq![end_token(line)], errors: Seq::empty() }
    }
}

/// The tokens and errors of a whole source text.
pub open spec fn scan(source: Seq<char>) -> Scanned {
    scan_from(source, 0, 1)
}

/// The views of the tokens.
pub open spec fn token_views(tokens: Seq<Token>) -> Seq<TokenView> {
    tokens.map_values(|t: Token| t@)
}

/// The views of the errors.
pub open spec fn error_views(errors: Seq<Error>) -> Seq<ErrorView> {
    errors.map_values(|e: Error| e@)
}

/// There are no more line breaks than characters.
pub proof fn lemma_newlines_bound(source: Seq<char>, from: int, to: int)
    ensures
        0 <= newlines(source, from, to),
        0 <= from <= to ==> newlines(source, from, to) <= to - from,
    decreases to - from,
{
    if 0 <= from < to <= source.len() {
        lemma_newlines_bound(source, from, to - 1);
    }
}

/// Every step goes on in the source, and the line never goes back.
pub proof fn lemma_step_bounds(source: Seq<char>, from: int, line: int)
    requires
        0 <= from < source.len(),
        1 <= line <= from + 1,
    ensures
        ({
            let step = scan_step(source, from, line);
            &&& line <= step.line <= step.next + 1
            &&& from <= step.next
            &&& match step.token {
                Some(token) => line <= token.line as int <= step.line || step.line > usize::MAX,
                None => true,
            }
        }),
{
    lemma_run_bounds(source, from + 1);
    lemma_run_bounds(source, from + 2);
    let close = find(source, from + 1, '"');
    lemma_newlines_bound(source, from + 1, close);
    let end = comment_end(source, from + 2);
    lemma_newlines_bound(source, from + 2, end);
    let whole = digits_end(source, from + 1);
    lemma_run_bounds(source, whole + 1);
}

/// A run, a search and a comment end at or behind the place where they start.
pub proof fn lemma_run_bounds(source: Seq<char>, from: int)
    ensures
        from <= digits_end(source, from),
        from <= word_end(source, from),
        forall|stop: char| from <= #[trigger] find(source, from, stop),
        from <= source.len() ==> digits_end(source, from) <= source.len() && word_end(source, from)
            <= source.len(),
        forall|stop: char| from <= source.len() ==> #[trigger] find(source, from, stop) <= source.len(),
        0 <= from <= source.len() ==> from <= comment_end(source, from) <= source.len(),
    decreases source.len() - from,
{
    if 0 <= from < source.len() {
        lemma_run_bounds(source, from + 1);
        assert forall|stop: char| from <= #[trigger] find(source, from, stop) && find(
            source,
            from,
            stop,
        ) <= source.len() by {
            if source[from] != stop {
                assert(from + 1 <= find(source, from + 1, stop));
            }
        }
    }
}

/// Every scan ends with the end token, and only there.
pub proof fn law_scan_ends_with_end_token(source: Seq<char>, from: int, line: int)
    ensures
        ({
            let tokens = scan_from(source, from, line).tokens;
            tokens.len() > 0 && tokens[tokens.len() - 1].typ == TokenType::EOF
        }),
    decreases source.len() - from,
{
    if 0 <= from < source.len() {
        let step = scan_step(source, from, line);
        if !(step.next <= from || step.next > source.len()) {
            law_scan_ends_with_end_token(source, step.next, step.line);
        }
    }
}

/// The lines of the tokens of a scan never go back: every token stands on
/// the starting line or behind it, and no token stands on a line before
/// that of a token that comes before it.
pub proof fn law_scan_lines_never_decrease(source: Seq<char>, from: int, line: int)
    requires
        source.len() < usize::MAX,
        0 <= from <= source.len(),
        1 <= line <= from + 1,
    ensures
        ({
            let tokens = scan_from(source, from, line).tokens;
            &&& forall|i: int| 0 <= i < tokens.len() ==> line <= (#[trigger] tokens[i]).line
            &&& forall|i: int, j: int|
                0 <= i <= j < tokens.len() ==> (#[trigger] tokens[i]).line <= (
                #[trigger] tokens[j]).line
        }),
    decreases source.len() - from,
{
    let tokens = scan_from(source, from, line).tokens;
    if 0 <= from < source.len() {
        let step = scan_step(source, from, line);
        lemma_step_bounds(source, from, line);
        if !(step.next <= from || step.next > source.len()) {
            law_scan_lines_never_decrease(source, step.next, step.line);
            let rest = scan_from(source, step.next, step.line).tokens;
            assert(tokens == optional(step.token) + rest);
            assert forall|i: int| 0 <= i < tokens.len() implies line <= (
            #[trigger] tokens[i]).line by {
                if i >= optional(step.token).len() {
                    assert(tokens[i] == rest[i - optional(step.token).len()]);
                }
            }
            assert forall|i: int, j: int| 0 <= i <= j < tokens.len() implies (
            #[trigger] tokens[i]).line <= (#[trigger] tokens[j]).line by {
                let k = optional(step.token).len();
                if i >= k {
                    assert(tokens[i] == rest[i - k]);
                    assert(tokens[j] == rest[j - k]);
                } else if j >= k {
                    assert(tokens[j] == rest[j - k]);
                }
            }
        }
    }
}

/// Reads a source text token by token.
#[derive(Debug)]
pub struct Scanner {
    pub source: Vec<char>,
    pub start: usize,
    pub current: usize,
    pub line: usize,
    pub tokens: Vec<Token>,
    pub had_error: bool,
    pub errors: Vec<Error>,
}

impl Scanner {
    /// The places are in range, the line is no more than one ahead of the
    /// characters read, and `had_error` says whether an error was reported.
    pub open spec fn wf(&self) -> bool {
        &&& self.start <= self.current <= self.source@.len() < usize::MAX
        &&& 1 <= self.line <= self.current + 1
        &&& self.had_error == (self.errors@.len() > 0)
    }

    /// Whether only the place and the line differ from `other`.
    pub open spec fn moved_from(&self, other: &Scanner) -> bool {
        &&& self.source == other.source
        &&& self.start == other.start
        &&& self.tokens == other.tokens
        &&& self.errors == other.errors
        &&& self.had_error == other.had_error
    }

    /// A scanner at the start of `source`.
    pub fn new(source: String) -> (r: Self)
        requires
            source@.len() < usize::MAX,
        ensures
            r.wf(),
            r.source@ == source@,
            r.start == 0,
            r.current == 0,
            r.line == 1,
            r.tokens@.len() == 0,
            r.errors@.len() == 0,
    {
        Self {
            source: to_chars(source.as_str()),
            tokens: Vec::new(),
            start: 0,
            current: 0,
            line: 1,
            had_error: false,
            errors: Vec::new(),
        }
    }

    /// Whether `c` is one of `0` to `9`.
    pub fn is_digit(&self, c: char) -> (r: bool)
        ensures
            r == is_digit(c),
    {
        c >= '0' && c <= '9'
    }

    /// Whether `c` is a letter of the Latin alphabet or an underscore.
    pub fn is_alpha(&self, c: char) -> (r: bool)
        ensures
            r == is_alpha(c),
    {
        (c >= 'a' && c <= 'z') || (c >= 'A' && c <= 'Z') || c == '_'
    }

    /// Whether `c` may stand inside an identifier.
    pub fn is_alpha_numeric(&self, c: char) -> (r: bool)
        ensures
            r == is_alpha_numeric(c),
    {
        self.is_alpha(c) || self.is_digit(c)
    }

    /// Whether every character has been read.
    pub fn is_at_end(&self) -> (r: bool)
        ensures
            r == (self.current >= self.source@.len()),
    {
        self.current >= self.source.len()
    }

    /// The character at the current place; `\\0` at the end.
    pub fn peek(&self) -> (r: char)
        ensures
            r == if self.current < self.source@.len() {
                self.source@[self.current as int]
            } else {
                '\0'
            },
    {
        if self.is_at_end() {
            return '\0';
        }
        self.source[self.current]
    }

    /// The character after the current place; `\\0` at the end.
    pub fn peek_next(&self) -> (r: char)
        requires
            self.wf(),
        ensures
            r == if self.current + 1 < self.source@.len() {
                self.source@[self.current + 1]
            } else {
                '\0'
            },
    {
        if self.current + 1 >= self.source.len() {
            return '\0';
        }
        self.source[self.current + 1]
    }

    /// Reads one character.
    pub fn advance(&mut self) -> (r: char)
        requires
            old(self).wf(),
            old(self).current < old(self).source@.len(),
        ensures
            final(self).wf(),
            r == old(self).source@[old(self).current as int],
            final(self).current == old(self).current + 1,
            final(self).line == old(self).line,
            final(self).moved_from(old(self)),
    {
        let c = self.source[self.current];
        self.current = self.current + 1;
        c
    }

    /// Reads one character if it is `expected`.
    pub fn match_token(&mut self, expected: char) -> (r: bool)
        requires
            old(self).wf(),
        ensures
            final(self).wf(),
            r == (old(self).current < old(self).source@.len() && old(self).source@[old(
                self,
            ).current as int] == expected),
            final(self).current == if r {
                old(self).current + 1
            } else {
                old(self).current as int
            },
            final(self).line == old(self).line,
            final(self).moved_from(old(self)),
    {
        if self.is_at_end() {
            return false;
        }
        if self.source[self.current] != expected {
            return false;
        }
        self.current = self.current + 1;
        true
    }

    /// The characters from the start of the token to the current place.
    pub fn lexeme(&self) -> (r: String)
        requires
            self.wf(),
        ensures
            r@ == self.source@.subrange(self.start as int, self.current as int),
    {
        from_chars(slice_subrange(self.source.as_slice(), self.start, self.current))
    }

    /// Adds a token without a value; it spans from the start to the current place.
    pub fn add_token(&mut self, token: TokenType)
        requires
            old(self).wf(),
        ensures
            final(self).wf(),
            final(self).source == old(self).source,
            final(self).start == old(self).start,
            final(self).current == old(self).current,
            final(self).line == old(self).line,
            final(self).errors == old(self).errors,
            token_views(final(self).tokens@) == token_views(old(self).tokens@).push(
                TokenView {
                    typ: token,
                    lexeme: old(self).source@.subrange(
                        old(self).start as int,
                        old(self).current as int,
                    ),
                    literal: None,
                    line: old(self).line,
                },
            ),
    {
        let text = self.lexeme();
        self.tokens.push(Token::new(token, text, None, self.line));
        assert(token_views(final(self).tokens@) =~= token_views(old(self).tokens@).push(
            TokenView {
                typ: token,
                lexeme: old(self).source@.subrange(old(self).start as int, old(self).current as int),
                literal: None,
                line: old(self).line,
            },
        ));
    }

    /// Adds a token with a value; it spans from the start to the current place.
    pub fn add_token_literal(&mut self, token: TokenType, literal: Literal)
        requires
            old(self).wf(),
        ensures
            final(self).wf(),
            final(self).source == old(self).source,
            final(self).start == old(self).start,
            final(self).current == old(self).current,
            final(self).line == old(self).line,
            final(self).errors == old(self).errors,
            token_views(final(self).tokens@) == token_views(old(self).tokens@).push(
                TokenView {
                    typ: token,
                    lexeme: old(self).source@.subrange(
                        old(self).start as int,
                        old(self).current as int,
                    ),
                    literal: Some(literal@),
                    line: old(self).line,
                },
            ),
    {
        let text = self.lexeme();
        self.tokens.push(Token::new(token, text, Some(literal), self.line));
        assert(token_views(final(self).tokens@) =~= token_views(old(self).tokens@).push(
            TokenView {
                typ: token,
                lexeme: old(self).source@.subrange(old(self).start as int, old(self).current as int),
                literal: Some(literal@),
                line: old(self).line,
            },
        ));
    }

    /// Reports an error on the current line.
    pub fn add_error(&mut self, message: &str)
        requires
            old(self).wf(),
        ensures
            final(self).wf(),
            final(self).source == old(self).source,
            final(self).start == old(self).start,
            final(self).current == old(self).current,
            final(self).line == old(self).line,
            final(self).tokens == old(self).tokens,
            error_views(final(self).errors@) == error_views(old(self).errors@).push(
                fault(message@, old(self).line),
            ),
    {
        self.errors.push(Error::with_message(self.line, message));
        self.had_error = true;
        assert(error_views(final(self).errors@) =~= error_views(old(self).errors@).push(
            fault(message@, old(self).line),
        ));
    }

    /// Whether the scanner stands where `step` leads from the start of the
    /// token, with the token or error of `step` added to those of `before`.
    pub open spec fn took(&self, before: &Scanner, step: Step) -> bool {
        &&& self.wf()
        &&& self.source == before.source
        &&& self.current == step.next
        &&& self.line == step.line
        &&& token_views(self.tokens@) == token_views(before.tokens@) + optional(step.token)
        &&& error_views(self.errors@) == error_views(before.errors@) + optional(step.error)
    }

    /// Reads a string literal whose opening quote has been read.
    pub fn string(&mut self)
        requires
            old(self).wf(),
            old(self).current == old(self).start + 1,
        ensures
            final(self).took(
                old(self),
                string_step(old(self).source@, old(self).start as int, old(self).line as int),
            ),
            final(self).current > old(self).start,
    {
        let ghost source = self.source@;
        let ghost from = self.start as int;
        let ghost first = self.line as int;
        while self.peek() != '"' && !self.is_at_end()
            invariant
                self.wf(),
                self.moved_from(old(self)),
                self.source@ == source,
                from + 1 <= self.current,
                find(source, from + 1, '"') == find(source, self.current as int, '"'),
                self.line == first + newlines(source, from + 1, self.current as int),
                first <= from + 2,
            decreases self.source@.len() - self.current,
        {
            proof {
                lemma_newlines_bound(source, from + 1, self.current + 1);
            }
            let c = self.advance();
            if c == '\n' {
                self.line = self.line + 1;
            }
        }
        if self.is_at_end() {
            self.add_error("Unterminated string.");
            assert(token_views(self.tokens@) =~= token_views(old(self).tokens@) + optional(
                None::<TokenView>,
            ));
            assert(error_views(self.errors@) =~= error_views(old(self).errors@) + optional(
                Some(fault("Unterminated string."@, self.line)),
            ));
            return ;
        }
        self.advance();
        let text = from_chars(
            slice_subrange(self.source.as_slice(), self.start + 1, self.current - 1),
        );
        self.add_token_literal(TokenType::STRING, Literal::String(text));
        proof {
            let step = string_step(source, from, first);
            assert(token_views(self.tokens@) =~= token_views(old(self).tokens@) + optional(
                step.token,
            ));
            assert(error_views(self.errors@) =~= error_views(old(self).errors@) + optional(
                step.error,
            ));
        }
    }

    /// Reads the rest of a run of digits.
    fn digits(&mut self)
        requires
            old(self).wf(),
        ensures
            final(self).wf(),
            final(self).moved_from(old(self)),
            final(self).line == old(self).line,
            final(self).current == digits_end(old(self).source@, old(self).current as int),
            final(self).current >= old(self).current,
    {
        while self.is_digit(self.peek())
            invariant
                self.wf(),
                self.moved_from(old(self)),
                self.line == old(self).line,
                self.current >= old(self).current,
                digits_end(old(self).source@, old(self).current as int) == digits_end(
                    self.source@,
                    self.current as int,
                ),
            decreases self.source@.len() - self.current,
        {
            self.advance();
        }
    }

    /// Reads a number literal whose first digit has been read.
    pub fn number(&mut self)
        requires
            old(self).wf(),
            old(self).current == old(self).start + 1,
            is_digit(old(self).source@[old(self).start as int]),
        ensures
            final(self).took(
                old(self),
                number_step(old(self).source@, old(self).start as int, old(self).line as int),
            ),
            final(self).current > old(self).start,
    {
        self.digits();
        if self.peek() == '.' && self.is_digit(self.peek_next()) {
            self.advance();
            self.digits();
        }
        let text = self.lexeme();
        proof {
            lemma_number_is_literal(self.source@, self.start as int);
        }
        let value = Number::from_literal(text.as_str());
        self.add_token_literal(TokenType::NUMBER, Literal::Number(value));
        proof {
            let step = number_step(old(self).source@, old(self).start as int, old(self).line as int);
            assert(token_views(self.tokens@) =~= token_views(old(self).tokens@) + optional(
                step.token,
            ));
            assert(error_views(self.errors@) =~= error_views(old(self).errors@) + optional(
                step.error,
            ));
        }
    }

    /// The kind of token that a word is.
    pub fn keyword_of(text: &String) -> (r: TokenType)
        ensures
            r == keyword(text@),
    {
        if *text == String::from_str("and") {
            TokenType::AND
        } else if *text == String::from_str("class") {
            TokenType::CLASS
        } else if *text == String::from_str("else") {
            TokenType::ELSE
        } else if *text == String::from_str("false") {
            TokenType::FALSE
        } else if *text == String::from_str("for") {
            TokenType::FOR
        } else if *text == String::from_str("fun") {
            TokenType::FUN
        } else if *text == String::from_str("if") {
            TokenType::IF
        } else if *text == String::from_str("nil") {
            TokenType::NIL
        } else if *text == String::from_str("or") {
            TokenType::OR
        } else if *text == String::from_str("print") {
            TokenType::PRINT
        } else if *text == String::from_str("return") {
            TokenType::RETURN
        } else if *text == String::from_str("super") {
            TokenType::SUPER
        } else if *text == String::from_str("this") {
            TokenType::THIS
        } else if *text == String::from_str("true") {
            TokenType::TRUE
        } else if *text == String::from_str("var") {
            TokenType::VAR
        } else if *text == String::from_str("while") {
            TokenType::WHILE
        } else {
            TokenType::IDENTIFIER
        }
    }

    /// Reads a keyword or an identifier whose first character has been read.
    pub fn identifier(&mut self)
        requires
            old(self).wf(),
            old(self).current == old(self).start + 1,
        ensures
            final(self).took(
                old(self),
                word_step(old(self).source@, old(self).start as int, old(self).line as int),
            ),
            final(self).current > old(self).start,
    {
        while self.is_alpha_numeric(self.peek())
            invariant
                self.wf(),
                self.moved_from(old(self)),
                self.line == old(self).line,
                self.current >= old(self).current,
                word_end(old(self).source@, old(self).current as int) == word_end(
                    self.source@,
                    self.current as int,
                ),
            decreases self.source@.len() - self.current,
        {
            self.advance();
        }
        let text = self.lexeme();
        self.add_token(Scanner::keyword_of(&text));
        proof {
            let step = word_step(old(self).source@, old(self).start as int, old(self).line as int);
            assert(token_views(self.tokens@) =~= token_views(old(self).tokens@) + optional(
                step.token,
            ));
            assert(error_views(self.errors@) =~= error_views(old(self).errors@) + optional(
                step.error,
            ));
        }
    }

    /// Adds the token `kind`, which ends at the current place.
    fn emit(&mut self, kind: TokenType)
        requires
            old(self).wf(),
        ensures
            final(self).took(
                old(self),
                plain(
                    kind,
                    old(self).source@,
                    old(self).start as int,
                    old(self).current as int,
                    old(self).line as int,
                ),
            ),
    {
        self.add_token(kind);
        proof {
            let step = plain(
                kind,
                old(self).source@,
                old(self).start as int,
                old(self).current as int,
                old(self).line as int,
            );
            assert(token_views(self.tokens@) =~= token_views(old(self).tokens@) + optional(
                step.token,
            ));
            assert(error_views(self.errors@) =~= error_views(old(self).errors@) + optional(
                step.error,
            ));
        }
    }

    /// Adds `with_equal` if `=` follows, which is read, and `alone` if not.
    fn pair(&mut self, alone: TokenType, with_equal: TokenType)
        requires
            old(self).wf(),
            old(self).current == old(self).start + 1,
        ensures
            final(self).took(
                old(self),
                pair_step(
                    alone,
                    with_equal,
                    old(self).source@,
                    old(self).start as int,
                    old(self).line as int,
                ),
            ),
            final(self).current > old(self).start,
    {
        if self.match_token('=') {
            self.emit(with_equal);
        } else {
            self.emit(alone);
        }
    }

    /// Reads a comment, or adds the operator `/`; the slash has been read.
    fn slash(&mut self)
        requires
            old(self).wf(),
            old(self).current == old(self).start + 1,
        ensures
            final(self).took(
                old(self),
                slash_step(old(self).source@, old(self).start as int, old(self).line as int),
            ),
            final(self).current > old(self).start,
    {
        let ghost source = self.source@;
        let ghost from = self.start as int;
        let ghost first = self.line as int;
        if self.match_token('/') {
            while self.peek() != '\n' && !self.is_at_end()
                invariant
                    self.wf(),
                    self.moved_from(old(self)),
                    self.line == old(self).line,
                    self.current >= from + 2,
                    find(source, from + 2, '\n') == find(source, self.current as int, '\n'),
                    self.source@ == source,
                decreases self.source@.len() - self.current,
            {
                self.advance();
            }
        } else if self.match_token('*') {
            loop
                invariant_except_break
                    comment_end(source, from + 2) == comment_end(source, self.current as int),
                invariant
                    self.wf(),
                    self.moved_from(old(self)),
                    self.source@ == source,
                    self.current >= from + 2,
                    first <= from + 2,
                    self.line == first + newlines(source, from + 2, self.current as int),
                ensures
                    self.current == comment_end(source, from + 2),
                decreases self.source@.len() - self.current,
            {
                proof {
                    lemma_newlines_bound(source, from + 2, self.current + 1);
                }
                if self.is_at_end() {
                    break ;
                }
                if self.peek() == '*' && self.peek_next() == '/' {
                    proof {
                        assert(newlines(source, from + 2, self.current + 2) == newlines(
                            source,
                            from + 2,
                            self.current + 1,
                        ));
                    }
                    self.advance();
                    self.advance();
                    break ;
                }
                let c = self.advance();
                if c == '\n' {
                    self.line = self.line + 1;
                }
            }
        } else {
            self.emit(TokenType::SLASH);
            return ;
        }
        proof {
            assert(token_views(self.tokens@) =~= token_views(old(self).tokens@) + optional(
                None::<TokenView>,
            ));
            assert(error_views(self.errors@) =~= error_views(old(self).errors@) + optional(
                None::<ErrorView>,
            ));
        }
    }

    /// Reads one token, comment or blank, from the current place on.
    pub fn scan_token(&mut self)
        requires
            old(self).wf(),
            old(self).current < old(self).source@.len(),
            old(self).start == old(self).current,
        ensures
            final(self).took(
                old(self),
                scan_step(old(self).source@, old(self).current as int, old(self).line as int),
            ),
            final(self).current > old(self).current,
    {
        let c = self.advance();
        if c == '(' {
            self.emit(TokenType::LEFTPAREN);
        } else if c == ')' {
            self.emit(TokenType::RIGHTPAREN);
        } else if c == '{' {
            self.emit(TokenType::LEFTBRACE);
        } else if c == '}' {
            self.emit(TokenType::RIGHTBRACE);
        } else if c == ',' {
            self.emit(TokenType::COMMA);
        } else if c == '.' {
            self.emit(TokenType::DOT);
        } else if c == '-' {
            self.emit(TokenType::MINUS);
        } else if c == '+' {
            self.emit(TokenType::PLUS);
        } else if c == ':' {
            self.emit(TokenType::COLON);
        } else if c == ';' {
            self.emit(TokenType::SEMICOLON);
        } else if c == '*' {
            self.emit(TokenType::STAR);
        } else if c == '?' {
            self.emit(TokenType::QUESTIONMARK);
        } else if c == '!' {
            self.pair(TokenType::BANG, TokenType::BANGEQUAL);
        } else if c == '=' {
            self.pair(TokenType::EQUAL, TokenType::EQUALEQUAL);
        } else if c == '<' {
            self.pair(TokenType::LESS, TokenType::LESSEQUAL);
        } else if c == '>' {
            self.pair(TokenType::GREATER, TokenType::GREATEREQUAL);
        } else if c == '/' {
            self.slash();
        } else if c == ' ' || c == '\r' || c == '\t' {
            proof {
                assert(token_views(self.tokens@) =~= token_views(old(self).tokens@) + optional(
                    None::<TokenView>,
                ));
                assert(error_views(self.errors@) =~= error_views(old(self).errors@) + optional(
                    None::<ErrorView>,
                ));
            }
        } else if c == '\n' {
            self.line = self.line + 1;
            proof {
                assert(token_views(self.tokens@) =~= token_views(old(self).tokens@) + optional(
                    None::<TokenView>,
                ));
                assert(error_views(self.errors@) =~= error_views(old(self).errors@) + optional(
                    None::<ErrorView>,
                ));
            }
        } else if c == '"' {
            self.string();
        } else if self.is_digit(c) {
            self.number();
        } else if self.is_alpha(c) {
            self.identifier();
        } else {
            self.add_error("Unexpected character.");
            proof {
                assert(token_views(self.tokens@) =~= token_views(old(self).tokens@) + optional(
                    None::<TokenView>,
                ));
                assert(error_views(self.errors@) =~= error_views(old(self).errors@) + optional(
                    Some(fault("Unexpected character."@, self.line)),
                ));
            }
        }
    }

    /// Reads the rest of the source, and adds the end token.
    pub fn scan_tokens(&mut self)
        requires
            old(self).wf(),
        ensures
            final(self).wf(),
            final(self).source == old(self).source,
            final(self).current == final(self).source@.len(),
            token_views(final(self).tokens@) == token_views(old(self).tokens@) + scan_from(
                old(self).source@,
                old(self).current as int,
                old(self).line as int,
            ).tokens,
            error_views(final(self).errors@) == error_views(old(self).errors@) + scan_from(
                old(self).source@,
                old(self).current as int,
                old(self).line as int,
            ).errors,
    {
        let ghost source = self.source@;
        let ghost whole = scan_from(source, self.current as int, self.line as int);
        while !self.is_at_end()
            invariant
                self.wf(),
                self.source == old(self).source,
                self.source@ == source,
                token_views(old(self).tokens@) + whole.tokens == token_views(self.tokens@)
                    + scan_from(source, self.current as int, self.line as int).tokens,
                error_views(old(self).errors@) + whole.errors == error_views(self.errors@)
                    + scan_from(source, self.current as int, self.line as int).errors,
            decreases self.source@.len() - self.current,
        {
            let ghost before_tokens = token_views(self.tokens@);
            let ghost before_errors = error_views(self.errors@);
            let ghost step = scan_step(source, self.current as int, self.line as int);
            let ghost rest = scan_from(source, step.next, step.line);
            self.start = self.current;
            self.scan_token();
            proof {
                assert(before_tokens + (optional(step.token) + rest.tokens) =~= (before_tokens
                    + optional(step.token)) + rest.tokens);
                assert(before_errors + (optional(step.error) + rest.errors) =~= (before_errors
                    + optional(step.error)) + rest.errors);
            }
        }
        self.start = self.current;
        let ghost before_tokens = token_views(self.tokens@);
        self.tokens.push(Token::new(TokenType::EOF, String::from_str("EOF"), None, self.line));
        proof {
            assert(token_views(self.tokens@) =~= before_tokens + seq![end_token(self.line as int)]);
            assert(error_views(self.errors@) =~= error_views(self.errors@) + Seq::<
                ErrorView,
            >::empty());
        }
    }
}

} // verus!
