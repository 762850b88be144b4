//! The scanner: a model of scanning over character sequences, and the
//! executable `Lexer` proved to follow it.
use vstd::prelude::*;
use vstd::std_specs::iter::IteratorSpec;
use crate::token::{
    errors_view, tokens_view, Kind, LexError, LexErrorKind, LexErrorModel, Token, TokenModel,
    TokenType,
};

verus! {

broadcast use vstd::string::group_string_axioms;

pub open spec fn spec_is_digit(c: char) -> bool {
    '0' <= c && c <= '9'
}

pub open spec fn spec_is_alpha(c: char) -> bool {
    ('a' <= c && c <= 'z') || ('A' <= c && c <= 'Z') || c == '_'
}

pub open spec fn spec_is_alphanumeric(c: char) -> bool {
    spec_is_alpha(c) || spec_is_digit(c)
}

/// The classes of characters that make up a run: digits, identifier
/// characters, anything but a line break, anything but a quote.
pub enum CharClass {
    Digit,
    IdentChar,
    NotNewline,
    NotQuote,
}

pub open spec fn in_class(c: char, k: CharClass) -> bool {
    match k {
        CharClass::Digit => spec_is_digit(c),
        CharClass::IdentChar => spec_is_alphanumeric(c),
        CharClass::NotNewline => c != '\n',
        CharClass::NotQuote => c != '"',
    }
}

/// The first position at or after `i` that ends a maximal run of class `k`.
pub open spec fn run_end(s: Seq<char>, i: int, k: CharClass) -> int
    decreases s.len() - i,
{
    if i >= s.len() || !in_class(s[i], k) {
        i
    } else {
        run_end(s, i + 1, k)
    }
}

/// The number of line breaks in `s[i..j]`.
pub open spec fn newlines(s: Seq<char>, i: int, j: int) -> int
    decreases j - i,
{
    if j <= i {
        0
    } else {
        newlines(s, i, j - 1) + if s[j - 1] == '\n' { 1int } else { 0int }
    }
}

/// The 1-based line on which position `i` of `s` stands.
pub open spec fn line_at(s: Seq<char>, i: int) -> int {
    1 + newlines(s, 0, i)
}

/// The character at `i`, or `'\0'` past the end.
pub open spec fn char_at(s: Seq<char>, i: int) -> char {
    if 0 <= i < s.len() {
        s[i]
    } else {
        '\0'
    }
}

/// The end of a number literal starting at `i`: digits, then a `.` and more
/// digits only when a digit follows the `.`.
pub open spec fn number_end(s: Seq<char>, i: int) -> int {
    let d = run_end(s, i, CharClass::Digit);
    if d + 1 < s.len() && s[d] == '.' && spec_is_digit(s[d + 1]) {
        run_end(s, d + 1, CharClass::Digit)
    } else {
        d
    }
}

/// The reserved word spelled by `text`, if any.
pub open spec fn keyword(text: Seq<char>) -> Option<Kind> {
    if text == "and"@ {
        Some(Kind::And)
    } else if text == "class"@ {
        Some(Kind::Class)
    } else if text == "else"@ {
        Some(Kind::Else)
    } else if text == "false"@ {
        Some(Kind::False)
    } else if text == "fun"@ {
        Some(Kind::Fun)
    } else if text == "for"@ {
        Some(Kind::For)
    } else if text == "if"@ {
        Some(Kind::If)
    } else if text == "nil"@ {
        Some(Kind::Nil)
    } else if text == "or"@ {
        Some(Kind::Or)
    } else if text == "print"@ {
        Some(Kind::Print)
    } else if text == "return"@ {
        Some(Kind::Return)
    } else if text == "super"@ {
        Some(Kind::Super)
    } else if text == "this"@ {
        Some(Kind::This)
    } else if text == "true"@ {
        Some(Kind::True)
    } else if text == "var"@ {
        Some(Kind::Var)
    } else if text == "while"@ {
        Some(Kind::While)
    } else {
        None
    }
}

/// The outcome of one step of scanning: where the next step starts, and the
/// token or error (or neither) that this step produced.
pub struct Step {
    pub next: int,
    pub token: Option<TokenModel>,
    pub error: Option<LexErrorModel>,
}

pub open spec fn token_step(s: Seq<char>, start: int, end: int, kind: Kind) -> Step {
    Step {
        next: end,
        token: Some(TokenModel { kind, lexeme: s.subrange(start, end), line: line_at(s, start) }),
        error: None,
    }
}

pub open spec fn skip_step(end: int) -> Step {
    Step { next: end, token: None, error: None }
}

pub open spec fn error_step(s: Seq<char>, start: int, end: int, kind: LexErrorKind) -> Step {
    Step { next: end, token: None, error: Some(LexErrorModel { kind, line: line_at(s, start) }) }
}

/// An operator that becomes `pair` when `=` follows it, and `single` otherwise.
pub open spec fn operator_step(s: Seq<char>, i: int, pair: Kind, single: Kind) -> Step {
    if i + 1 < s.len() && s[i + 1] == '=' {
        token_step(s, i, i + 2, pair)
    } else {
        token_step(s, i, i + 1, single)
    }
}

/// One step of scanning at position `i` (`0 <= i < s.len()`).
///
/// A string token and an unterminated string are both reported on the line
/// of the opening quote.
pub open spec fn step(s: Seq<char>, i: int) -> Step {
    let c = s[i];
    if c == '(' {
        token_step(s, i, i + 1, Kind::LeftParen)
    } else if c == ')' {
        token_step(s, i, i + 1, Kind::RightParen)
    } else if c == '{' {
        token_step(s, i, i + 1, Kind::LeftBrace)
    } else if c == '}' {
        token_step(s, i, i + 1, Kind::RightBrace)
    } else if c == ',' {
        token_step(s, i, i + 1, Kind::Comma)
    } else if c == '.' {
        token_step(s, i, i + 1, Kind::Dot)
    } else if c == '-' {
        token_step(s, i, i + 1, Kind::Minus)
    } else if c == '+' {
        token_step(s, i, i + 1, Kind::Plus)
    } else if c == ';' {
        token_step(s, i, i + 1, Kind::Semicolon)
    } else if c == '*' {
        token_step(s, i, i + 1, Kind::Star)
    } else if c == '!' {
        operator_step(s, i, Kind::BangEqual, Kind::Bang)
    } else if c == '=' {
        operator_step(s, i, Kind::EqualEqual, Kind::Equal)
    } else if c == '<' {
        operator_step(s, i, Kind::LessEqual, Kind::Less)
    } else if c == '>' {
        operator_step(s, i, Kind::GreaterEqual, Kind::Greater)
    } else if c == '/' {
        if i + 1 < s.len() && s[i + 1] == '/' {
            skip_step(run_end(s, i, CharClass::NotNewline))
        } else {
            token_step(s, i, i + 1, Kind::Slash)
        }
    } else if c == ' ' || c == '\r' || c == '\t' || c == '\n' {
        skip_step(i + 1)
    } else if c == '"' {
        let e = run_end(s, i + 1, CharClass::NotQuote);
        if e >= s.len() {
            error_step(s, i, e, LexErrorKind::UnterminatedString)
        } else {
            token_step(s, i, e + 1, Kind::Str(s.subrange(i + 1, e)))
        }
    } else if spec_is_digit(c) {
        let e = number_end(s, i);
        token_step(s, i, e, Kind::Number(s.subrange(i, e)))
    } else if spec_is_alpha(c) {
        let e = run_end(s, i, CharClass::IdentChar);
        let text = s.subrange(i, e);
        token_step(
            s,
            i,
            e,
            match keyword(text) {
                Some(k) => k,
                None => Kind::Identifier(text),
            },
        )
    } else {
        error_step(s, i, i + 1, LexErrorKind::UnexpectedCharacter)
    }
}

pub open spec fn opt_seq<T>(o: Option<T>) -> Seq<T> {
    match o {
        Some(x) => seq![x],
        None => seq![],
    }
}

/// The tokens and errors of scanning `s` from position `i` to its end; the
/// tokens end in `Eof` on the last line.
pub open spec fn scan_from(s: Seq<char>, i: nat) -> (Seq<TokenModel>, Seq<LexErrorModel>)
    decreases s.len() - i,
    via scan_from_decreases
{
    if i >= s.len() {
        (seq![TokenModel { kind: Kind::Eof, lexeme: seq![], line: line_at(s, i as int) }], seq![])
    } else {
        let st = step(s, i as int);
        let rest = scan_from(s, st.next as nat);
        (opt_seq(st.token) + rest.0, opt_seq(st.error) + rest.1)
    }
}

#[via_fn]
proof fn scan_from_decreases(s: Seq<char>, i: nat) {
    if i < s.len() {
        lemma_step_advances(s, i as int);
    }
}

/// The tokens and errors of scanning all of `s`.
pub open spec fn scan(s: Seq<char>) -> (Seq<TokenModel>, Seq<LexErrorModel>) {
    scan_from(s, 0)
}

pub proof fn lemma_run_end(s: Seq<char>, i: int, k: CharClass)
    requires
        0 <= i <= s.len(),
    ensures
        i <= run_end(s, i, k) <= s.len(),
        forall|j: int| i <= j < run_end(s, i, k) ==> in_class(#[trigger] s[j], k),
        run_end(s, i, k) < s.len() ==> !in_class(s[run_end(s, i, k)], k),
    decreases s.len() - i,
{
    if i < s.len() && in_class(s[i], k) {
        lemma_run_end(s, i + 1, k);
    }
}

pub proof fn lemma_step_advances(s: Seq<char>, i: int)
    requires
        0 <= i < s.len(),
    ensures
        i < step(s, i).next <= s.len(),
{
    lemma_run_end(s, i, CharClass::NotNewline);
    lemma_run_end(s, i, CharClass::IdentChar);
    lemma_run_end(s, i + 1, CharClass::NotQuote);
    lemma_run_end(s, i, CharClass::Digit);
    let d = run_end(s, i, CharClass::Digit);
    if d + 1 < s.len() {
        lemma_run_end(s, d + 1, CharClass::Digit);
    }
}

pub proof fn lemma_newlines_bound(s: Seq<char>, i: int, j: int)
    requires
        i <= j,
    ensures
        0 <= newlines(s, i, j) <= j - i,
    decreases j - i,
{
    if i < j {
        lemma_newlines_bound(s, i, j - 1);
    }
}

fn is_digit(c: char) -> (r: bool)
    ensures
        r == spec_is_digit(c),
{
    '0' <= c && c <= '9'
}

fn is_alpha(c: char) -> (r: bool)
    ensures
        r == spec_is_alpha(c),
{
    ('a' <= c && c <= 'z') || ('A' <= c && c <= 'Z') || c == '_'
}

fn is_alphanumeric(c: char) -> (r: bool)
    ensures
        r == spec_is_alphanumeric(c),
{
    is_alpha(c) || is_digit(c)
}

/// Whether `chars[start..end]` spells `word`.
fn spells(chars: &Vec<char>, start: usize, end: usize, word: &str) -> (r: bool)
    requires
        start <= end <= chars@.len(),
    ensures
        r == (chars@.subrange(start as int, end as int) == word@),
{
    let n = word.unicode_len();
    if end - start != n {
        return false;
    }
    let mut k: usize = 0;
    while k < n
        invariant
            start <= end <= chars@.len(),
            end - start == n == word@.len(),
            k <= n,
            forall|j: int| 0 <= j < k ==> chars@[start + j] == word@[j],
        decreases n - k,
    {
        if chars[start + k] != word.get_char(k) {
            assert(chars@.subrange(start as int, end as int)[k as int] != word@[k as int]);
            return false;
        }
        k = k + 1;
    }
    assert(chars@.subrange(start as int, end as int) =~= word@);
    true
}

/// The reserved word spelled by `chars[start..end]`, if any.
fn keyword_type(chars: &Vec<char>, start: usize, end: usize) -> (r: Option<TokenType>)
    requires
        start <= end <= chars@.len(),
    ensures
        match r {
            Some(t) => keyword(chars@.subrange(start as int, end as int)) == Some(t@),
            None => keyword(chars@.subrange(start as int, end as int)) is None,
        },
{
    if spells(chars, start, end, "and") {
        Some(TokenType::And)
    } else if spells(chars, start, end, "class") {
        Some(TokenType::Class)
    } else if spells(chars, start, end, "else") {
        Some(TokenType::Else)
    } else if spells(chars, start, end, "false") {
        Some(TokenType::False)
    } else if spells(chars, start, end, "fun") {
        Some(TokenType::Fun)
    } else if spells(chars, start, end, "for") {
        Some(TokenType::For)
    } else if spells(chars, start, end, "if") {
        Some(TokenType::If)
    } else if spells(chars, start, end, "nil") {
        Some(TokenType::Nil)
    } else if spells(chars, start, end, "or") {
        Some(TokenType::Or)
    } else if spells(chars, start, end, "print") {
        Some(TokenType::Print)
    } else if spells(chars, start, end, "return") {
        Some(TokenType::Return)
    } else if spells(chars, start, end, "super") {
        Some(TokenType::Super)
    } else if spells(chars, start, end, "this") {
        Some(TokenType::This)
    } else if spells(chars, start, end, "true") {
        Some(TokenType::True)
    } else if spells(chars, start, end, "var") {
        Some(TokenType::Var)
    } else if spells(chars, start, end, "while") {
        Some(TokenType::While)
    } else {
        None
    }
}

/// `r` is the error of step `st`, if it has one.
spec fn reports(r: Result<(), LexError>, st: Step) -> bool {
    match r {
        Ok(()) => st.error is None,
        Err(e) => st.error == Some(e@),
    }
}

/// Scans one source text into tokens.
pub struct Lexer {
    source: String,
    chars: Vec<char>,
    tokens: Vec<Token>,
    start: usize,
    current: usize,
    line: usize,
}

impl Lexer {
    /// The characters of the source text.
    pub closed spec fn text(&self) -> Seq<char> {
        self.chars@
    }

    /// The tokens produced so far.
    pub closed spec fn token_seq(&self) -> Seq<Token> {
        self.tokens@
    }

    /// The tokens produced so far, ending in `Eof` once `scan_tokens` has run.
    pub fn tokens(&self) -> (r: &Vec<Token>)
        ensures
            r@ == self.token_seq(),
    {
        &self.tokens
    }

    /// The cursor is within the text and the line counter matches it.
    pub closed spec fn wf(&self) -> bool {
        &&& self.chars@ == self.source@
        &&& self.chars@.len() < usize::MAX
        &&& self.start <= self.current <= self.chars@.len()
        &&& self.line == line_at(self.chars@, self.current as int)
    }

    /// The cursor stands at the start of the text, on line 1.
    pub closed spec fn at_start(&self) -> bool {
        self.start == 0 && self.current == 0 && self.line == 1
    }

    /// The same text, and the same token start.
    closed spec fn same_text(&self, other: &Lexer) -> bool {
        &&& self.chars@ == other.chars@
        &&& self.source@ == other.source@
        &&& self.start == other.start
    }

    pub fn new(source: String) -> (r: Lexer)
        requires
            source@.len() < usize::MAX,
        ensures
            r.wf(),
            r.text() == source@,
            r.token_seq().len() == 0,
            r.at_start(),
    {
        let mut chars: Vec<char> = Vec::new();
        let mut it = source.as_str().chars();
        loop
            invariant
                chars@ + it.remaining() == source@,
                it.decrease() is Some,
            ensures
                chars@ == source@,
            decreases it.decrease()->0,
        {
            match it.next() {
                Some(c) => {
                    chars.push(c);
                },
                None => {
                    break ;
                },
            }
        }
        Lexer { source, chars, tokens: Vec::new(), start: 0, current: 0, line: 1 }
    }

    fn is_at_end(&self) -> (r: bool)
        requires
            self.wf(),
        ensures
            r == (self.current >= self.chars@.len()),
    {
        self.current >= self.chars.len()
    }

    fn peek(&self) -> (c: char)
        requires
            self.wf(),
        ensures
            c == char_at(self.chars@, self.current as int),
    {
        if self.is_at_end() {
            return '\0';
        }
        self.chars[self.current]
    }

    fn peek_next(&self) -> (c: char)
        requires
            self.wf(),
        ensures
            c == char_at(self.chars@, self.current + 1),
    {
        let next = self.current + 1;
        if next >= self.chars.len() {
            return '\0';
        }
        self.chars[next]
    }

    /// Consumes one character, counting it if it breaks the line.
    fn advance(&mut self) -> (c: char)
        requires
            old(self).wf(),
            old(self).current < old(self).chars@.len(),
        ensures
            final(self).wf(),
            final(self).same_text(old(self)),
            final(self).tokens == old(self).tokens,
            final(self).current == old(self).current + 1,
            c == old(self).chars@[old(self).current as int],
    {
        let c = self.chars[self.current];
        proof {
            lemma_newlines_bound(self.chars@, 0, self.current + 1);
        }
        self.current = self.current + 1;
        if c == '\n' {
            self.line = self.line + 1;
        }
        c
    }

    /// This lexer took the step of scanning that starts at `old.start`.
    closed spec fn took_step(&self, old: &Lexer) -> bool {
        let st = step(old.chars@, old.start as int);
        &&& self.wf()
        &&& self.same_text(old)
        &&& self.current == st.next
        &&& tokens_view(self.tokens@) == tokens_view(old.tokens@) + opt_seq(st.token)
    }

    /// Appends a token spanning `start..current`, starting on `line`.
    fn add_token(&mut self, kind: TokenType, line: usize)
        requires
            old(self).wf(),
        ensures
            final(self).wf(),
            final(self).same_text(old(self)),
            final(self).current == old(self).current,
            tokens_view(final(self).tokens@) == tokens_view(old(self).tokens@) + seq![
                TokenModel {
                    kind: kind@,
                    lexeme: old(self).chars@.subrange(
                        old(self).start as int,
                        old(self).current as int,
                    ),
                    line: line as int,
                },
            ],
    {
        let text = String::from_str(self.source.as_str().substring_char(self.start, self.current));
        let ghost old_tokens = self.tokens@;
        self.tokens.push(Token::new(kind, text, line));
        proof {
            assert(tokens_view(self.tokens@) =~= tokens_view(old_tokens) + seq![self.tokens@.last()@]);
        }
    }

    /// An operator that is `pair` when `=` follows and `single` otherwise.
    fn match_operator(&mut self, pair: TokenType, single: TokenType, line: usize)
        requires
            old(self).wf(),
            old(self).current == old(self).start + 1,
            line == line_at(old(self).chars@, old(self).start as int),
        ensures
            ({
                let st = operator_step(old(self).chars@, old(self).start as int, pair@, single@);
                &&& final(self).wf()
                &&& final(self).same_text(old(self))
                &&& final(self).current == st.next
                &&& tokens_view(final(self).tokens@) == tokens_view(old(self).tokens@) + opt_seq(
                    st.token,
                )
            }),
    {
        if !self.is_at_end() && self.peek() == '=' {
            self.advance();
            self.add_token(pair, line);
        } else {
            self.add_token(single, line);
        }
    }

    /// Skips a line comment: everything up to the line break or the end.
    fn comment(&mut self)
        requires
            old(self).wf(),
            old(self).current == old(self).start + 1,
            old(self).chars@[old(self).start as int] == '/',
        ensures
            final(self).wf(),
            final(self).same_text(old(self)),
            final(self).tokens == old(self).tokens,
            final(self).current == run_end(
                old(self).chars@,
                old(self).start as int,
                CharClass::NotNewline,
            ),
    {
        while self.peek() != '\n' && !self.is_at_end()
            invariant
                self.wf(),
                self.same_text(old(self)),
                self.tokens == old(self).tokens,
                self.start < self.current,
                run_end(self.chars@, self.start as int, CharClass::NotNewline) == run_end(
                    self.chars@,
                    self.current as int,
                    CharClass::NotNewline,
                ),
            decreases self.chars@.len() - self.current,
        {
            self.advance();
        }
    }

    /// A string literal; `line` is the line of the opening quote.
    fn string(&mut self, line: usize) -> (r: Result<(), LexError>)
        requires
            old(self).wf(),
            old(self).current == old(self).start + 1,
            old(self).chars@[old(self).start as int] == '"',
            line == line_at(old(self).chars@, old(self).start as int),
        ensures
            final(self).took_step(old(self)),
            reports(r, step(old(self).chars@, old(self).start as int)),
    {
        while self.peek() != '"' && !self.is_at_end()
            invariant
                self.wf(),
                self.same_text(old(self)),
                self.tokens == old(self).tokens,
                self.start < self.current,
                run_end(self.chars@, self.start + 1, CharClass::NotQuote) == run_end(
                    self.chars@,
                    self.current as int,
                    CharClass::NotQuote,
                ),
            decreases self.chars@.len() - self.current,
        {
            self.advance();
        }
        if self.is_at_end() {
            proof {
                assert(tokens_view(self.tokens@) + seq![] =~= tokens_view(self.tokens@));
            }
            return Err(LexError { kind: LexErrorKind::UnterminatedString, line });
        }
        self.advance();
        let value = String::from_str(
            self.source.as_str().substring_char(self.start + 1, self.current - 1),
        );
        self.add_token(TokenType::String(value), line);
        Ok(())
    }

    /// A number literal: digits, and a fraction only where a digit follows
    /// the `.`.
    fn number(&mut self, line: usize)
        requires
            old(self).wf(),
            old(self).current == old(self).start + 1,
            spec_is_digit(old(self).chars@[old(self).start as int]),
            line == line_at(old(self).chars@, old(self).start as int),
        ensures
            final(self).took_step(old(self)),
    {
        while is_digit(self.peek())
            invariant
                self.wf(),
                self.same_text(old(self)),
                self.tokens == old(self).tokens,
                self.start < self.current,
                run_end(self.chars@, self.start as int, CharClass::Digit) == run_end(
                    self.chars@,
                    self.current as int,
                    CharClass::Digit,
                ),
            decreases self.chars@.len() - self.current,
        {
            self.advance();
        }
        if self.peek() == '.' && is_digit(self.peek_next()) {
            let ghost d = self.current as int;
            self.advance();
            while is_digit(self.peek())
                invariant
                    self.wf(),
                    self.same_text(old(self)),
                    self.tokens == old(self).tokens,
                    d < self.current,
                    run_end(self.chars@, d + 1, CharClass::Digit) == run_end(
                        self.chars@,
                        self.current as int,
                        CharClass::Digit,
                    ),
                decreases self.chars@.len() - self.current,
            {
                self.advance();
            }
        }
        let text = String::from_str(self.source.as_str().substring_char(self.start, self.current));
        self.add_token(TokenType::Number(text), line);
    }

    /// An identifier, or the reserved word it spells.
    fn identifier(&mut self, line: usize)
        requires
            old(self).wf(),
            old(self).current == old(self).start + 1,
            spec_is_alpha(old(self).chars@[old(self).start as int]),
            line == line_at(old(self).chars@, old(self).start as int),
        ensures
            final(self).took_step(old(self)),
    {
        while is_alphanumeric(self.peek())
            invariant
                self.wf(),
                self.same_text(old(self)),
                self.tokens == old(self).tokens,
                self.start < self.current,
                run_end(self.chars@, self.start as int, CharClass::IdentChar) == run_end(
                    self.chars@,
                    self.current as int,
                    CharClass::IdentChar,
                ),
            decreases self.chars@.len() - self.current,
        {
            self.advance();
        }
        let kind = match keyword_type(&self.chars, self.start, self.current) {
            Some(t) => t,
            None => TokenType::Identifier(
                String::from_str(self.source.as_str().substring_char(self.start, self.current)),
            ),
        };
        self.add_token(kind, line);
    }

    /// Scans the token that starts at `start`.
    fn scan_token(&mut self) -> (r: Result<(), LexError>)
        requires
            old(self).wf(),
            old(self).start == old(self).current,
            old(self).current < old(self).chars@.len(),
        ensures
            final(self).took_step(old(self)),
            reports(r, step(old(self).chars@, old(self).start as int)),
    {
        let ghost before = tokens_view(self.tokens@);
        let line = self.line;
        let c = self.advance();
        if c == '(' {
            self.add_token(TokenType::LeftParen, line);
        } else if c == ')' {
            self.add_token(TokenType::RightParen, line);
        } else if c == '{' {
            self.add_token(TokenType::LeftBrace, line);
        } else if c == '}' {
            self.add_token(TokenType::RightBrace, line);
        } else if c == ',' {
            self.add_token(TokenType::Comma, line);
        } else if c == '.' {
            self.add_token(TokenType::Dot, line);
        } else if c == '-' {
            self.add_token(TokenType::Minus, line);
        } else if c == '+' {
            self.add_token(TokenType::Plus, line);
        } else if c == ';' {
            self.add_token(TokenType::Semicolon, line);
        } else if c == '*' {
            self.add_token(TokenType::Star, line);
        } else if c == '!' {
            self.match_operator(TokenType::BangEqual, TokenType::Bang, line);
        } else if c == '=' {
            self.match_operator(TokenType::EqualEqual, TokenType::Equal, line);
        } else if c == '<' {
            self.match_operator(TokenType::LessEqual, TokenType::Less, line);
        } else if c == '>' {
            self.match_operator(TokenType::GreaterEqual, TokenType::Greater, line);
        } else if c == '/' {
            if self.peek() == '/' {
                self.comment();
                proof {
                    assert(before + seq![] =~= before);
                }
            } else {
                self.add_token(TokenType::Slash, line);
            }
        } else if c == ' ' || c == '\r' || c == '\t' || c == '\n' {
            proof {
                assert(before + seq![] =~= before);
            }
        } else if c == '"' {
            return self.string(line);
        } else if is_digit(c) {
            self.number(line);
        } else if is_alpha(c) {
            self.identifier(line);
        } else {
            proof {
                assert(before + seq![] =~= before);
            }
            return Err(LexError { kind: LexErrorKind::UnexpectedCharacter, line });
        }
        Ok(())
    }

    /// Scans the whole text from its start. The tokens, kept by the lexer,
    /// are those of `scan`, ending in `Eof`; the result is `Ok` exactly when
    /// scanning found no error, and otherwise holds every error in order.
    pub fn scan_tokens(&mut self) -> (r: Result<(), Vec<LexError>>)
        requires
            old(self).wf(),
        ensures
            final(self).wf(),
            final(self).text() == old(self).text(),
            tokens_view(final(self).token_seq()) == scan(old(self).text()).0,
            match r {
                Ok(()) => scan(old(self).text()).1.len() == 0,
                Err(errors) => errors@.len() > 0 && errors_view(errors@) == scan(
                    old(self).text(),
                ).1,
            },
    {
        self.tokens = Vec::new();
        self.start = 0;
        self.current = 0;
        self.line = 1;
        let mut errors: Vec<LexError> = Vec::new();
        proof {
            assert(tokens_view(self.tokens@) + scan(self.chars@).0 =~= scan(self.chars@).0);
            assert(errors_view(errors@) + scan(self.chars@).1 =~= scan(self.chars@).1);
        }
        while !self.is_at_end()
            invariant
                self.wf(),
                self.chars@ == old(self).chars@,
                self.source@ == old(self).source@,
                scan(self.chars@).0 == tokens_view(self.tokens@) + scan_from(
                    self.chars@,
                    self.current as nat,
                ).0,
                scan(self.chars@).1 == errors_view(errors@) + scan_from(
                    self.chars@,
                    self.current as nat,
                ).1,
            decreases self.chars@.len() - self.current,
        {
            self.start = self.current;
            let ghost s = self.chars@;
            let ghost cur = self.current;
            let ghost before_t = tokens_view(self.tokens@);
            let ghost before_e = errors_view(errors@);
            let r = self.scan_token();
            match r {
                Err(e) => {
                    errors.push(e);
                },
                Ok(()) => {},
            }
            proof {
                let st = step(s, cur as int);
                let rest = scan_from(s, st.next as nat);
                lemma_step_advances(s, cur as int);
                assert(errors_view(errors@) =~= before_e + opt_seq(st.error));
                assert(tokens_view(self.tokens@) + rest.0 =~= before_t + scan_from(s, cur as nat).0);
                assert(errors_view(errors@) + rest.1 =~= before_e + scan_from(s, cur as nat).1);
            }
        }
        let ghost before_t = tokens_view(self.tokens@);
        self.tokens.push(Token::new(TokenType::Eof, String::new(), self.line));
        proof {
            assert(tokens_view(self.tokens@) =~= before_t + scan_from(self.chars@, self.current as nat).0);
            assert(errors_view(errors@) =~= errors_view(errors@) + scan_from(self.chars@, self.current as nat).1);
        }
        if errors.len() == 0 {
            Ok(())
        } else {
            Err(errors)
        }
    }
}

} // verus!
