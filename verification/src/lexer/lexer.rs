//! A single-pass scanner with one character of lookahead.

use super::token::{keyword_kind, KeyWords, Token, TokenView};
use vstd::prelude::*;
use vstd::string::{StrSliceExecFns, StringExecFns};

verus! {

/// Letters of an identifier: `a`-`z`, `A`-`Z` and the underscore.
pub open spec fn spec_is_letter(ch: char) -> bool {
    ('a' <= ch && ch <= 'z') || ('A' <= ch && ch <= 'Z') || ch == '_'
}

/// Decimal digits.
pub open spec fn spec_is_digit(ch: char) -> bool {
    '0' <= ch && ch <= '9'
}

/// The characters that separate tokens: space, tab, newline, carriage return.
pub open spec fn spec_is_whitespace(ch: char) -> bool {
    ch == ' ' || ch == '\t' || ch == '\n' || ch == '\r'
}

/// The kinds of character of which the scanner consumes maximal runs.
pub enum CharClass {
    Whitespace,
    Letter,
    Digit,
}

impl CharClass {
    /// Whether `ch` belongs to the class.
    pub open spec fn contains(self, ch: char) -> bool {
        match self {
            CharClass::Whitespace => spec_is_whitespace(ch),
            CharClass::Letter => spec_is_letter(ch),
            CharClass::Digit => spec_is_digit(ch),
        }
    }
}

/// The character of `input` at `index`, or the sentinel `'\0'` where `index`
/// lies outside the text.
pub open spec fn char_at(input: Seq<char>, index: int) -> char {
    if 0 <= index < input.len() {
        input[index]
    } else {
        '\0'
    }
}

/// The end of the maximal run of `class` characters that starts at `from`:
/// the first index at or after `from` whose character is not in `class`, or
/// the length of `input` where the run reaches the end.
pub open spec fn run_end(input: Seq<char>, from: int, class: CharClass) -> int
    decreases input.len() - from,
{
    if 0 <= from < input.len() && class.contains(input[from]) {
        run_end(input, from + 1, class)
    } else {
        from
    }
}

/// The state of a scanner as plain values.
pub struct LexerView {
    /// The whole source text.
    pub input: Seq<char>,
    /// Index of the current character; the length of the text once the
    /// scanner has run off the end.
    pub position: nat,
    /// Index of the next character to read: always one past `position`.
    pub read_position: nat,
    /// The current character; `'\0'` once the scanner has run off the end.
    pub ch: char,
}

impl LexerView {
    /// The state of a scanner whose current character is the one at `index`;
    /// with `index == input.len()` the scanner has run off the end.
    pub open spec fn at(input: Seq<char>, index: nat) -> LexerView {
        LexerView {
            input,
            position: index,
            read_position: index + 1,
            ch: char_at(input, index as int),
        }
    }

    /// A scanner stands on a character of the text or has run off its
    /// end, the lookahead is one further, and the current character is the
    /// one at the position, or the sentinel past the end.
    pub open spec fn wf(self) -> bool {
        self.position <= self.input.len() && self == Self::at(self.input, self.position)
    }

    /// Whether the scanner has run off the end of the input.
    pub open spec fn at_end(self) -> bool {
        self.position >= self.input.len()
    }

    /// The character after the current one, `'\0'` where there is none.
    pub open spec fn peek(self) -> char {
        char_at(self.input, self.read_position as int)
    }

    /// The state after moving to the next character; a scanner that has run
    /// off the end stays as it is.
    pub open spec fn advance(self) -> LexerView {
        if self.at_end() {
            self
        } else {
            Self::at(self.input, self.read_position)
        }
    }

    /// The state after moving past the maximal run of `class` characters
    /// that starts at the current character.
    pub open spec fn skip_run(self, class: CharClass) -> LexerView {
        if class.contains(self.ch) {
            Self::at(self.input, run_end(self.input, self.position as int, class) as nat)
        } else {
            self
        }
    }

    /// The state after moving past the whitespace at the current character.
    pub open spec fn skip_whitespace(self) -> LexerView {
        self.skip_run(CharClass::Whitespace)
    }

    /// Whether the current character and the next one form `==` or `!=`.
    pub open spec fn on_two_char_operator(self) -> bool {
        !self.at_end() && (self.ch == '=' || self.ch == '!') && self.peek() == '='
    }

    /// The kind of the token that starts at the current character: the
    /// end-of-input token past the end of the text, and only there.
    pub open spec fn token_kind(self) -> KeyWords {
        let ch = self.ch;
        if self.at_end() {
            KeyWords::EOF
        } else if ch == '=' {
            if self.peek() == '=' {
                KeyWords::EQ
            } else {
                KeyWords::ASSIGN
            }
        } else if ch == '!' {
            if self.peek() == '=' {
                KeyWords::NOT_EQ
            } else {
                KeyWords::BANG
            }
        } else if ch == '+' {
            KeyWords::PLUS
        } else if ch == '-' {
            KeyWords::MINUS
        } else if ch == '*' {
            KeyWords::ASTERISK
        } else if ch == '/' {
            KeyWords::SLASH
        } else if ch == '<' {
            KeyWords::LT
        } else if ch == '>' {
            KeyWords::GT
        } else if ch == ',' {
            KeyWords::COMMA
        } else if ch == ';' {
            KeyWords::SEMICOLON
        } else if ch == '(' {
            KeyWords::LPAREN
        } else if ch == ')' {
            KeyWords::RPAREN
        } else if ch == '{' {
            KeyWords::LBRACE
        } else if ch == '}' {
            KeyWords::RBRACE
        } else if spec_is_letter(ch) {
            keyword_kind(self.token_text())
        } else if spec_is_digit(ch) {
            KeyWords::INT
        } else {
            KeyWords::ILLEGAL
        }
    }

    /// The index just past the token that starts at the current character;
    /// the end-of-input token covers nothing.
    pub open spec fn token_end(self) -> nat {
        if self.at_end() {
            self.position
        } else if self.on_two_char_operator() {
            self.position + 2
        } else if spec_is_letter(self.ch) {
            run_end(self.input, self.position as int, CharClass::Letter) as nat
        } else if spec_is_digit(self.ch) {
            run_end(self.input, self.position as int, CharClass::Digit) as nat
        } else {
            self.position + 1
        }
    }

    /// The literal of the token that starts at the current character: the
    /// source text that the token covers, and the sentinel alone for the
    /// end-of-input token.
    pub open spec fn token_text(self) -> Seq<char> {
        if self.at_end() {
            seq!['\0']
        } else {
            self.input.subrange(self.position as int, self.token_end() as int)
        }
    }

    /// The token that the next call of [`Lexer::next_token`] returns.
    pub open spec fn next_token(self) -> TokenView {
        let start = self.skip_whitespace();
        TokenView { token_type: start.token_kind(), literal: start.token_text() }
    }

    /// The state in which the next call of [`Lexer::next_token`] leaves the
    /// scanner.
    pub open spec fn after_next_token(self) -> LexerView {
        Self::at(self.input, self.skip_whitespace().token_end())
    }
}

/// A run that starts inside the text ends at or after its start and inside
/// the text, or at its end. All characters of the run belong to its class,
/// and the character after it, if there is one, does not.
pub proof fn lemma_run_holds_class(input: Seq<char>, from: int, class: CharClass)
    requires
        0 <= from <= input.len(),
    ensures
        from <= run_end(input, from, class) <= input.len(),
        forall|i: int|
            from <= i < run_end(input, from, class) ==> class.contains(#[trigger] input[i]),
        !class.contains(char_at(input, run_end(input, from, class))),
    decreases input.len() - from,
{
    if from < input.len() && class.contains(input[from]) {
        lemma_run_holds_class(input, from + 1, class);
    }
}

/// Moving one character into a run and then past the rest of it leads to
/// the same state as moving past the whole run at once.
pub proof fn lemma_skip_run_step(state: LexerView, class: CharClass)
    requires
        state.wf(),
        class.contains(state.ch),
    ensures
        state.position < state.input.len(),
        state.advance().wf(),
        state.advance().skip_run(class) == state.skip_run(class),
{
    let next = state.advance();
    if class.contains(next.ch) {
        assert(next.position < state.input.len());
    } else {
        assert(run_end(state.input, next.position as int, class) == next.position);
    }
}

/// Whether `ch` may stand in an identifier.
pub fn is_letter(ch: char) -> (r: bool)
    ensures
        r == spec_is_letter(ch),
{
    'a' <= ch && ch <= 'z' || 'A' <= ch && ch <= 'Z' || ch == '_'
}

/// Whether `ch` is a decimal digit.
pub fn is_digit(ch: char) -> (r: bool)
    ensures
        r == spec_is_digit(ch),
{
    '0' <= ch && ch <= '9'
}

/// Whether `ch` separates tokens.
pub fn is_whitespace(ch: char) -> (r: bool)
    ensures
        r == spec_is_whitespace(ch),
{
    ch == ' ' || ch == '\t' || ch == '\n' || ch == '\r'
}

/// The literal of the end-of-input token: the sentinel character alone.
fn sentinel_text() -> (text: String)
    ensures
        text@ == seq!['\0'],
{
    proof {
        reveal_strlit("\0");
        assert("\0"@ =~= seq!['\0']);
    }
    String::from_str("\0")
}

/// A scanner over one source text. The lookahead index is one past the
/// position at all times, so the position alone is stored.
pub struct Lexer {
    input: String,
    position: usize,
    ch: char,
}

impl View for Lexer {
    type V = LexerView;

    closed spec fn view(&self) -> LexerView {
        LexerView {
            input: self.input@,
            position: self.position as nat,
            read_position: (self.position + 1) as nat,
            ch: self.ch,
        }
    }
}

impl Lexer {
    /// A scanner over `input` that stands on its first character, or past
    /// the end where the text is empty.
    pub fn new(input: String) -> (lexer: Self)
        ensures
            lexer@ == LexerView::at(input@, 0),
            lexer@.wf(),
    {
        let ch = if input.as_str().unicode_len() > 0 {
            input.as_str().get_char(0)
        } else {
            '\0'
        };
        Self { input, position: 0, ch }
    }

    /// The number of characters of the input.
    fn length(&self) -> (length: usize)
        ensures
            length == self@.input.len(),
    {
        self.input.as_str().unicode_len()
    }

    /// Moves to the next character, or off the end where there is none;
    /// past the end the scanner stays where it is.
    fn read_char(&mut self)
        requires
            old(self)@.wf(),
        ensures
            final(self)@ == old(self)@.advance(),
            final(self)@.wf(),
    {
        let text = self.input.as_str();
        let length = text.unicode_len();
        if self.position < length {
            let next = self.position + 1;
            self.ch = if next < length {
                text.get_char(next)
            } else {
                '\0'
            };
            self.position = next;
        }
    }

    /// Skips whitespace and returns the token that starts at the first
    /// character after it, leaving the scanner on the character that follows
    /// the token. Past the end of the text it returns the end-of-input
    /// token and stays where it is.
    pub fn next_token(&mut self) -> (token: Token)
        requires
            old(self)@.wf(),
        ensures
            token@ == old(self)@.next_token(),
            final(self)@ == old(self)@.after_next_token(),
            final(self)@.input == old(self)@.input,
            final(self)@.wf(),
    {
        self.skip_whitespace();
        if self.position >= self.length() {
            return Token::new(KeyWords::EOF, sentinel_text());
        }
        let start = self.position;
        let ch = self.ch;
        let token_type = match ch {
            '=' => {
                if self.peek() == '=' {
                    self.read_char();
                    KeyWords::EQ
                } else {
                    KeyWords::ASSIGN
                }
            },
            '+' => KeyWords::PLUS,
            '-' => KeyWords::MINUS,
            '*' => KeyWords::ASTERISK,
            '/' => KeyWords::SLASH,
            '!' => {
                if self.peek() == '=' {
                    self.read_char();
                    KeyWords::NOT_EQ
                } else {
                    KeyWords::BANG
                }
            },
            '<' => KeyWords::LT,
            '>' => KeyWords::GT,
            ',' => KeyWords::COMMA,
            ';' => KeyWords::SEMICOLON,
            '(' => KeyWords::LPAREN,
            ')' => KeyWords::RPAREN,
            '{' => KeyWords::LBRACE,
            '}' => KeyWords::RBRACE,
            _ => {
                if is_letter(ch) {
                    let literal = self.read_identifier();
                    let token_type = Token::lookup_token(&literal);
                    return Token::new(token_type, literal);
                } else if is_digit(ch) {
                    return Token::new(KeyWords::INT, self.read_number());
                } else {
                    KeyWords::ILLEGAL
                }
            },
        };
        self.read_char();
        Token::new(token_type, self.slice(start, self.position))
    }

    /// The text of the input between two character indices.
    fn slice(&self, from: usize, to: usize) -> (text: String)
        requires
            from <= to <= self@.input.len(),
        ensures
            text@ == self@.input.subrange(from as int, to as int),
    {
        String::from_str(self.input.as_str().substring_char(from, to))
    }

    /// The character after the current one, without moving.
    fn peek(&self) -> (ch: char)
        requires
            self@.wf(),
        ensures
            ch == self@.peek(),
    {
        let text = self.input.as_str();
        let length = text.unicode_len();
        if self.position < length && self.position + 1 < length {
            text.get_char(self.position + 1)
        } else {
            '\0'
        }
    }

    /// Moves to the first character at or after the current one that is no
    /// whitespace.
    fn skip_whitespace(&mut self)
        requires
            old(self)@.wf(),
        ensures
            final(self)@ == old(self)@.skip_whitespace(),
            final(self)@.wf(),
    {
        while is_whitespace(self.ch)
            invariant
                self@.wf(),
                self@.skip_whitespace() == old(self)@.skip_whitespace(),
            decreases self@.input.len() - self@.position,
        {
            proof {
                lemma_skip_run_step(self@, CharClass::Whitespace);
            }
            self.read_char();
        }
    }

    /// Moves past the letters at the current character and returns them.
    fn read_identifier(&mut self) -> (text: String)
        requires
            old(self)@.wf(),
        ensures
            final(self)@ == old(self)@.skip_run(CharClass::Letter),
            final(self)@.wf(),
            text@ == old(self)@.input.subrange(
                old(self)@.position as int,
                final(self)@.position as int,
            ),
    {
        let position = self.position;
        while is_letter(self.ch)
            invariant
                self@.wf(),
                self@.skip_run(CharClass::Letter) == old(self)@.skip_run(CharClass::Letter),
                position <= self@.position <= self@.input.len(),
            decreases self@.input.len() - self@.position,
        {
            proof {
                lemma_skip_run_step(self@, CharClass::Letter);
            }
            self.read_char();
        }
        self.slice(position, self.position)
    }

    /// Moves past the digits at the current character and returns them.
    fn read_number(&mut self) -> (text: String)
        requires
            old(self)@.wf(),
        ensures
            final(self)@ == old(self)@.skip_run(CharClass::Digit),
            final(self)@.wf(),
            text@ == old(self)@.input.subrange(
                old(self)@.position as int,
                final(self)@.position as int,
            ),
    {
        let position = self.position;
        while is_digit(self.ch)
            invariant
                self@.wf(),
                self@.skip_run(CharClass::Digit) == old(self)@.skip_run(CharClass::Digit),
                position <= self@.position <= self@.input.len(),
            decreases self@.input.len() - self@.position,
        {
            proof {
                lemma_skip_run_step(self@, CharClass::Digit);
            }
            self.read_char();
        }
        self.slice(position, self.position)
    }
}

} // verus!
