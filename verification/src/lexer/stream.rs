//! The sequence of tokens that repeated calls of [`Lexer::next_token`]
//! produce, and what holds of it for every input.
//!
//! [`Lexer::next_token`]: super::lexer::Lexer::next_token

use super::lexer::{
    lemma_run_holds_class, spec_is_digit, spec_is_letter, spec_is_whitespace, CharClass,
    LexerView,
};
use super::token::{keyword_kind, KeyWords, TokenView};
use vstd::prelude::*;

verus! {

/// The end-of-input token.
pub open spec fn end_of_input() -> TokenView {
    TokenView { token_type: KeyWords::EOF, literal: seq!['\0'] }
}

impl LexerView {
    /// The state after `n` calls of `next_token`.
    pub open spec fn after_tokens(self, n: nat) -> LexerView
        decreases n,
    {
        if n == 0 {
            self
        } else {
            self.after_next_token().after_tokens((n - 1) as nat)
        }
    }

    /// The token that the call after `n` calls of `next_token` returns.
    pub open spec fn token(self, n: nat) -> TokenView {
        self.after_tokens(n).next_token()
    }

    /// The tokens that the first `n` calls of `next_token` return.
    pub open spec fn tokens(self, n: nat) -> Seq<TokenView> {
        Seq::new(n, |i: int| self.token(i as nat))
    }
}

/// Skipping whitespace leaves a well-formed state on the first character
/// at or after the current one that is no whitespace, and passes over
/// whitespace only.
pub proof fn lemma_skip_whitespace_moves_forward(state: LexerView)
    requires
        state.wf(),
    ensures
        state.skip_whitespace().wf(),
        state.skip_whitespace().input == state.input,
        state.position <= state.skip_whitespace().position,
        !spec_is_whitespace(state.skip_whitespace().ch),
        forall|i: int|
            state.position <= i < state.skip_whitespace().position ==> spec_is_whitespace(
                #[trigger] state.input[i],
            ),
{
    if spec_is_whitespace(state.ch) {
        lemma_run_holds_class(state.input, state.position as int, CharClass::Whitespace);
    }
}

/// A call of `next_token` keeps the input and leaves the scanner on a
/// character at or after the one it stood on, or past the end.
pub proof fn lemma_next_token_moves_forward(state: LexerView)
    requires
        state.wf(),
    ensures
        state.after_next_token().wf(),
        state.after_next_token().input == state.input,
        state.position <= state.skip_whitespace().position <= state.after_next_token().position,
{
    lemma_skip_whitespace_moves_forward(state);
    let start = state.skip_whitespace();
    lemma_run_holds_class(start.input, start.position as int, CharClass::Letter);
    lemma_run_holds_class(start.input, start.position as int, CharClass::Digit);
}

/// Every state that a scanner reaches is well-formed, and has the input it
/// began with.
pub proof fn lemma_after_tokens_wf(state: LexerView, n: nat)
    requires
        state.wf(),
    ensures
        state.after_tokens(n).wf(),
        state.after_tokens(n).input == state.input,
        state.position <= state.after_tokens(n).position,
    decreases n,
{
    if n > 0 {
        lemma_next_token_moves_forward(state);
        lemma_after_tokens_wf(state.after_next_token(), (n - 1) as nat);
    }
}

/// Two new scanners over the same text produce the same tokens.
pub proof fn lemma_tokens_depend_on_input_alone(first: LexerView, second: LexerView, n: nat)
    requires
        first == LexerView::at(first.input, 0),
        second == LexerView::at(second.input, 0),
        first.input == second.input,
    ensures
        first.tokens(n) == second.tokens(n),
{
}

/// The end-of-input token is returned where nothing but whitespace is left
/// of the text, and only there; the call leaves the scanner past the end.
pub proof fn lemma_end_of_input_means_end(state: LexerView)
    requires
        state.wf(),
    ensures
        state.next_token().token_type == KeyWords::EOF <==> forall|i: int|
            state.position <= i < state.input.len() ==> spec_is_whitespace(
                #[trigger] state.input[i],
            ),
        state.next_token().token_type == KeyWords::EOF ==> {
            &&& state.next_token() == end_of_input()
            &&& state.after_next_token().at_end()
        },
{
    lemma_skip_whitespace_moves_forward(state);
    let start = state.skip_whitespace();
    if start.position < state.input.len() {
        assert(!spec_is_whitespace(state.input[start.position as int]));
    }
}

/// Past the end of the input every call of `next_token` returns the
/// end-of-input token and leaves the scanner where it is.
pub proof fn lemma_end_of_input_is_final(state: LexerView, n: nat)
    requires
        state.wf(),
        state.at_end(),
    ensures
        state.after_tokens(n) == state,
        state.token(n) == end_of_input(),
    decreases n,
{
    if n > 0 {
        lemma_end_of_input_is_final(state, (n - 1) as nat);
    }
}

/// Once the end-of-input token is returned, every later call returns it
/// too.
pub proof fn lemma_end_of_input_repeats(state: LexerView, n: nat)
    requires
        state.wf(),
        state.next_token().token_type == KeyWords::EOF,
    ensures
        state.token(n) == end_of_input(),
{
    lemma_end_of_input_means_end(state);
    lemma_next_token_moves_forward(state);
    if n > 0 {
        lemma_end_of_input_is_final(state.after_next_token(), (n - 1) as nat);
    }
}

/// `==` and `!=` are one token each, never two; `=` and `!` before any
/// other character, or as the last character, are a token of their own.
pub proof fn lemma_operators_match_longest(state: LexerView)
    requires
        state.wf(),
    ensures
        ({
            let start = state.skip_whitespace();
            let token = state.next_token();
            let after = state.after_next_token();
            &&& start.ch == '=' && start.peek() == '=' ==> token == (TokenView {
                token_type: KeyWords::EQ,
                literal: seq!['=', '='],
            }) && after.position == start.position + 2
            &&& start.ch == '=' && start.peek() != '=' ==> token == (TokenView {
                token_type: KeyWords::ASSIGN,
                literal: seq!['='],
            }) && after.position == start.position + 1
            &&& start.ch == '!' && start.peek() == '=' ==> token == (TokenView {
                token_type: KeyWords::NOT_EQ,
                literal: seq!['!', '='],
            }) && after.position == start.position + 2
            &&& start.ch == '!' && start.peek() != '=' ==> token == (TokenView {
                token_type: KeyWords::BANG,
                literal: seq!['!'],
            }) && after.position == start.position + 1
        }),
{
    lemma_skip_whitespace_moves_forward(state);
    let start = state.skip_whitespace();
    let token = state.next_token();
    if start.ch == '=' || start.ch == '!' {
        if start.peek() == '=' {
            assert(token.literal =~= seq![start.ch, '=']);
        } else {
            assert(token.literal =~= seq![start.ch]);
        }
    }
}

/// A word is a maximal run of letters and a number a maximal run of digits:
/// the literal holds nothing else, and the character on which the scanner
/// is left does not continue the run. A word has the kind that the table
/// of reserved words gives its literal, a number is an integer.
pub proof fn lemma_words_and_numbers_are_maximal(state: LexerView)
    requires
        state.wf(),
    ensures
        ({
            let start = state.skip_whitespace();
            let token = state.next_token();
            let after = state.after_next_token();
            &&& spec_is_letter(start.ch) ==> {
                &&& token.token_type == keyword_kind(token.literal)
                &&& forall|i: int|
                    0 <= i < token.literal.len() ==> spec_is_letter(#[trigger] token.literal[i])
                &&& !spec_is_letter(after.ch)
            }
            &&& spec_is_digit(start.ch) ==> {
                &&& token.token_type == KeyWords::INT
                &&& forall|i: int|
                    0 <= i < token.literal.len() ==> spec_is_digit(#[trigger] token.literal[i])
                &&& !spec_is_digit(after.ch)
            }
        }),
{
    lemma_skip_whitespace_moves_forward(state);
    let start = state.skip_whitespace();
    lemma_run_holds_class(start.input, start.position as int, CharClass::Letter);
    lemma_run_holds_class(start.input, start.position as int, CharClass::Digit);
}

/// The literal of a token is the source text that the call consumed for
/// it, without the whitespace before it: the text from the first character
/// that is no whitespace to the character on which the scanner is left,
/// which is never empty. The end-of-input token consumes nothing, and its
/// literal is the sentinel alone.
pub proof fn lemma_literal_is_source_text(state: LexerView)
    requires
        state.wf(),
    ensures
        ({
            let start = state.skip_whitespace();
            let token = state.next_token();
            let after = state.after_next_token();
            if token.token_type == KeyWords::EOF {
                &&& token == end_of_input()
                &&& after == start
                &&& start.at_end()
            } else {
                &&& start.position < after.position <= state.input.len()
                &&& token.literal == state.input.subrange(
                    start.position as int,
                    after.position as int,
                )
            }
        }),
{
    lemma_skip_whitespace_moves_forward(state);
    lemma_next_token_moves_forward(state);
    let start = state.skip_whitespace();
    lemma_run_holds_class(start.input, start.position as int, CharClass::Letter);
    lemma_run_holds_class(start.input, start.position as int, CharClass::Digit);
}

} // verus!
