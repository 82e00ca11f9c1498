//! Whitespace separates tokens and means nothing else: the tokens that a
//! scanner returns depend on the text that is left alone, a whitespace
//! character put between two tokens changes none of them, and the literals
//! of the tokens make up the text without its whitespace.

use super::lexer::{
    char_at, lemma_run_holds_class, lemma_skip_run_step, run_end, spec_is_whitespace, CharClass,
    LexerView,
};
use super::stream::{
    lemma_after_tokens_wf, lemma_end_of_input_means_end, lemma_end_of_input_repeats,
    lemma_literal_is_source_text, lemma_next_token_moves_forward,
    lemma_skip_whitespace_moves_forward,
};
use super::token::KeyWords;
use vstd::prelude::*;

verus! {

/// The text without its whitespace characters.
pub open spec fn without_whitespace(text: Seq<char>) -> Seq<char> {
    text.filter(|ch: char| !spec_is_whitespace(ch))
}

impl LexerView {
    /// The text from the current character on.
    pub open spec fn remaining(self) -> Seq<char> {
        self.input.subrange(self.position as int, self.input.len() as int)
    }

    /// The literals of the tokens that the first `n` calls of `next_token`
    /// return, one after the other.
    pub open spec fn literals(self, n: nat) -> Seq<char>
        decreases n,
    {
        if n == 0 {
            Seq::empty()
        } else {
            self.next_token().literal + self.after_next_token().literals((n - 1) as nat)
        }
    }
}

/// Two texts that are equal from one index each hold the same characters
/// at every distance from these indices, and their runs from there are
/// equally long.
proof fn lemma_equal_rest(
    first: Seq<char>,
    from: int,
    second: Seq<char>,
    second_from: int,
    class: CharClass,
)
    requires
        0 <= from <= first.len(),
        0 <= second_from <= second.len(),
        first.subrange(from, first.len() as int) == second.subrange(
            second_from,
            second.len() as int,
        ),
    ensures
        first.len() - from == second.len() - second_from,
        forall|i: int|
            from <= i ==> #[trigger] char_at(first, i) == char_at(second, i - from + second_from),
        forall|i: int|
            from <= i <= first.len() ==> #[trigger] first.subrange(i, first.len() as int)
                == second.subrange(i - from + second_from, second.len() as int),
        run_end(first, from, class) - from == run_end(second, second_from, class) - second_from,
    decreases first.len() - from,
{
    let rest = first.subrange(from, first.len() as int);
    let second_rest = second.subrange(second_from, second.len() as int);
    assert(rest.len() == second_rest.len());
    assert forall|i: int| from <= i implies #[trigger] char_at(first, i) == char_at(
        second,
        i - from + second_from,
    ) by {
        if i < first.len() {
            assert(rest[i - from] == second_rest[i - from]);
        }
    }
    assert forall|i: int| from <= i <= first.len() implies #[trigger] first.subrange(
        i,
        first.len() as int,
    ) == second.subrange(i - from + second_from, second.len() as int) by {
        assert(first.subrange(i, first.len() as int) =~= rest.subrange(
            i - from,
            rest.len() as int,
        ));
        assert(second.subrange(i - from + second_from, second.len() as int)
            =~= second_rest.subrange(i - from, second_rest.len() as int));
    }
    if from < first.len() {
        assert(char_at(first, from) == char_at(second, second_from));
        assert(first.subrange(from + 1, first.len() as int) == second.subrange(
            second_from + 1,
            second.len() as int,
        ));
        lemma_equal_rest(first, from + 1, second, second_from + 1, class);
    }
}

/// The next token depends on the text that is left alone: two scanners
/// with the same text before them return the same token, and have the same
/// text before them afterwards.
pub proof fn lemma_next_token_depends_on_rest(first: LexerView, second: LexerView)
    requires
        first.wf(),
        second.wf(),
        first.remaining() == second.remaining(),
    ensures
        first.next_token() == second.next_token(),
        first.after_next_token().remaining() == second.after_next_token().remaining(),
{
    let a = first.input;
    let b = second.input;
    lemma_equal_rest(a, first.position as int, b, second.position as int, CharClass::Whitespace);
    lemma_run_holds_class(a, first.position as int, CharClass::Whitespace);
    lemma_run_holds_class(b, second.position as int, CharClass::Whitespace);
    let start = first.skip_whitespace();
    let second_start = second.skip_whitespace();
    let at = start.position as int;
    let second_at = second_start.position as int;
    let shift = second_at - at;
    assert(start.remaining() == second_start.remaining());
    lemma_equal_rest(a, at, b, second_at, CharClass::Letter);
    lemma_equal_rest(a, at, b, second_at, CharClass::Digit);
    lemma_run_holds_class(a, at, CharClass::Letter);
    lemma_run_holds_class(a, at, CharClass::Digit);
    lemma_run_holds_class(b, second_at, CharClass::Letter);
    lemma_run_holds_class(b, second_at, CharClass::Digit);
    assert(start.ch == second_start.ch);
    assert(start.peek() == second_start.peek()) by {
        assert(char_at(a, at + 1) == char_at(b, at + 1 - at + second_at));
    }
    let end = start.token_end() as int;
    assert(second_start.token_end() == end + shift);
    assert(start.token_text() =~= second_start.token_text()) by {
        if !start.at_end() {
            let text = a.subrange(at, end);
            let second_text = b.subrange(second_at, end + shift);
            assert forall|j: int| 0 <= j < text.len() implies #[trigger] text[j]
                == second_text[j] by {
                assert(char_at(a, at + j) == char_at(b, at + j - at + second_at));
            }
        }
    }
    assert(a.subrange(end, a.len() as int) == b.subrange(end - at + second_at, b.len() as int));
}

/// The tokens that follow depend on the text that is left alone.
pub proof fn lemma_tokens_depend_on_rest(first: LexerView, second: LexerView, n: nat)
    requires
        first.wf(),
        second.wf(),
        first.remaining() == second.remaining(),
    ensures
        first.token(n) == second.token(n),
    decreases n,
{
    lemma_next_token_depends_on_rest(first, second);
    if n > 0 {
        lemma_next_token_moves_forward(first);
        lemma_next_token_moves_forward(second);
        lemma_tokens_depend_on_rest(
            first.after_next_token(),
            second.after_next_token(),
            (n - 1) as nat,
        );
    }
}

/// A whitespace character put before the character on which a scanner
/// stands changes none of the tokens that follow.
pub proof fn lemma_leading_whitespace(state: LexerView, space: char, n: nat)
    requires
        state.wf(),
        spec_is_whitespace(space),
    ensures
        LexerView::at(state.input.insert(state.position as int, space), state.position).token(n)
            == state.token(n),
{
    let spaced = LexerView::at(state.input.insert(state.position as int, space), state.position);
    let next = spaced.advance();
    lemma_skip_run_step(spaced, CharClass::Whitespace);
    assert(next.remaining() =~= state.remaining());
    lemma_tokens_depend_on_rest(next, state, n);
    assert(spaced.next_token() == next.next_token());
    assert(spaced.after_next_token() == next.after_next_token());
    if n > 0 {
        assert(spaced.after_tokens(n) == next.after_tokens(n));
    }
}

/// Two texts that agree from `from` up to `limit` have the same run from
/// `from`, where the run of the first ends before `limit`, or at `limit`
/// and the second text does not continue it there.
proof fn lemma_run_agrees(
    first: Seq<char>,
    second: Seq<char>,
    from: int,
    limit: int,
    class: CharClass,
)
    requires
        0 <= from <= limit <= first.len(),
        limit <= second.len(),
        forall|i: int| from <= i < limit ==> first[i] == second[i],
        run_end(first, from, class) <= limit,
        run_end(first, from, class) == limit ==> !class.contains(char_at(second, limit)),
    ensures
        run_end(second, from, class) == run_end(first, from, class),
    decreases limit - from,
{
    lemma_run_holds_class(first, from, class);
    if from < limit && class.contains(first[from]) {
        lemma_run_agrees(first, second, from + 1, limit, class);
    }
}

/// A token that ends at or before `limit` is the same in a text that
/// agrees up to `limit` and has whitespace there.
proof fn lemma_next_token_before_whitespace(state: LexerView, other: Seq<char>, limit: int)
    requires
        state.wf(),
        state.next_token().token_type != KeyWords::EOF,
        state.after_next_token().position <= limit <= state.input.len(),
        limit < other.len(),
        forall|i: int| 0 <= i < limit ==> state.input[i] == other[i],
        spec_is_whitespace(other[limit]),
    ensures
        LexerView::at(other, state.position).next_token() == state.next_token(),
        LexerView::at(other, state.position).after_next_token() == LexerView::at(
            other,
            state.after_next_token().position,
        ),
{
    let input = state.input;
    let from = state.position as int;
    lemma_skip_whitespace_moves_forward(state);
    lemma_literal_is_source_text(state);
    let start = state.skip_whitespace();
    let at = start.position as int;
    let end = state.after_next_token().position as int;
    let there = LexerView::at(other, state.position);
    lemma_run_holds_class(input, from, CharClass::Whitespace);
    lemma_run_agrees(input, other, from, limit, CharClass::Whitespace);
    let other_start = there.skip_whitespace();
    assert(other_start == LexerView::at(other, start.position));
    lemma_run_holds_class(input, at, CharClass::Letter);
    lemma_run_holds_class(input, at, CharClass::Digit);
    lemma_run_agrees(input, other, at, limit, CharClass::Letter);
    lemma_run_agrees(input, other, at, limit, CharClass::Digit);
    assert(other_start.token_end() == start.token_end());
    assert(other_start.token_text() =~= start.token_text());
}

/// A whitespace character put between two tokens changes no token: the
/// text with such a character put where the scanner stands after any
/// number of calls gives the same tokens, call by call, as the text
/// without it.
pub proof fn lemma_whitespace_between_tokens(state: LexerView, calls: nat, space: char, n: nat)
    requires
        state.wf(),
        spec_is_whitespace(space),
    ensures
        LexerView::at(
            state.input.insert(state.after_tokens(calls).position as int, space),
            state.position,
        ).token(n) == state.token(n),
    decreases calls,
{
    if calls == 0 {
        lemma_leading_whitespace(state, space, n);
    } else {
        let next = state.after_next_token();
        lemma_next_token_moves_forward(state);
        lemma_after_tokens_wf(next, (calls - 1) as nat);
        let gap = state.after_tokens(calls).position as int;
        let spaced_input = state.input.insert(gap, space);
        let spaced = LexerView::at(spaced_input, state.position);
        if state.next_token().token_type == KeyWords::EOF {
            lemma_end_of_input_means_end(state);
            lemma_end_of_input_repeats(state, n);
            assert forall|i: int|
                spaced.position <= i < spaced_input.len() implies spec_is_whitespace(
                #[trigger] spaced_input[i],
            ) by {
                if i < gap {
                    assert(spec_is_whitespace(state.input[i]));
                } else if i > gap {
                    assert(spec_is_whitespace(state.input[i - 1]));
                }
            }
            lemma_end_of_input_means_end(spaced);
            lemma_end_of_input_repeats(spaced, n);
        } else {
            lemma_next_token_before_whitespace(state, spaced_input, gap);
            lemma_whitespace_between_tokens(next, (calls - 1) as nat, space, n);
            if n > 0 {
                lemma_whitespace_between_tokens(next, (calls - 1) as nat, space, (n - 1) as nat);
                assert(spaced.after_tokens(n) == spaced.after_next_token().after_tokens(
                    (n - 1) as nat,
                ));
            }
        }
    }
}

/// A text of whitespace alone is empty without it, and a text that holds
/// none is left as it is.
proof fn lemma_without_whitespace(text: Seq<char>)
    ensures
        (forall|i: int| 0 <= i < text.len() ==> spec_is_whitespace(#[trigger] text[i]))
            ==> without_whitespace(text) == Seq::<char>::empty(),
        (forall|i: int| 0 <= i < text.len() ==> !spec_is_whitespace(#[trigger] text[i]))
            ==> without_whitespace(text) == text,
    decreases text.len(),
{
    reveal(Seq::filter);
    if text.len() > 0 {
        let front = text.drop_last();
        lemma_without_whitespace(front);
        if forall|i: int| 0 <= i < text.len() ==> spec_is_whitespace(#[trigger] text[i]) {
            assert forall|i: int| 0 <= i < front.len() implies spec_is_whitespace(
                #[trigger] front[i],
            ) by {
                assert(front[i] == text[i]);
            }
            assert(spec_is_whitespace(text[text.len() - 1]));
        }
        if forall|i: int| 0 <= i < text.len() ==> !spec_is_whitespace(#[trigger] text[i]) {
            assert forall|i: int| 0 <= i < front.len() implies !spec_is_whitespace(
                #[trigger] front[i],
            ) by {
                assert(front[i] == text[i]);
            }
            assert(!spec_is_whitespace(text[text.len() - 1]));
            assert(front.push(text.last()) =~= text);
        }
    }
}

/// The text that a call of `next_token` passes over is, without its
/// whitespace, the literal of the token that the call returns; for the
/// end-of-input token it is nothing.
pub proof fn lemma_literal_is_text_without_whitespace(state: LexerView)
    requires
        state.wf(),
    ensures
        without_whitespace(
            state.input.subrange(
                state.position as int,
                state.after_next_token().position as int,
            ),
        ) == if state.next_token().token_type == KeyWords::EOF {
            Seq::<char>::empty()
        } else {
            state.next_token().literal
        },
{
    let input = state.input;
    lemma_skip_whitespace_moves_forward(state);
    lemma_next_token_moves_forward(state);
    lemma_literal_is_source_text(state);
    let start = state.skip_whitespace();
    let from = state.position as int;
    let at = start.position as int;
    let end = state.after_next_token().position as int;
    let skipped = input.subrange(from, at);
    let covered = input.subrange(at, end);
    lemma_run_holds_class(input, at, CharClass::Letter);
    lemma_run_holds_class(input, at, CharClass::Digit);
    assert forall|i: int| 0 <= i < skipped.len() implies spec_is_whitespace(
        #[trigger] skipped[i],
    ) by {
        assert(spec_is_whitespace(input[from + i]));
    }
    assert forall|i: int| 0 <= i < covered.len() implies !spec_is_whitespace(
        #[trigger] covered[i],
    ) by {
        assert(covered[i] == input[at + i]);
    }
    lemma_without_whitespace(skipped);
    lemma_without_whitespace(covered);
    assert(input.subrange(from, end) =~= skipped + covered);
    Seq::filter_distributes_over_add(skipped, covered, |ch: char| !spec_is_whitespace(ch));
}

/// The literals of the tokens before the first end-of-input token make up
/// the text without its whitespace: nothing else is dropped, and nothing
/// is changed or moved.
pub proof fn lemma_literals_make_up_the_text(state: LexerView, n: nat)
    requires
        state.wf(),
        forall|i: nat| i < n ==> (#[trigger] state.token(i)).token_type != KeyWords::EOF,
    ensures
        state.literals(n) == without_whitespace(
            state.input.subrange(state.position as int, state.after_tokens(n).position as int),
        ),
        state.token(n).token_type == KeyWords::EOF ==> state.literals(n) == without_whitespace(
            state.remaining(),
        ),
    decreases n,
{
    let input = state.input;
    let from = state.position as int;
    let last = state.after_tokens(n);
    lemma_after_tokens_wf(state, n);
    if n == 0 {
        lemma_without_whitespace(input.subrange(from, from));
    } else {
        let next = state.after_next_token();
        lemma_next_token_moves_forward(state);
        lemma_after_tokens_wf(next, (n - 1) as nat);
        assert(state.token(0).token_type != KeyWords::EOF);
        assert forall|i: nat| i < n - 1 implies (#[trigger] next.token(i)).token_type
            != KeyWords::EOF by {
            assert(state.token(i + 1) == next.token(i));
        }
        lemma_literals_make_up_the_text(next, (n - 1) as nat);
        lemma_literal_is_text_without_whitespace(state);
        let first = input.subrange(from, next.position as int);
        let rest = input.subrange(next.position as int, last.position as int);
        assert(input.subrange(from, last.position as int) =~= first + rest);
        Seq::filter_distributes_over_add(first, rest, |ch: char| !spec_is_whitespace(ch));
    }
    if state.token(n).token_type == KeyWords::EOF {
        lemma_literal_is_text_without_whitespace(last);
        lemma_end_of_input_means_end(last);
        lemma_next_token_moves_forward(last);
        let passed = input.subrange(from, last.position as int);
        let blank = input.subrange(last.position as int, input.len() as int);
        assert(last.after_next_token().position == input.len());
        assert(state.remaining() =~= passed + blank);
        Seq::filter_distributes_over_add(passed, blank, |ch: char| !spec_is_whitespace(ch));
    }
}

} // verus!
