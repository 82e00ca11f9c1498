//! Token kinds, tokens, and the reserved-word table.

use vstd::prelude::*;
use vstd::std_specs::cmp::PartialEqSpecImpl;
use vstd::string::StrSliceExecFns;

verus! {

/// The closed set of lexical kinds.
#[allow(non_camel_case_types)]
#[derive(Clone, Copy, PartialEq, Eq, Structural, Debug)]
pub enum KeyWords {
    ILLEGAL,
    EOF,
    IDENT,
    INT,
    PLUS,
    MINUS,
    ASTERISK,
    SLASH,
    ASSIGN,
    BANG,
    LT,
    GT,
    EQ,
    NOT_EQ,
    COMMA,
    SEMICOLON,
    LPAREN,
    RPAREN,
    LBRACE,
    RBRACE,
    FUNCTION,
    LET,
    TRUE,
    FALSE,
    IF,
    ELSE,
    RETURN,
}

/// A classified piece of source text.
#[derive(Debug)]
pub struct Token {
    pub token_type: KeyWords,
    pub literal: String,
}

/// The mathematical content of a [`Token`]: its kind and the characters of
/// its literal.
pub struct TokenView {
    pub token_type: KeyWords,
    pub literal: Seq<char>,
}

impl View for Token {
    type V = TokenView;

    open spec fn view(&self) -> TokenView {
        TokenView { token_type: self.token_type, literal: self.literal@ }
    }
}

impl PartialEq for Token {
    fn eq(&self, other: &Self) -> (r: bool) {
        self.token_type == other.token_type && self.literal == other.literal
    }
}

impl PartialEqSpecImpl for Token {
    open spec fn obeys_eq_spec() -> bool {
        true
    }

    open spec fn eq_spec(&self, other: &Self) -> bool {
        self.token_type == other.token_type && self.literal@ == other.literal@
    }
}

impl Eq for Token {}

/// The kind that the reserved-word table assigns to an identifier-shaped
/// text: the dedicated kind of each of the seven reserved words, and
/// `IDENT` for everything else.
pub open spec fn keyword_kind(text: Seq<char>) -> KeyWords {
    if text == seq!['f', 'n'] {
        KeyWords::FUNCTION
    } else if text == seq!['l', 'e', 't'] {
        KeyWords::LET
    } else if text == seq!['t', 'r', 'u', 'e'] {
        KeyWords::TRUE
    } else if text == seq!['f', 'a', 'l', 's', 'e'] {
        KeyWords::FALSE
    } else if text == seq!['i', 'f'] {
        KeyWords::IF
    } else if text == seq!['e', 'l', 's', 'e'] {
        KeyWords::ELSE
    } else if text == seq!['r', 'e', 't', 'u', 'r', 'n'] {
        KeyWords::RETURN
    } else {
        KeyWords::IDENT
    }
}

/// The table of reserved words, word by word: `fn`, `let`, `true`, `false`,
/// `if`, `else` and `return` have a kind of their own each, and every other
/// text is an identifier.
pub proof fn lemma_reserved_words(text: Seq<char>)
    ensures
        keyword_kind(text) == KeyWords::FUNCTION <==> text == "fn"@,
        keyword_kind(text) == KeyWords::LET <==> text == "let"@,
        keyword_kind(text) == KeyWords::TRUE <==> text == "true"@,
        keyword_kind(text) == KeyWords::FALSE <==> text == "false"@,
        keyword_kind(text) == KeyWords::IF <==> text == "if"@,
        keyword_kind(text) == KeyWords::ELSE <==> text == "else"@,
        keyword_kind(text) == KeyWords::RETURN <==> text == "return"@,
        keyword_kind(text) == KeyWords::IDENT <==> {
            &&& text != "fn"@
            &&& text != "let"@
            &&& text != "true"@
            &&& text != "false"@
            &&& text != "if"@
            &&& text != "else"@
            &&& text != "return"@
        },
{
    reveal_strlit("fn");
    reveal_strlit("let");
    reveal_strlit("true");
    reveal_strlit("false");
    reveal_strlit("if");
    reveal_strlit("else");
    reveal_strlit("return");
    assert("fn"@ =~= seq!['f', 'n']);
    assert("let"@ =~= seq!['l', 'e', 't']);
    assert("true"@ =~= seq!['t', 'r', 'u', 'e']);
    assert("false"@ =~= seq!['f', 'a', 'l', 's', 'e']);
    assert("if"@ =~= seq!['i', 'f']);
    assert("else"@ =~= seq!['e', 'l', 's', 'e']);
    assert("return"@ =~= seq!['r', 'e', 't', 'u', 'r', 'n']);
}

/// Whether `text` and `word` hold the same characters.
fn same_text(text: &str, word: &str) -> (r: bool)
    ensures
        r == (text@ == word@),
{
    let n = text.unicode_len();
    if word.unicode_len() != n {
        return false;
    }
    let mut i: usize = 0;
    while i < n
        invariant
            i <= n,
            n == text@.len(),
            n == word@.len(),
            forall|j: int| 0 <= j < i ==> text@[j] == word@[j],
        decreases n - i,
    {
        if text.get_char(i) != word.get_char(i) {
            return false;
        }
        i += 1;
    }
    assert(text@ =~= word@);
    true
}

impl Token {
    /// A token of the given kind and literal.
    pub fn new(token_type: KeyWords, literal: String) -> (token: Self)
        ensures
            token.token_type == token_type,
            token.literal == literal,
    {
        Self { token_type, literal }
    }

    /// Resolves an identifier-shaped text through the reserved-word table.
    pub fn lookup_token(literal: &String) -> (kind: KeyWords)
        ensures
            kind == keyword_kind(literal@),
    {
        let text = literal.as_str();
        proof {
            lemma_reserved_words(text@);
        }
        if same_text(text, "fn") {
            KeyWords::FUNCTION
        } else if same_text(text, "let") {
            KeyWords::LET
        } else if same_text(text, "true") {
            KeyWords::TRUE
        } else if same_text(text, "false") {
            KeyWords::FALSE
        } else if same_text(text, "if") {
            KeyWords::IF
        } else if same_text(text, "else") {
            KeyWords::ELSE
        } else if same_text(text, "return") {
            KeyWords::RETURN
        } else {
            KeyWords::IDENT
        }
    }
}

} // verus!
