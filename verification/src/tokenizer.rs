//! The scanner: text to tokens.

use vstd::prelude::*;
use crate::text::{char_is_alphabetic, char_is_alphanumeric, is_alphabetic, is_alphanumeric, push_char};

verus! {

/// The kind of a token.
#[allow(non_camel_case_types)]
#[derive(PartialEq, Eq, Structural, Copy, Clone, Debug)]
pub enum TokenType {
    CREATE,
    TABLE,
    DATABASE,
    USE,
    IDENTIFIER,
    LBRACE,
    RBRACE,
    COMMA,
}

/// A token: its kind and, for an identifier, its text.
#[derive(Debug, Clone, PartialEq, Eq)]
pub struct Token {
    pub token: TokenType,
    pub value: Option<String>,
}

/// The mathematical value of a [`Token`].
pub struct Lexeme {
    pub token: TokenType,
    pub value: Option<Seq<char>>,
}

impl View for Token {
    type V = Lexeme;

    open spec fn view(&self) -> Lexeme {
        Lexeme {
            token: self.token,
            value: match self.value {
                Some(s) => Some(s@),
                None => None,
            },
        }
    }
}

/// The values of a sequence of tokens.
pub open spec fn lexemes(tokens: Seq<Token>) -> Seq<Lexeme> {
    tokens.map_values(|t: Token| t@)
}

/// A token of kind `kind` that carries no text.
pub open spec fn bare(kind: TokenType) -> Lexeme {
    Lexeme { token: kind, value: None }
}

/// The token that a word stands for: one of the four keywords, spelled
/// exactly, or else an identifier carrying the word.
pub open spec fn word_lexeme(word: Seq<char>) -> Lexeme {
    if word == "CREATE"@ {
        bare(TokenType::CREATE)
    } else if word == "TABLE"@ {
        bare(TokenType::TABLE)
    } else if word == "DATABASE"@ {
        bare(TokenType::DATABASE)
    } else if word == "USE"@ {
        bare(TokenType::USE)
    } else {
        Lexeme { token: TokenType::IDENTIFIER, value: Some(word) }
    }
}

/// The token that the character `c` is by itself, if it is one.
pub open spec fn symbol_lexeme(c: char) -> Option<Lexeme> {
    if c == ',' {
        Some(bare(TokenType::COMMA))
    } else if c == '{' {
        Some(bare(TokenType::LBRACE))
    } else if c == '}' {
        Some(bare(TokenType::RBRACE))
    } else {
        None
    }
}

/// The length of the longest prefix of `s` made of alphanumeric characters.
pub open spec fn word_run(s: Seq<char>) -> nat
    decreases s.len(),
{
    if s.len() > 0 && is_alphanumeric(s[0]) {
        1 + word_run(s.skip(1))
    } else {
        0
    }
}

/// The tokens of `s`, in the order in which they occur.
///
/// A word starts at an alphabetic character and runs through the alphanumeric
/// characters that follow it. Each of `{`, `}` and `,` is a token by itself.
/// Every other character is passed over.
pub open spec fn scan(s: Seq<char>) -> Seq<Lexeme>
    decreases s.len(),
    via scan_terminates
{
    if s.len() == 0 {
        Seq::empty()
    } else if is_alphabetic(s[0]) {
        let n = 1 + word_run(s.skip(1));
        seq![word_lexeme(s.take(n as int))] + scan(s.skip(n as int))
    } else {
        match symbol_lexeme(s[0]) {
            Some(symbol) => seq![symbol] + scan(s.skip(1)),
            None => scan(s.skip(1)),
        }
    }
}

#[via_fn]
proof fn scan_terminates(s: Seq<char>) {
    if s.len() > 0 {
        lemma_word_run_bound(s.skip(1));
    }
}

/// Whether `token` carries text exactly if it is an identifier.
pub open spec fn well_formed(token: Lexeme) -> bool {
    token.value is Some <==> token.token == TokenType::IDENTIFIER
}

/// A run of alphanumeric characters never extends past its text.
pub proof fn lemma_word_run_bound(s: Seq<char>)
    ensures
        word_run(s) <= s.len(),
    decreases s.len(),
{
    if s.len() > 0 && is_alphanumeric(s[0]) {
        lemma_word_run_bound(s.skip(1));
    }
}

/// If the first `k` characters of `s` are alphanumeric and the next one, if
/// there is one, is not, then the run at the start of `s` has length `k`.
proof fn lemma_word_run_is(s: Seq<char>, k: nat)
    requires
        k <= s.len(),
        forall|j: int| 0 <= j < k ==> is_alphanumeric(#[trigger] s[j]),
        k < s.len() ==> !is_alphanumeric(s[k as int]),
    ensures
        word_run(s) == k,
    decreases k,
{
    if k > 0 {
        let rest = s.skip(1);
        assert forall|j: int| 0 <= j < k - 1 implies is_alphanumeric(#[trigger] rest[j]) by {
            assert(rest[j] == s[j + 1]);
        }
        if k < s.len() {
            assert(rest[k - 1] == s[k as int]);
        }
        lemma_word_run_is(rest, (k - 1) as nat);
    }
}

/// The scanner gives text to identifiers and to no other token.
pub proof fn lemma_scanned_tokens_are_well_formed(s: Seq<char>)
    ensures
        forall|i: int| 0 <= i < scan(s).len() ==> well_formed(#[trigger] scan(s)[i]),
    decreases s.len(),
{
    if s.len() > 0 {
        let rest = if is_alphabetic(s[0]) {
            s.skip(1 + word_run(s.skip(1)) as int)
        } else {
            s.skip(1)
        };
        lemma_word_run_bound(s.skip(1));
        lemma_scanned_tokens_are_well_formed(rest);
        assert forall|i: int| 0 <= i < scan(s).len() implies well_formed(#[trigger] scan(s)[i]) by {
            if scan(s).len() == scan(rest).len() {
                assert(scan(s) == scan(rest));
            } else if i > 0 {
                assert(scan(s)[i] == scan(rest)[i - 1]);
            }
        }
    }
}

/// Whether `word` is spelled as `literal`.
fn same_text(word: &String, literal: &str) -> (b: bool)
    ensures
        b == (word@ == literal@),
{
    let other = String::from_str(literal);
    *word == other
}

/// Turns a scanned word into its token.
pub fn word_token(word: String) -> (t: Token)
    ensures
        t@ == word_lexeme(word@),
{
    if same_text(&word, "CREATE") {
        Token { token: TokenType::CREATE, value: None }
    } else if same_text(&word, "TABLE") {
        Token { token: TokenType::TABLE, value: None }
    } else if same_text(&word, "DATABASE") {
        Token { token: TokenType::DATABASE, value: None }
    } else if same_text(&word, "USE") {
        Token { token: TokenType::USE, value: None }
    } else {
        Token { token: TokenType::IDENTIFIER, value: Some(word) }
    }
}

/// The token that a character outside of words is by itself: one of `{`,
/// `}` and `,`. Any other character is no token.
pub fn symbol_token(c: char) -> (t: Option<Token>)
    ensures
        match t {
            Some(token) => symbol_lexeme(c) == Some(token@),
            None => symbol_lexeme(c) is None,
        },
{
    if c == ',' {
        Some(Token { token: TokenType::COMMA, value: None })
    } else if c == '{' {
        Some(Token { token: TokenType::LBRACE, value: None })
    } else if c == '}' {
        Some(Token { token: TokenType::RBRACE, value: None })
    } else {
        None
    }
}

/// A scanner over one text, with a cursor that [`Tokenizer::tokenize`] moves
/// and puts back to the start.
pub struct Tokenizer {
    contents: String,
    index: usize,
}

impl Tokenizer {
    /// The text that is scanned.
    pub closed spec fn text(&self) -> Seq<char> {
        self.contents@
    }

    /// The cursor: how many characters have been consumed.
    pub closed spec fn position(&self) -> nat {
        self.index as nat
    }

    /// The cursor never lies past the end of the text.
    #[verifier::type_invariant]
    spec fn cursor_in_text(&self) -> bool {
        self.index <= self.contents@.len()
    }

    /// A scanner at the start of `contents`.
    pub fn new(contents: String) -> (t: Self)
        ensures
            t.text() == contents@,
            t.position() == 0,
    {
        Tokenizer { contents, index: 0 }
    }

    /// Scans the text from the cursor to the end and puts the cursor back to
    /// the start, so that the next call scans the whole text again.
    pub fn tokenize(&mut self) -> (tokens: Vec<Token>)
        ensures
            lexemes(tokens@) == scan(old(self).text().skip(old(self).position() as int)),
            old(self).position() == 0 ==> lexemes(tokens@) == scan(old(self).text()),
            final(self).text() == old(self).text(),
            final(self).position() == 0,
    {
        assert(self.text().skip(0) =~= self.text());
        let mut tokens: Vec<Token> = Vec::new();
        let mut buffer = String::new();
        let ghost whole = self.contents@;
        let ghost start = self.index as int;
        proof {
            use_type_invariant(&*self);
            assert(lexemes(tokens@) =~= Seq::empty());
        }
        loop
            invariant
                self.contents@ == whole,
                0 <= start <= self.index <= whole.len(),
                buffer@ == Seq::<char>::empty(),
                lexemes(tokens@) + scan(whole.skip(self.index as int)) == scan(whole.skip(start)),
            ensures
                self.contents@ == whole,
                lexemes(tokens@) == scan(whole.skip(start)),
            decreases whole.len() - self.index,
        {
            let ghost rest = whole.skip(self.index as int);
            let ghost before = lexemes(tokens@);
            let c = match self.peek(0) {
                Some(c) => c,
                None => {
                    assert(rest.len() == 0);
                    assert(before + Seq::<Lexeme>::empty() =~= before);
                    break ;
                },
            };
            assert(rest.len() > 0 && rest[0] == c);
            assert(rest.skip(1) =~= whole.skip(self.index + 1));
            if char_is_alphabetic(c) {
                let ghost first = self.index as int;
                let first_char = self.consume();
                push_char(&mut buffer, first_char);
                loop
                    invariant
                        self.contents@ == whole,
                        0 <= first < self.index <= whole.len(),
                        buffer@ == whole.subrange(first, self.index as int),
                        forall|j: int| first < j < self.index ==> is_alphanumeric(#[trigger] whole[j]),
                    ensures
                        self.contents@ == whole,
                        0 <= first < self.index <= whole.len(),
                        buffer@ == whole.subrange(first, self.index as int),
                        forall|j: int| first < j < self.index ==> is_alphanumeric(#[trigger] whole[j]),
                        self.index < whole.len() ==> !is_alphanumeric(whole[self.index as int]),
                    decreases whole.len() - self.index,
                {
                    let next_c = match self.peek(0) {
                        Some(next_c) => next_c,
                        None => {
                            break ;
                        },
                    };
                    if char_is_alphanumeric(next_c) {
                        let taken = self.consume();
                        push_char(&mut buffer, taken);
                        assert(buffer@ =~= whole.subrange(first, self.index as int));
                    } else {
                        break ;
                    }
                }
                proof {
                    let tail = rest.skip(1);
                    let k = (self.index - first - 1) as nat;
                    assert forall|j: int| 0 <= j < k implies is_alphanumeric(#[trigger] tail[j]) by {
                        assert(tail[j] == whole[first + 1 + j]);
                    }
                    if k < tail.len() {
                        assert(tail[k as int] == whole[self.index as int]);
                    }
                    lemma_word_run_is(tail, k);
                    assert(rest.take(1 + k as int) =~= buffer@);
                    assert(rest.skip(1 + k as int) =~= whole.skip(self.index as int));
                }
                let word = buffer;
                buffer = String::new();
                let token = word_token(word);
                tokens.push(token);
                proof {
                    assert(lexemes(tokens@) =~= before + seq![token@]);
                    assert(lexemes(tokens@) + scan(whole.skip(self.index as int)) =~= before + scan(
                        rest,
                    ));
                }
            } else {
                self.consume();
                if let Some(token) = symbol_token(c) {
                    tokens.push(token);
                    proof {
                        assert(lexemes(tokens@) =~= before + seq![token@]);
                        assert(lexemes(tokens@) + scan(whole.skip(self.index as int)) =~= before
                            + scan(rest));
                    }
                }
            }
        }
        self.index = 0;
        tokens
    }

    /// The character `ahead` places after the cursor, if the text has one there.
    fn peek(&self, ahead: usize) -> (c: Option<char>)
        ensures
            c == if self.position() + ahead < self.text().len() {
                Some(self.text()[self.position() + ahead])
            } else {
                None
            },
    {
        let len = self.contents.as_str().unicode_len();
        if self.index >= len || ahead >= len - self.index {
            None
        } else {
            Some(self.contents.as_str().get_char(self.index + ahead))
        }
    }

    /// Returns the character at the cursor and moves the cursor past it. At
    /// the end of the text it returns the NUL character and moves nothing.
    fn consume(&mut self) -> (c: char)
        ensures
            final(self).text() == old(self).text(),
            old(self).position() < old(self).text().len() ==> c == old(self).text()[old(
                self,
            ).position() as int] && final(self).position() == old(self).position() + 1,
            old(self).position() >= old(self).text().len() ==> c == '\0' && final(self).position()
                == old(self).position(),
    {
        let len = self.contents.as_str().unicode_len();
        if self.index < len {
            let c = self.contents.as_str().get_char(self.index);
            self.index += 1;
            c
        } else {
            '\0'
        }
    }
}

} // verus!
