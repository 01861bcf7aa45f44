//! The token source: the input text together with its top-level tokens.

use vstd::prelude::*;

verus! {

/// What the grammar sees of one top-level token of the input.
#[derive(Debug)]
pub enum Token {
    /// An identifier or a keyword, with its spelling.
    Word(String),
    /// One punctuation character.
    Punct(char),
    /// A literal.
    Literal,
    /// A delimited group, taken as one token.
    Group,
}

/// A token as contracts speak of it.
pub ghost enum TokenModel {
    Word(Seq<char>),
    Punct(char),
    Literal,
    Group,
}

impl View for Token {
    type V = TokenModel;

    open spec fn view(&self) -> TokenModel {
        match self {
            Token::Word(spelling) => TokenModel::Word(spelling@),
            Token::Punct(mark) => TokenModel::Punct(*mark),
            Token::Literal => TokenModel::Literal,
            Token::Group => TokenModel::Group,
        }
    }
}

/// The models of a run of tokens.
pub open spec fn token_models(tokens: Seq<Token>) -> Seq<TokenModel> {
    tokens.map_values(|token: Token| token@)
}

/// The top-level tokens that the host language's lexer finds in `text`, or `None` where
/// `text` is no token stream (an unbalanced delimiter, an unfinished literal).
pub uninterp spec fn lexed(text: Seq<char>) -> Option<Seq<TokenModel>>;

/// Calls `proc_macro2`'s lexer, `TokenStream::from_str`, and classifies each top-level
/// token tree by its variant. The contract only gives the outcome its name, `lexed`.
#[verifier::external_body]
fn tokenize(text: &str) -> (found: Option<Vec<Token>>)
    ensures
        found matches Some(tokens) ==> lexed(text@) == Some(token_models(tokens@)),
        found is None ==> lexed(text@) is None,
{
    let stream = <proc_macro2::TokenStream as std::str::FromStr>::from_str(text).ok()?;
    Some(stream.into_iter().map(|tree| match tree {
        proc_macro2::TokenTree::Ident(word) => Token::Word(word.to_string()),
        proc_macro2::TokenTree::Punct(mark) => Token::Punct(mark.as_char()),
        proc_macro2::TokenTree::Literal(_) => Token::Literal,
        proc_macro2::TokenTree::Group(_) => Token::Group,
    }).collect())
}

/// The input of a translation: a text of the host language and its top-level tokens.
pub struct TokenSource {
    text: String,
    tokens: Vec<Token>,
}

/// A token source as contracts speak of it.
pub ghost struct SourceModel {
    pub text: Seq<char>,
    pub tokens: Seq<TokenModel>,
}

impl SourceModel {
    /// Whether token `at` is the word `word`.
    pub open spec fn word_at(self, at: nat, word: Seq<char>) -> bool {
        at < self.tokens.len() && self.tokens[at as int] == TokenModel::Word(word)
    }

    /// Whether token `at` is the punctuation character `mark`.
    pub open spec fn mark_at(self, at: nat, mark: char) -> bool {
        at < self.tokens.len() && self.tokens[at as int] == TokenModel::Punct(mark)
    }
}

impl View for TokenSource {
    type V = SourceModel;

    closed spec fn view(&self) -> SourceModel {
        SourceModel { text: self.text@, tokens: token_models(self.tokens@) }
    }
}

impl TokenSource {
    /// The tokens are those of the text.
    #[verifier::type_invariant]
    spec fn coherent(&self) -> bool {
        lexed(self.text@) == Some(token_models(self.tokens@))
    }

    /// Lexes `text`. `None` exactly where `text` is no token stream.
    pub fn lex(text: &str) -> (source: Option<TokenSource>)
        ensures
            match source {
                Some(source) => source@.text == text@ && lexed(text@) == Some(source@.tokens),
                None => lexed(text@) is None,
            },
    {
        match tokenize(text) {
            Some(tokens) => Some(TokenSource { text: text.to_owned(), tokens }),
            None => None,
        }
    }

    /// The text that was lexed.
    pub fn text(&self) -> (text: &str)
        ensures
            text@ == self@.text,
    {
        self.text.as_str()
    }

    /// The number of top-level tokens.
    pub fn len(&self) -> (count: usize)
        ensures
            count == self@.tokens.len(),
    {
        self.tokens.len()
    }

    /// Whether token `at` is the word `word`.
    pub fn word_at(&self, at: usize, word: &str) -> (found: bool)
        ensures
            found == self@.word_at(at as nat, word@),
            self@.tokens.len() <= usize::MAX,
    {
        if at < self.tokens.len() {
            match &self.tokens[at] {
                Token::Word(spelling) => {
                    let wanted = word.to_owned();
                    *spelling == wanted
                },
                _ => false,
            }
        } else {
            false
        }
    }

    /// Whether token `at` is the punctuation character `mark`.
    pub fn mark_at(&self, at: usize, mark: char) -> (found: bool)
        ensures
            found == self@.mark_at(at as nat, mark),
            self@.tokens.len() <= usize::MAX,
    {
        if at < self.tokens.len() {
            match &self.tokens[at] {
                Token::Punct(found) => *found == mark,
                _ => false,
            }
        } else {
            false
        }
    }
}

} // verus!
