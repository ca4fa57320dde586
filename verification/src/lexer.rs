//! The lexer: from text to tokens.
//!
//! `(` and `)` are tokens of their own. `;` starts a comment that ends
//! with the line. Any other run of characters up to a blank, a
//! parenthesis or a comment is one token: an integer if it is written as
//! one, else a decimal, a truth value, a keyword, or a name.

use crate::arith::decimal_number;
use crate::decimal::is_decimal_literal;
use crate::decimal::is_decimal_text;
use crate::decimal::DecimalQuery;
use crate::decimal::DecimalQueryView;
use crate::decimal::Ledger;
use crate::error::Error;
use crate::error::ErrorView;
use crate::integer::integer_text_value;
use crate::integer::is_integer_text;
use crate::integer::Integer;
use crate::semantics::number_answer;
use crate::semantics::Answers;
use crate::text::chars_of;
use crate::text::push_char;
use crate::text::text_is;
use crate::token::Token;
use crate::token::TokenView;
use vstd::prelude::*;

verus! {

/// The tokens of a list as mathematical values.
pub open spec fn tokens_view(tokens: Seq<Token>) -> Seq<TokenView> {
    Seq::new(tokens.len(), |i: int| tokens[i]@)
}

/// A token, or an error, as a mathematical value.
pub open spec fn token_result_view(r: Result<Token, Error>) -> Result<TokenView, ErrorView> {
    match r {
        Ok(token) => Ok(token@),
        Err(e) => Err(e@),
    }
}

/// A list of tokens, or an error, as a mathematical value.
pub open spec fn tokens_result_view(r: Result<Vec<Token>, Error>) -> Result<
    Seq<TokenView>,
    ErrorView,
> {
    match r {
        Ok(tokens) => Ok(tokens_view(tokens@)),
        Err(e) => Err(e@),
    }
}

/// The token that a text is when it is no number and no truth value: a
/// keyword, or else a name.
pub open spec fn word_token(text: Seq<char>) -> TokenView {
    if text == "("@ {
        TokenView::Lparen
    } else if text == ")"@ {
        TokenView::Rparen
    } else if text == "+"@ {
        TokenView::Plus
    } else if text == "-"@ {
        TokenView::Minus
    } else if text == "*"@ {
        TokenView::Times
    } else if text == "/"@ {
        TokenView::Slash
    } else if text == "%"@ {
        TokenView::Percent
    } else if text == "pow"@ {
        TokenView::Pow
    } else if text == "<"@ {
        TokenView::Lt
    } else if text == ">"@ {
        TokenView::Gt
    } else if text == "="@ {
        TokenView::Eq
    } else if text == ">="@ {
        TokenView::Gte
    } else if text == "<="@ {
        TokenView::Lte
    } else if text == "let"@ {
        TokenView::Let
    } else if text == "def"@ {
        TokenView::Def
    } else if text == "list"@ {
        TokenView::List
    } else if text == "take"@ {
        TokenView::Take
    } else if text == "if"@ {
        TokenView::If
    } else if text == "index"@ {
        TokenView::Index
    } else if text == "drop"@ {
        TokenView::Drop
    } else if text == "quote"@ {
        TokenView::Quote
    } else if text == "append"@ {
        TokenView::Append
    } else if text == "range"@ {
        TokenView::Range
    } else if text == "cat"@ {
        TokenView::Cat
    } else if text == "len"@ {
        TokenView::Len
    } else {
        TokenView::Id(text)
    }
}

/// The token that a text is. A decimal is what the host says the text is
/// written for.
pub open spec fn token_of(text: Seq<char>, answers: Answers) -> Result<TokenView, ErrorView> {
    if is_integer_text(text) {
        Ok(TokenView::Int(integer_text_value(text)))
    } else if is_decimal_text(text) {
        match number_answer(DecimalQueryView::Literal(text), answers) {
            Ok(d) => Ok(TokenView::Dec(d)),
            Err(e) => Err(e),
        }
    } else if text == "true"@ {
        Ok(TokenView::Bool(true))
    } else if text == "false"@ {
        Ok(TokenView::Bool(false))
    } else {
        Ok(word_token(text))
    }
}

/// Whether the character parts tokens without being one.
pub open spec fn is_blank(c: char) -> bool {
    c == ' ' || c == '\n' || c == '\t' || c == '\r'
}

/// How far the lexer has come: the tokens so far, the characters of the
/// token that it is within, and whether it is within a comment.
pub struct LexState {
    pub tokens: Seq<TokenView>,
    pub pending: Seq<char>,
    pub in_comment: bool,
}

/// The state after the token that the lexer is within has ended.
pub open spec fn flushed(state: LexState, answers: Answers) -> Result<LexState, ErrorView> {
    if state.pending.len() == 0 {
        Ok(state)
    } else {
        match token_of(state.pending, answers) {
            Err(e) => Err(e),
            Ok(token) => Ok(
                LexState {
                    tokens: state.tokens.push(token),
                    pending: Seq::empty(),
                    in_comment: state.in_comment,
                },
            ),
        }
    }
}

/// The state after one more character.
pub open spec fn lex_step(state: LexState, c: char, answers: Answers) -> Result<
    LexState,
    ErrorView,
> {
    if state.in_comment {
        Ok(LexState { tokens: state.tokens, pending: state.pending, in_comment: c != '\n' })
    } else if c == ';' || c == '(' || c == ')' || is_blank(c) {
        match flushed(state, answers) {
            Err(e) => Err(e),
            Ok(next) => Ok(
                LexState {
                    tokens: if c == '(' {
                        next.tokens.push(TokenView::Lparen)
                    } else if c == ')' {
                        next.tokens.push(TokenView::Rparen)
                    } else {
                        next.tokens
                    },
                    pending: next.pending,
                    in_comment: c == ';',
                },
            ),
        }
    } else {
        Ok(
            LexState {
                tokens: state.tokens,
                pending: state.pending.push(c),
                in_comment: false,
            },
        )
    }
}

/// The state after the characters of `text`.
pub open spec fn lexed_so_far(text: Seq<char>, answers: Answers) -> Result<LexState, ErrorView>
    decreases text.len(),
{
    if text.len() == 0 {
        Ok(LexState { tokens: Seq::empty(), pending: Seq::empty(), in_comment: false })
    } else {
        match lexed_so_far(text.drop_last(), answers) {
            Err(e) => Err(e),
            Ok(state) => lex_step(state, text.last(), answers),
        }
    }
}

/// The tokens of `text`. A text that ends within a token has none.
pub open spec fn lexed(text: Seq<char>, answers: Answers) -> Result<Seq<TokenView>, ErrorView> {
    match lexed_so_far(text, answers) {
        Err(e) => Err(e),
        Ok(state) => if state.pending.len() > 0 {
            Err(ErrorView::Lex(state.pending))
        } else {
            Ok(state.tokens)
        },
    }
}

/// Once the lexer has failed on the first characters, it fails on all of
/// them in the same way.
proof fn lemma_lexed_so_far_fails(text: Seq<char>, count: int, answers: Answers)
    requires
        0 <= count <= text.len(),
        lexed_so_far(text.take(count), answers) is Err,
    ensures
        lexed_so_far(text, answers) == lexed_so_far(text.take(count), answers),
    decreases text.len(),
{
    if count == text.len() {
        assert(text.take(count) == text);
    } else {
        assert(text.drop_last().take(count) == text.take(count));
        lemma_lexed_so_far_fails(text.drop_last(), count, answers);
    }
}

/// The keyword or the name that `s` is.
fn to_word(s: &String) -> (r: Token)
    ensures
        r@ == word_token(s@),
{
    let t = s.as_str();
    if text_is(t, "(") {
        Token::Lparen
    } else if text_is(t, ")") {
        Token::Rparen
    } else if text_is(t, "+") {
        Token::Plus
    } else if text_is(t, "-") {
        Token::Minus
    } else if text_is(t, "*") {
        Token::Times
    } else if text_is(t, "/") {
        Token::Slash
    } else if text_is(t, "%") {
        Token::Percent
    } else if text_is(t, "pow") {
        Token::Pow
    } else if text_is(t, "<") {
        Token::Lt
    } else if text_is(t, ">") {
        Token::Gt
    } else if text_is(t, "=") {
        Token::Eq
    } else if text_is(t, ">=") {
        Token::Gte
    } else if text_is(t, "<=") {
        Token::Lte
    } else if text_is(t, "let") {
        Token::Let
    } else if text_is(t, "def") {
        Token::Def
    } else if text_is(t, "list") {
        Token::List
    } else if text_is(t, "take") {
        Token::Take
    } else if text_is(t, "if") {
        Token::If
    } else if text_is(t, "index") {
        Token::Index
    } else if text_is(t, "drop") {
        Token::Drop
    } else if text_is(t, "quote") {
        Token::Quote
    } else if text_is(t, "append") {
        Token::Append
    } else if text_is(t, "range") {
        Token::Range
    } else if text_is(t, "cat") {
        Token::Cat
    } else if text_is(t, "len") {
        Token::Len
    } else {
        Token::Id(s.clone())
    }
}

/// The token that `s` is: an integer if it is written as one, else a
/// decimal, a truth value, a keyword, or a name.
pub fn to_token(s: &String, ledger: &Ledger) -> (r: Result<Token, Error>)
    ensures
        token_result_view(r) == token_of(s@, ledger@),
{
    match Integer::parse(s.as_str()) {
        Some(t) => {
            return Ok(Token::Int(t));
        },
        None => {},
    }
    if is_decimal_literal(s.as_str()) {
        match decimal_number(ledger, DecimalQuery::Literal(s.clone())) {
            Ok(t) => Ok(Token::Dec(t)),
            Err(e) => Err(e),
        }
    } else if text_is(s.as_str(), "true") {
        Ok(Token::Bool(true))
    } else if text_is(s.as_str(), "false") {
        Ok(Token::Bool(false))
    } else {
        Ok(to_word(s))
    }
}

/// The tokens of `cmd`.
pub fn lex(cmd: &String, ledger: &Ledger) -> (r: Result<Vec<Token>, Error>)
    ensures
        tokens_result_view(r) == lexed(cmd@, ledger@),
{
    let chars = chars_of(cmd.as_str());
    let mut tokens: Vec<Token> = Vec::new();
    let mut tok = String::new();
    let mut in_comment = false;
    let mut i: usize = 0;
    assert(tokens_view(tokens@) == Seq::<TokenView>::empty());
    while i < chars.len()
        invariant
            i <= chars.len(),
            chars@ == cmd@,
            lexed_so_far(chars@.take(i as int), ledger@) == Ok::<LexState, ErrorView>(
                LexState { tokens: tokens_view(tokens@), pending: tok@, in_comment },
            ),
        decreases chars.len() - i,
    {
        let c = chars[i];
        proof {
            assert(chars@.take(i + 1).drop_last() == chars@.take(i as int));
            assert(chars@.take(i + 1).last() == c);
        }
        if in_comment {
            in_comment = c != '\n';
        } else if c == ';' || c == '(' || c == ')' || c == ' ' || c == '\n' || c == '\t' || c
            == '\r' {
            if !tok.as_str().is_empty() {
                let ghost before = tokens_view(tokens@);
                match to_token(&tok, ledger) {
                    Ok(token) => {
                        tokens.push(token);
                        assert(tokens_view(tokens@) == before.push(token@));
                    },
                    Err(e) => {
                        proof {
                            lemma_lexed_so_far_fails(chars@, i + 1, ledger@);
                        }
                        return Err(e);
                    },
                }
                tok = String::new();
            }
            let ghost before = tokens_view(tokens@);
            if c == '(' {
                tokens.push(Token::Lparen);
                assert(tokens_view(tokens@) == before.push(TokenView::Lparen));
            } else if c == ')' {
                tokens.push(Token::Rparen);
                assert(tokens_view(tokens@) == before.push(TokenView::Rparen));
            }
            in_comment = c == ';';
        } else {
            push_char(&mut tok, c);
        }
        i += 1;
    }
    assert(chars@.take(i as int) == chars@);
    if !tok.as_str().is_empty() {
        Err(Error::Lex(tok))
    } else {
        Ok(tokens)
    }
}

} // verus!
