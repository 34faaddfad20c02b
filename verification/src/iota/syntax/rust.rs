//! The lexer of Rust source.

use vstd::prelude::*;

use super::lexer::{
    ident_run_end, law_lex_single_chars_round_trip, lemma_ident_run_end, lex, lex_step, single_char_token,
    single_chars_from, token_char, Lexer, LexerRules, Token, TokenView,
};
use super::super::utils::{is_alphanumeric, string_push, unicode_alphabetic, unicode_numeric};
use super::{lemma_line_end, lemma_push_next, line_end, next_is, take_rest_of_line, CharStream};

verus! {

/// Where a string literal ends whose opening quote came before `pos`: past
/// the first `"` that is not escaped by a backslash, or at the end of the text.
pub open spec fn string_end(chars: Seq<char>, pos: int) -> int
    decreases chars.len() - pos,
{
    if pos < 0 || pos >= chars.len() {
        chars.len() as int
    } else if chars[pos] == '\\' && pos + 1 < chars.len() && chars[pos + 1] == '"' {
        string_end(chars, pos + 2)
    } else if chars[pos] == '"' {
        pos + 1
    } else {
        string_end(chars, pos + 1)
    }
}

/// Where a char literal or lifetime ends whose quote came before `pos`: past
/// the first char that is neither alphanumeric nor an escaped quote, or at
/// the end of the text.
pub open spec fn quote_end(chars: Seq<char>, pos: int) -> int
    decreases chars.len() - pos,
{
    if pos < 0 || pos >= chars.len() {
        chars.len() as int
    } else if chars[pos] == '\\' && pos + 1 < chars.len() && chars[pos + 1] == '\'' {
        quote_end(chars, pos + 2)
    } else if !(unicode_alphabetic(chars[pos]) || unicode_numeric(chars[pos])) {
        pos + 1
    } else {
        quote_end(chars, pos + 1)
    }
}

proof fn lemma_string_end(chars: Seq<char>, pos: int)
    requires
        0 <= pos <= chars.len(),
    ensures
        pos <= string_end(chars, pos) <= chars.len(),
    decreases chars.len() - pos,
{
    if pos < chars.len() {
        if chars[pos] == '\\' && pos + 1 < chars.len() && chars[pos + 1] == '"' {
            lemma_string_end(chars, pos + 2);
        } else if chars[pos] != '"' {
            lemma_string_end(chars, pos + 1);
        }
    }
}

proof fn lemma_quote_end(chars: Seq<char>, pos: int)
    requires
        0 <= pos <= chars.len(),
    ensures
        pos <= quote_end(chars, pos) <= chars.len(),
    decreases chars.len() - pos,
{
    if pos < chars.len() {
        if chars[pos] == '\\' && pos + 1 < chars.len() && chars[pos + 1] == '\'' {
            lemma_quote_end(chars, pos + 2);
        } else if unicode_alphabetic(chars[pos]) || unicode_numeric(chars[pos]) {
            lemma_quote_end(chars, pos + 1);
        }
    }
}

/// The lexer of Rust source.
pub struct RustSyntax;

/// Reads the rest of a quoted literal: a string literal (`quote` is `"`) up to
/// its closing quote, or a char literal or lifetime (`quote` is `'`) up to the
/// first char that is not alphanumeric; a backslash before `quote` escapes it.
fn read_quoted(iter: &mut CharStream, quote: char) -> (r: String)
    requires
        old(iter).wf(),
        quote == '"' || quote == '\'',
    ensures
        final(iter).wf(),
        final(iter).chars@ == old(iter).chars@,
        final(iter).pos == (if quote == '"' {
            string_end(old(iter).chars@, old(iter).pos as int)
        } else {
            quote_end(old(iter).chars@, old(iter).pos as int)
        }),
        r@ == seq![quote] + old(iter).chars@.subrange(old(iter).pos as int, final(iter).pos as int),
{
    let ghost chars = iter.chars@;
    let ghost start = iter.pos as int;
    let ghost end = if quote == '"' {
        string_end(chars, start)
    } else {
        quote_end(chars, start)
    };
    let mut s = String::new();
    string_push(&mut s, quote);
    let mut done = false;
    proof {
        lemma_string_end(chars, start);
        lemma_quote_end(chars, start);
    }
    while !done && iter.pos < iter.chars.len()
        invariant
            iter.wf(),
            iter.chars@ == chars,
            quote == '"' || quote == '\'',
            0 <= start <= iter.pos,
            done ==> iter.pos == end,
            !done ==> end == (if quote == '"' {
                string_end(chars, iter.pos as int)
            } else {
                quote_end(chars, iter.pos as int)
            }),
            s@ == seq![quote] + chars.subrange(start, iter.pos as int),
        decreases iter.chars@.len() - iter.pos,
    {
        let ghost p = iter.pos as int;
        let (_, c) = match iter.next() {
            Some(x) => x,
            None => {
                return s;
            },
        };
        string_push(&mut s, c);
        proof {
            lemma_push_next(seq![quote], chars, start, p);
        }
        if c == '\\' && next_is(iter, quote) {
            let _ = iter.next();
            string_push(&mut s, quote);
            proof {
                lemma_push_next(seq![quote], chars, start, p + 1);
            }
        } else {
            if quote == '"' {
                if c == '"' {
                    done = true;
                }
            } else if !is_alphanumeric(c) {
                done = true;
            }
        }
    }
    s
}

impl LexerRules for RustSyntax {
    open spec fn char_rule(&self, ch: char, chars: Seq<char>, pos: int) -> Option<(TokenView, int)> {
        if ch == '#' {
            if pos < chars.len() && (chars[pos] == '!' || chars[pos] == '[') {
                Some(
                    (
                        TokenView::Attribute(seq!['#'] + chars.subrange(pos, line_end(chars, pos))),
                        line_end(chars, pos),
                    ),
                )
            } else {
                Some((TokenView::Hash, pos))
            }
        } else if ch == '/' {
            if pos < chars.len() && chars[pos] == '/' {
                let e = line_end(chars, pos + 1);
                let text = seq!['/'] + chars.subrange(pos, e);
                if pos + 1 < chars.len() && (chars[pos + 1] == '/' || chars[pos + 1] == '!') {
                    Some((TokenView::DocComment(text), e))
                } else {
                    Some((TokenView::SingleLineComment(text), e))
                }
            } else {
                Some((TokenView::ForwardSlash, pos))
            }
        } else if ch == '"' {
            let e = string_end(chars, pos);
            Some((TokenView::String(seq!['"'] + chars.subrange(pos, e)), e))
        } else if ch == '\'' {
            let e = quote_end(chars, pos);
            Some((TokenView::Special(seq!['\''] + chars.subrange(pos, e)), e))
        } else {
            None
        }
    }

    open spec fn ident_rule(&self, ch: char, chars: Seq<char>, pos: int) -> (TokenView, int) {
        let e = ident_run_end(chars, pos);
        let ident = seq![ch] + chars.subrange(pos, e);
        if e < chars.len() && chars[e] == '(' {
            (TokenView::FunctionCallDef(ident), e)
        } else if e < chars.len() && chars[e] == '!' {
            (TokenView::Special(ident.push('!')), e + 1)
        } else {
            (TokenView::Ident(ident), e)
        }
    }

}

impl Lexer for RustSyntax {
    fn handle_char(&self, ch: char, iter: &mut CharStream) -> (r: Option<Token>) {
        let ghost chars = iter.chars@;
        let ghost pos = iter.pos as int;
        proof {
            lemma_line_end(chars, pos);
        }
        match ch {
            '#' => {
                if next_is(iter, '!') || next_is(iter, '[') {
                    let mut s = String::new();
                    string_push(&mut s, '#');
                    take_rest_of_line(iter, &mut s);
                    return Some(Token::Attribute(s));
                }
                return Some(Token::Hash)
            },
            '/' => {
                if next_is(iter, '/') {
                    let mut s = String::new();
                    string_push(&mut s, '/');
                    let (_, c) = match iter.next() {
                        Some(x) => x,
                        None => {
                            return None;
                        },
                    };
                    string_push(&mut s, c);
                    let mut doc_comment = false;
                    if next_is(iter, '/') || next_is(iter, '!') {
                        doc_comment = true;
                    }
                    proof {
                        lemma_line_end(chars, pos + 1);
                        assert(line_end(chars, pos) == line_end(chars, pos + 1));
                    }
                    let ghost before = s@;
                    take_rest_of_line(iter, &mut s);
                    proof {
                        assert(s@ =~= seq!['/'] + chars.subrange(pos, line_end(chars, pos + 1)));
                    }
                    return Some(
                        if doc_comment {
                            Token::DocComment(s)
                        } else {
                            Token::SingleLineComment(s)
                        },
                    );
                }
                return Some(Token::ForwardSlash);
            },
            '"' => {
                proof {
                    lemma_string_end(chars, pos);
                }
                let s = read_quoted(iter, '"');
                return Some(Token::String(s));
            },
            '\'' => {
                proof {
                    lemma_quote_end(chars, pos);
                }
                let s = read_quoted(iter, '\'');
                return Some(Token::Special(s));
            },
            _ => None,
        }
    }

    fn handle_ident(&self, ch: char, iter: &mut CharStream) -> (r: Token) {
        let ghost chars = iter.chars@;
        let ghost pos = iter.pos as int;
        proof {
            lemma_ident_run_end(chars, pos);
        }
        let mut ident = String::new();
        string_push(&mut ident, ch);
        while self.is_ident(iter.peek())
            invariant
                iter.wf(),
                iter.chars@ == chars,
                0 <= pos <= iter.pos <= ident_run_end(chars, pos),
                ident_run_end(chars, iter.pos as int) == ident_run_end(chars, pos),
                ident@ == seq![ch] + chars.subrange(pos, iter.pos as int),
            decreases iter.chars@.len() - iter.pos,
        {
            let (_, c) = match iter.next() {
                Some(x) => x,
                None => {
                    return Token::Ident(ident);
                },
            };
            string_push(&mut ident, c);
            proof {
                lemma_push_next(seq![ch], chars, pos, iter.pos - 1);
                lemma_ident_run_end(chars, iter.pos as int);
            }
        }
        if next_is(iter, '(') {
            Token::FunctionCallDef(ident)
        } else if next_is(iter, '!') {
            let _ = iter.next();
            string_push(&mut ident, '!');
            Token::Special(ident)
        } else {
            Token::Ident(ident)
        }
    }
}

/// The chars that stand for themselves alone in Rust text: blanks, brackets
/// and the punctuation that the Rust lexer reads as one token each.
pub open spec fn rust_plain_char(c: char) -> bool {
    c == ' ' || c == '\n' || c == '{' || c == '}' || c == '(' || c == ')' || c == '[' || c == ']' || c
        == ',' || c == ';' || c == '.' || c == '=' || c == '!' || c == '>' || c == '<' || c == '-' || c
        == '$' || c == '&' || c == '*' || c == '@' || c == '_' || c == '|'
}

/// Lexing Rust text made only of chars that stand for themselves alone gives
/// one token per char, and mapping each token back to its char (what
/// `Token::as_char` gives) yields the text again.
pub proof fn law_rust_plain_chars_round_trip(l: RustSyntax, chars: Seq<char>)
    requires
        forall|i: int| 0 <= i < chars.len() ==> #[trigger] rust_plain_char(chars[i]),
    ensures
        lex(&l, chars, 0).len() == chars.len(),
        forall|j: int| 0 <= j < chars.len() ==> token_char(#[trigger] lex(&l, chars, 0)[j]) == Some(chars[j]),
{
    assert forall|i: int| 0 <= i < chars.len() implies #[trigger] single_char_token(chars[i]) is Some
        && l.char_rule(chars[i], chars, i + 1) is None by {
        assert(rust_plain_char(chars[i]));
    }
    assert(single_chars_from(&l, chars, 0));
    law_lex_single_chars_round_trip(&l, chars);
}

/// In Rust text a '#' directly followed by '[' or '!' starts an attribute:
/// the lexer reads it as one `Attribute` token holding the '#' and the rest of
/// its line (every char up to the next newline, or to the end of the text),
/// and goes on lexing after it.
pub proof fn law_rust_attribute_is_one_token(l: RustSyntax, chars: Seq<char>, i: int)
    requires
        0 <= i,
        i + 1 < chars.len(),
        chars[i] == '#',
        chars[i + 1] == '[' || chars[i + 1] == '!',
    ensures
        ({
            let (tok, e) = lex_step(&l, chars, i);
            &&& i + 1 < e <= chars.len()
            &&& tok == TokenView::Attribute(chars.subrange(i, e))
            &&& forall|x: int| i <= x < e ==> chars[x] != '\n'
            &&& e == chars.len() || chars[e] == '\n'
            &&& lex(&l, chars, i) == seq![tok] + lex(&l, chars, e)
        }),
{
    lemma_line_end(chars, i + 1);
    let e = line_end(chars, i + 1);
    assert(seq!['#'] + chars.subrange(i + 1, e) =~= chars.subrange(i, e));
    assert(lex_step(&l, chars, i) == (TokenView::Attribute(chars.subrange(i, e)), e));
}

} // verus!
