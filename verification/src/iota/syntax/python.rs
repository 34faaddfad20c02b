//! The lexer of Python source.

use vstd::prelude::*;

use super::lexer::{ident_run_end, lemma_ident_run_end, Lexer, LexerRules, Token, TokenView};
use super::super::utils::string_push;
use super::{lemma_line_end, lemma_push_next, line_end, next_is, take_rest_of_line, CharStream};

verus! {

/// Where a quoted string ends whose opening `quote` came before `pos`: past
/// the next `quote`, or at the end of the text.
pub open spec fn closing_quote_end(chars: Seq<char>, pos: int, quote: char) -> int
    decreases chars.len() - pos,
{
    if pos < 0 || pos >= chars.len() {
        chars.len() as int
    } else if chars[pos] == quote {
        pos + 1
    } else {
        closing_quote_end(chars, pos + 1, quote)
    }
}

proof fn lemma_closing_quote_end(chars: Seq<char>, pos: int, quote: char)
    requires
        0 <= pos <= chars.len(),
    ensures
        pos <= closing_quote_end(chars, pos, quote) <= chars.len(),
    decreases chars.len() - pos,
{
    if pos < chars.len() && chars[pos] != quote {
        lemma_closing_quote_end(chars, pos + 1, quote);
    }
}

/// The lexer of Python source.
pub struct PythonSyntax;

impl LexerRules for PythonSyntax {
    open spec fn char_rule(&self, ch: char, chars: Seq<char>, pos: int) -> Option<(TokenView, int)> {
        if ch == '#' {
            Some(
                (
                    TokenView::SingleLineComment(seq!['#'] + chars.subrange(pos, line_end(chars, pos))),
                    line_end(chars, pos),
                ),
            )
        } else if ch == '@' {
            Some(
                (
                    TokenView::Attribute(seq!['@'] + chars.subrange(pos, line_end(chars, pos))),
                    line_end(chars, pos),
                ),
            )
        } else if ch == '"' || ch == '\'' {
            let e = closing_quote_end(chars, pos, ch);
            Some((TokenView::String(seq![ch] + chars.subrange(pos, e)), e))
        } else {
            None
        }
    }

    open spec fn ident_rule(&self, ch: char, chars: Seq<char>, pos: int) -> (TokenView, int) {
        let e = ident_run_end(chars, pos);
        let ident = seq![ch] + chars.subrange(pos, e);
        if e < chars.len() && chars[e] == '(' {
            (TokenView::FunctionCallDef(ident), e)
        } else {
            (TokenView::Ident(ident), e)
        }
    }

}

impl Lexer for PythonSyntax {
    fn handle_char(&self, ch: char, iter: &mut CharStream) -> (r: Option<Token>) {
        let ghost chars = iter.chars@;
        let ghost pos = iter.pos as int;
        proof {
            lemma_line_end(chars, pos);
            lemma_closing_quote_end(chars, pos, ch);
        }
        if ch == '#' {
            let mut s = String::new();
            string_push(&mut s, '#');
            take_rest_of_line(iter, &mut s);
            Some(Token::SingleLineComment(s))
        } else if ch == '@' {
            let mut s = String::new();
            string_push(&mut s, '@');
            take_rest_of_line(iter, &mut s);
            Some(Token::Attribute(s))
        } else if ch == '"' || ch == '\'' {
            let mut s = String::new();
            string_push(&mut s, ch);
            let mut done = false;
            while !done && iter.pos < iter.chars.len()
                invariant
                    iter.wf(),
                    iter.chars@ == chars,
                    0 <= pos <= iter.pos,
                    done ==> iter.pos == closing_quote_end(chars, pos, ch),
                    !done ==> closing_quote_end(chars, iter.pos as int, ch) == closing_quote_end(
                        chars,
                        pos,
                        ch,
                    ),
                    s@ == seq![ch] + chars.subrange(pos, iter.pos as int),
                decreases iter.chars@.len() - iter.pos,
            {
                let (_, c) = match iter.next() {
                    Some(x) => x,
                    None => {
                        return None;
                    },
                };
                string_push(&mut s, c);
                proof {
                    lemma_push_next(seq![ch], chars, pos, iter.pos - 1);
                }
                if c == ch {
                    done = true;
                }
            }
            Some(Token::String(s))
        } else {
            None
        }
    }

    fn handle_ident(&self, ch: char, iter: &mut CharStream) -> (r: Token) {
        let ghost chars = iter.chars@;
        let ghost pos = iter.pos as int;
        proof {
            lemma_ident_run_end(chars, pos);
        }
        let mut ident = String::new();
        string_push(&mut ident, ch);
        while self.is_ident(iter.peek())
            invariant
                iter.wf(),
                iter.chars@ == chars,
                0 <= pos <= iter.pos <= ident_run_end(chars, pos),
                ident_run_end(chars, iter.pos as int) == ident_run_end(chars, pos),
                ident@ == seq![ch] + chars.subrange(pos, iter.pos as int),
            decreases iter.chars@.len() - iter.pos,
        {
            let (_, c) = match iter.next() {
                Some(x) => x,
                None => {
                    return Token::Ident(ident);
                },
            };
            string_push(&mut ident, c);
            proof {
                lemma_push_next(seq![ch], chars, pos, iter.pos - 1);
                lemma_ident_run_end(chars, iter.pos as int);
            }
        }
        if next_is(iter, '(') {
            Token::FunctionCallDef(ident)
        } else {
            Token::Ident(ident)
        }
    }
}

} // verus!
