//! A tokenizer that marks where each token of a text lies: its line and the
//! indices of its first and last chars.

use vstd::prelude::*;

use super::syntax::{
    lemma_line_end, lemma_push_next, line_end, next_is, take_rest_of_line, CharStream,
};
use super::utils::{
    char_utf8_len, is_alphabetic, lemma_utf8_size_bounds, string_push, unicode_alphabetic, utf8_len,
    utf8_size,
};

verus! {

/// A token of source text.
#[derive(Debug)]
pub enum Token {
    Ident(String),
    OpenBrace,
    CloseBrace,
    OpenParen,
    CloseParen,
    OpenSquare,
    CloseSquare,
    Newline,
    Whitespace,
    Underscore,
    Dash,
    SingleQuote,
    DoubleQuote,
    Comma,
    SemiColon,
    Colon,
    ForwardSlash,
    Pipe,
    Dot,
    Equal,
    Bang,
    Greater,
    Less,
    Hash,
    Dollar,
    Amp,
    Asterisk,
    SingleLineComment(String),
    Attribute(String),
    String(String),
}

/// A token with its text as a sequence of chars.
pub enum TokenView {
    Ident(Seq<char>),
    OpenBrace,
    CloseBrace,
    OpenParen,
    CloseParen,
    OpenSquare,
    CloseSquare,
    Newline,
    Whitespace,
    Underscore,
    Dash,
    SingleQuote,
    DoubleQuote,
    Comma,
    SemiColon,
    Colon,
    ForwardSlash,
    Pipe,
    Dot,
    Equal,
    Bang,
    Greater,
    Less,
    Hash,
    Dollar,
    Amp,
    Asterisk,
    SingleLineComment(Seq<char>),
    Attribute(Seq<char>),
    String(Seq<char>),
}

impl View for Token {
    type V = TokenView;

    open spec fn view(&self) -> TokenView {
        match self {
            Token::Ident(s) => TokenView::Ident(s@),
            Token::OpenBrace => TokenView::OpenBrace,
            Token::CloseBrace => TokenView::CloseBrace,
            Token::OpenParen => TokenView::OpenParen,
            Token::CloseParen => TokenView::CloseParen,
            Token::OpenSquare => TokenView::OpenSquare,
            Token::CloseSquare => TokenView::CloseSquare,
            Token::Newline => TokenView::Newline,
            Token::Whitespace => TokenView::Whitespace,
            Token::Underscore => TokenView::Underscore,
            Token::Dash => TokenView::Dash,
            Token::SingleQuote => TokenView::SingleQuote,
            Token::DoubleQuote => TokenView::DoubleQuote,
            Token::Comma => TokenView::Comma,
            Token::SemiColon => TokenView::SemiColon,
            Token::Colon => TokenView::Colon,
            Token::ForwardSlash => TokenView::ForwardSlash,
            Token::Pipe => TokenView::Pipe,
            Token::Dot => TokenView::Dot,
            Token::Equal => TokenView::Equal,
            Token::Bang => TokenView::Bang,
            Token::Greater => TokenView::Greater,
            Token::Less => TokenView::Less,
            Token::Hash => TokenView::Hash,
            Token::Dollar => TokenView::Dollar,
            Token::Amp => TokenView::Amp,
            Token::Asterisk => TokenView::Asterisk,
            Token::SingleLineComment(s) => TokenView::SingleLineComment(s@),
            Token::Attribute(s) => TokenView::Attribute(s@),
            Token::String(s) => TokenView::String(s@),
        }
    }
}

/// The char that a token stands for, if it stands for a single one.
pub open spec fn token_char(t: TokenView) -> Option<char> {
    match t {
        TokenView::OpenBrace => Some('{'),
        TokenView::CloseBrace => Some('}'),
        TokenView::OpenParen => Some('('),
        TokenView::CloseParen => Some(')'),
        TokenView::OpenSquare => Some('['),
        TokenView::CloseSquare => Some(']'),
        TokenView::Newline => Some('\n'),
        TokenView::Whitespace => Some(' '),
        TokenView::Underscore => Some('_'),
        TokenView::Dash => Some('-'),
        TokenView::SingleQuote => Some('\''),
        TokenView::DoubleQuote => Some('"'),
        TokenView::Comma => Some(','),
        TokenView::SemiColon => Some(';'),
        TokenView::Colon => Some(':'),
        TokenView::ForwardSlash => Some('/'),
        TokenView::Pipe => Some('|'),
        TokenView::Dot => Some('.'),
        TokenView::Equal => Some('='),
        TokenView::Bang => Some('!'),
        TokenView::Greater => Some('>'),
        TokenView::Less => Some('<'),
        TokenView::Hash => Some('#'),
        TokenView::Dollar => Some('$'),
        TokenView::Amp => Some('&'),
        TokenView::Asterisk => Some('*'),
        _ => None,
    }
}

impl Token {
    /// The char the token stands for, if it stands for a single one.
    pub fn as_char(&self) -> (r: Option<char>)
        ensures
            r == token_char(self@),
    {
        match *self {
            Token::OpenBrace => Some('{'),
            Token::CloseBrace => Some('}'),
            Token::OpenParen => Some('('),
            Token::CloseParen => Some(')'),
            Token::OpenSquare => Some('['),
            Token::CloseSquare => Some(']'),
            Token::Newline => Some('\n'),
            Token::Whitespace => Some(' '),
            Token::Underscore => Some('_'),
            Token::Dash => Some('-'),
            Token::SingleQuote => Some('\''),
            Token::DoubleQuote => Some('"'),
            Token::Comma => Some(','),
            Token::SemiColon => Some(';'),
            Token::Colon => Some(':'),
            Token::ForwardSlash => Some('/'),
            Token::Pipe => Some('|'),
            Token::Dot => Some('.'),
            Token::Equal => Some('='),
            Token::Bang => Some('!'),
            Token::Greater => Some('>'),
            Token::Less => Some('<'),
            Token::Hash => Some('#'),
            Token::Dollar => Some('$'),
            Token::Amp => Some('&'),
            Token::Asterisk => Some('*'),
            _ => None,
        }
    }
}

/// The tokens that a single punctuation or blank char makes by itself.
pub open spec fn single_char_token(c: char) -> Option<TokenView> {
    if c == ' ' {
        Some(TokenView::Whitespace)
    } else if c == '\n' {
        Some(TokenView::Newline)
    } else if c == '{' {
        Some(TokenView::OpenBrace)
    } else if c == '}' {
        Some(TokenView::CloseBrace)
    } else if c == '(' {
        Some(TokenView::OpenParen)
    } else if c == ')' {
        Some(TokenView::CloseParen)
    } else if c == '[' {
        Some(TokenView::OpenSquare)
    } else if c == ']' {
        Some(TokenView::CloseSquare)
    } else if c == '\'' {
        Some(TokenView::SingleQuote)
    } else if c == '"' {
        Some(TokenView::DoubleQuote)
    } else if c == ',' {
        Some(TokenView::Comma)
    } else if c == ';' {
        Some(TokenView::SemiColon)
    } else if c == ':' {
        Some(TokenView::Colon)
    } else if c == '/' {
        Some(TokenView::ForwardSlash)
    } else if c == '|' {
        Some(TokenView::Pipe)
    } else if c == '.' {
        Some(TokenView::Dot)
    } else if c == '=' {
        Some(TokenView::Equal)
    } else if c == '!' {
        Some(TokenView::Bang)
    } else if c == '>' {
        Some(TokenView::Greater)
    } else if c == '<' {
        Some(TokenView::Less)
    } else if c == '-' {
        Some(TokenView::Dash)
    } else if c == '#' {
        Some(TokenView::Hash)
    } else if c == '$' {
        Some(TokenView::Dollar)
    } else if c == '&' {
        Some(TokenView::Amp)
    } else if c == '*' {
        Some(TokenView::Asterisk)
    } else {
        None
    }
}

/// A single-char token stands for the char it is made from.
pub proof fn law_single_char_token_round_trip(c: char)
    requires
        single_char_token(c) is Some,
    ensures
        token_char(single_char_token(c)->0) == Some(c),
{
}

/// The token of a punctuation or blank char by itself.
fn single_char(c: char) -> (r: Option<Token>)
    ensures
        r matches Some(t) ==> single_char_token(c) == Some(t@),
        r is None ==> single_char_token(c) is None,
{
    match c {
        ' ' => Some(Token::Whitespace),
        '\n' => Some(Token::Newline),
        '{' => Some(Token::OpenBrace),
        '}' => Some(Token::CloseBrace),
        '(' => Some(Token::OpenParen),
        ')' => Some(Token::CloseParen),
        '[' => Some(Token::OpenSquare),
        ']' => Some(Token::CloseSquare),
        '\'' => Some(Token::SingleQuote),
        '"' => Some(Token::DoubleQuote),
        ',' => Some(Token::Comma),
        ';' => Some(Token::SemiColon),
        ':' => Some(Token::Colon),
        '/' => Some(Token::ForwardSlash),
        '|' => Some(Token::Pipe),
        '.' => Some(Token::Dot),
        '=' => Some(Token::Equal),
        '!' => Some(Token::Bang),
        '>' => Some(Token::Greater),
        '<' => Some(Token::Less),
        '-' => Some(Token::Dash),
        '#' => Some(Token::Hash),
        '$' => Some(Token::Dollar),
        '&' => Some(Token::Amp),
        '*' => Some(Token::Asterisk),
        _ => None,
    }
}

/// Where a token lies: its line, the indices of its first and last chars
/// (counted in chars, but for identifiers, whose end is counted in bytes of
/// their UTF-8 encoding), and the token.
#[derive(Debug)]
pub struct Span {
    pub start: usize,
    pub end: usize,
    pub token: Token,
    pub y_pos: usize,
}

/// A span with its token as a view.
pub struct SpanView {
    pub start: int,
    pub end: int,
    pub token: TokenView,
    pub y_pos: int,
}

impl View for Span {
    type V = SpanView;

    open spec fn view(&self) -> SpanView {
        SpanView {
            start: self.start as int,
            end: self.end as int,
            token: self.token@,
            y_pos: self.y_pos as int,
        }
    }
}

/// A span on line `y` of one char at index `idx`.
pub open spec fn one_char_span(y: int, idx: int, t: TokenView) -> SpanView {
    SpanView { start: idx, end: idx + 1, token: t, y_pos: y }
}

/// A char that may stand in an identifier after its first char.
pub open spec fn is_ident_char(c: char) -> bool {
    unicode_alphabetic(c) || c == '_'
}

/// The index where the run of identifier chars that starts at `pos` ends.
pub open spec fn ident_run_end(chars: Seq<char>, pos: int) -> int
    decreases chars.len() - pos,
{
    if pos < 0 || pos >= chars.len() {
        chars.len() as int
    } else if is_ident_char(chars[pos]) {
        ident_run_end(chars, pos + 1)
    } else {
        pos
    }
}

proof fn lemma_ident_run_end(chars: Seq<char>, pos: int)
    requires
        0 <= pos <= chars.len(),
    ensures
        pos <= ident_run_end(chars, pos) <= chars.len(),
    decreases chars.len() - pos,
{
    if pos < chars.len() && is_ident_char(chars[pos]) {
        lemma_ident_run_end(chars, pos + 1);
    }
}

/// The rules of a tokenizer: what its `handle_char` and `handle_ident` read.
pub trait TokenizerRules: Sized {
    /// The span that `handle_char` makes of `ch`, found at `idx` on line `y_pos`,
    /// the chars after it starting at `pos`, and where the stream stands after it;
    /// `None` where the language has no rule for `ch`.
    spec fn char_rule(&self, ch: char, chars: Seq<char>, pos: int, y_pos: int, idx: int) -> Option<
        (SpanView, int),
    >;

    /// The span that `handle_ident` makes of an identifier that starts with
    /// `ch` on line `y_pos`, the chars after it starting at `pos`, and where the
    /// stream stands after it.
    spec fn ident_rule(&self, ch: char, chars: Seq<char>, pos: int, y_pos: int) -> (SpanView, int);
}

/// A tokenizer for one language. `get_stream` splits a text into spans: at
/// each char the language's own rule (`handle_char`) comes first; where it has
/// none, the char is a single-char token or the start of an identifier
/// (`handle_ident`). A newline moves to the next line before its span is made.
pub trait Tokenizer: TokenizerRules {
    /// Reads an identifier whose first char `ch` was the last one taken from
    /// the stream; some char must follow it.
    fn handle_ident(&self, ch: char, iter: &mut CharStream, y_pos: usize) -> (r: Span)
        requires
            old(iter).wf(),
            1 <= old(iter).pos < old(iter).chars@.len(),
            4 * old(iter).chars@.len() < usize::MAX,
        ensures
            final(iter).wf(),
            final(iter).chars@ == old(iter).chars@,
            old(iter).pos <= final(iter).pos,
            (r@, final(iter).pos as int) == self.ident_rule(
                ch,
                old(iter).chars@,
                old(iter).pos as int,
                y_pos as int,
            ),
    ;

    /// Reads the span that the language makes of `ch`, found at `idx` on line
    /// `y_pos`, if it has a rule for it.
    fn handle_char(&self, ch: char, iter: &mut CharStream, y_pos: usize, idx: usize) -> (r: Option<
        Span,
    >)
        requires
            old(iter).wf(),
            idx < usize::MAX,
        ensures
            final(iter).wf(),
            final(iter).chars@ == old(iter).chars@,
            old(iter).pos <= final(iter).pos,
            match self.char_rule(ch, old(iter).chars@, old(iter).pos as int, y_pos as int, idx as int) {
                Some((t, p)) => r is Some && r->0@ == t && final(iter).pos == p,
                None => r is None && final(iter).pos == old(iter).pos,
            },
    ;

    /// Splits a text into spans. An identifier may not begin at the last
    /// char of the text.
    fn get_stream(&self, input: &str) -> (r: Vec<Span>)
        requires
            spans(self, input@, 0, 0) is Some,
            4 * input@.len() < usize::MAX,
        ensures
            span_views(r@) == spans(self, input@, 0, 0)->0,
    {
        let mut tokens: Vec<Span> = Vec::new();
        let mut y_pos: usize = 0;
        let mut chars = CharStream::new(input);
        let ghost text = input@;
        proof {
            lemma_span_views_empty();
        }
        while chars.pos < chars.chars.len()
            invariant
                chars.wf(),
                chars.chars@ == text,
                4 * text.len() < usize::MAX,
                y_pos <= chars.pos,
                spans(self, text, chars.pos as int, y_pos as int) is Some,
                span_views(tokens@) + spans(self, text, chars.pos as int, y_pos as int)->0 == spans(
                    self,
                    text,
                    0,
                    0,
                )->0,
            decreases text.len() - chars.pos,
        {
            let ghost pos = chars.pos as int;
            let ghost y = y_pos as int;
            let idx = chars.pos;
            let c = chars.chars[chars.pos];
            let _ = chars.next();
            let span = match self.handle_char(c, &mut chars, y_pos, idx) {
                Some(span) => span,
                None => {
                    match single_char(c) {
                        Some(t) => {
                            if c == '\n' {
                                y_pos = y_pos + 1;
                            }
                            Span { y_pos: y_pos, start: idx, end: idx + 1, token: t }
                        },
                        None => { self.handle_ident(c, &mut chars, y_pos) },
                    }
                },
            };
            proof {
                assert(span_step(self, text, pos, y) == (span@, chars.pos as int, y_pos as int));
                assert(spans(self, text, pos, y)->0 == seq![span@] + spans(
                    self,
                    text,
                    chars.pos as int,
                    y_pos as int,
                )->0);
            }
            let ghost before = tokens@;
            let ghost sp = span;
            tokens.push(span);
            proof {
                lemma_span_views_push(before, sp);
                assert(span_views(tokens@) + spans(self, text, chars.pos as int, y_pos as int)->0
                    =~= span_views(before) + spans(self, text, pos, y)->0);
            }
        }
        tokens
    }
}

/// The views of some spans.
#[verifier::opaque]
pub open spec fn span_views(ts: Seq<Span>) -> Seq<SpanView> {
    ts.map_values(|t: Span| t@)
}

proof fn lemma_span_views_push(ts: Seq<Span>, t: Span)
    ensures
        span_views(ts.push(t)) == span_views(ts).push(t@),
{
    reveal(span_views);
    assert(span_views(ts.push(t)) =~= span_views(ts).push(t@));
}

proof fn lemma_span_views_empty()
    ensures
        span_views(Seq::<Span>::empty()) == Seq::<SpanView>::empty(),
{
    reveal(span_views);
    assert(span_views(Seq::<Span>::empty()) =~= Seq::<SpanView>::empty());
}

/// The span the tokenizer reads at `pos` on line `y` (the char there is taken
/// first), where the stream stands after it, and the line it is on after it.
pub open spec fn span_step<L: TokenizerRules>(l: &L, chars: Seq<char>, pos: int, y: int) -> (
    SpanView,
    int,
    int,
) {
    let c = chars[pos];
    match l.char_rule(c, chars, pos + 1, y, pos) {
        Some((t, p)) => (t, p, y),
        None => if single_char_token(c) is Some {
            let y2 = if c == '\n' {
                y + 1
            } else {
                y
            };
            (one_char_span(y2, pos, single_char_token(c)->0), pos + 1, y2)
        } else {
            let (t, p) = l.ident_rule(c, chars, pos + 1, y);
            (t, p, y)
        },
    }
}

/// The spans the tokenizer reads from `pos` on line `y` to the end of the
/// text; `None` where an identifier would begin at the last char.
pub open spec fn spans<L: TokenizerRules>(l: &L, chars: Seq<char>, pos: int, y: int) -> Option<
    Seq<SpanView>,
>
    decreases chars.len() - pos,
{
    if 0 <= pos < chars.len() {
        let c = chars[pos];
        if l.char_rule(c, chars, pos + 1, y, pos) is None && single_char_token(c) is None && pos + 1
            >= chars.len() {
            None
        } else {
            let (t, next, y2) = span_step(l, chars, pos, y);
            if pos < next <= chars.len() {
                match spans(l, chars, next, y2) {
                    Some(rest) => Some(seq![t] + rest),
                    None => None,
                }
            } else {
                Some(seq![t])
            }
        }
    } else {
        Some(seq![])
    }
}

/// The syntax of a language for the tokenizer: its tokenizer, the file
/// extensions it is for, and its keywords.
pub struct SyntaxInstance<L> {
    pub lexer: L,
    pub file_extensions: Vec<String>,
    pub keywords: Vec<String>,
}

impl<L: Tokenizer> SyntaxInstance<L> {
    /// Splits a text into the language's spans.
    pub fn get_stream(&self, text: &str) -> (r: Vec<Span>)
        requires
            spans(&self.lexer, text@, 0, 0) is Some,
            4 * text@.len() < usize::MAX,
        ensures
            span_views(r@) == spans(&self.lexer, text@, 0, 0)->0,
    {
        self.lexer.get_stream(text)
    }
}

impl SyntaxInstance<RustSyntax> {
    /// The syntax of Rust: files ending in `rs`, and a keyword list that holds
    /// only the empty word.
    pub fn rust() -> (r: SyntaxInstance<RustSyntax>)
        ensures
            r.file_extensions@.len() == 1,
            r.file_extensions@[0]@ == "rs"@,
            r.keywords@.len() == 1,
            r.keywords@[0]@ == Seq::<char>::empty(),
    {
        let mut keywords: Vec<String> = Vec::new();
        keywords.push(String::new());
        let mut file_extensions: Vec<String> = Vec::new();
        file_extensions.push("rs".to_string());
        SyntaxInstance { lexer: RustSyntax, file_extensions: file_extensions, keywords: keywords }
    }
}

/// The tokenizer of Rust source.
pub struct RustSyntax;

impl RustSyntax {
    /// Whether a peeked char may go on an identifier.
    fn is_ident(&self, ch: Option<(usize, char)>) -> (r: bool)
        ensures
            r == (ch matches Some((_, c)) && is_ident_char(c)),
    {
        if let Some((_, c)) = ch {
            is_alphabetic(c) || c == '_'
        } else {
            false
        }
    }
}

/// Where a string literal ends whose opening quote came before `pos`: past
/// the next `"`, or at the end of the text.
pub open spec fn string_end(chars: Seq<char>, pos: int) -> int
    decreases chars.len() - pos,
{
    if pos < 0 || pos >= chars.len() {
        chars.len() as int
    } else if chars[pos] == '"' {
        pos + 1
    } else {
        string_end(chars, pos + 1)
    }
}

proof fn lemma_string_end(chars: Seq<char>, pos: int)
    requires
        0 <= pos <= chars.len(),
    ensures
        pos <= string_end(chars, pos) <= chars.len(),
    decreases chars.len() - pos,
{
    if pos < chars.len() && chars[pos] != '"' {
        lemma_string_end(chars, pos + 1);
    }
}

/// The index of the last char taken when the stream moved from `pos` to
/// `end`, or `idx` when it took none.
pub open spec fn last_taken(idx: int, pos: int, end: int) -> int {
    if end > pos {
        end - 1
    } else {
        idx
    }
}

impl TokenizerRules for RustSyntax {
    open spec fn char_rule(&self, ch: char, chars: Seq<char>, pos: int, y_pos: int, idx: int) -> Option<
        (SpanView, int),
    > {
        if ch == '#' {
            if pos < chars.len() && (chars[pos] == '!' || chars[pos] == '[') {
                let e = line_end(chars, pos);
                Some(
                    (
                        SpanView {
                            y_pos: y_pos,
                            start: idx,
                            end: last_taken(idx, pos, e),
                            token: TokenView::Attribute(chars.subrange(pos, e)),
                        },
                        e,
                    ),
                )
            } else {
                Some((one_char_span(y_pos, idx, TokenView::Hash), pos))
            }
        } else if ch == '/' {
            if pos < chars.len() && chars[pos] == '/' {
                let e = line_end(chars, pos);
                Some(
                    (
                        SpanView {
                            y_pos: y_pos,
                            start: idx,
                            end: last_taken(idx, pos, e),
                            token: TokenView::SingleLineComment(seq!['/'] + chars.subrange(pos, e)),
                        },
                        e,
                    ),
                )
            } else {
                Some(
                    (
                        SpanView {
                            y_pos: y_pos,
                            start: idx,
                            end: idx,
                            token: TokenView::ForwardSlash,
                        },
                        pos,
                    ),
                )
            }
        } else if ch == '"' {
            let e = string_end(chars, pos);
            Some(
                (
                    SpanView {
                        y_pos: y_pos,
                        start: idx,
                        end: last_taken(idx, pos, e),
                        token: TokenView::String(seq!['"'] + chars.subrange(pos, e)),
                    },
                    e,
                ),
            )
        } else {
            None
        }
    }

    open spec fn ident_rule(&self, ch: char, chars: Seq<char>, pos: int, y_pos: int) -> (SpanView, int) {
        let e = ident_run_end(chars, pos);
        let ident = seq![ch] + chars.subrange(pos, e);
        (
            SpanView {
                y_pos: y_pos,
                start: pos - 1,
                end: pos - 1 + utf8_size(ident) - 1,
                token: TokenView::Ident(ident),
            },
            e,
        )
    }
}

impl Tokenizer for RustSyntax {
    fn handle_char(&self, ch: char, iter: &mut CharStream, y_pos: usize, idx: usize) -> (r: Option<
        Span,
    >) {
        let ghost chars = iter.chars@;
        let ghost pos = iter.pos as int;
        let p0 = iter.pos;
        proof {
            lemma_line_end(chars, pos);
            lemma_string_end(chars, pos);
        }
        match ch {
            '#' => {
                let st = idx;
                if next_is(iter, '!') || next_is(iter, '[') {
                    let mut s = String::new();
                    take_rest_of_line(iter, &mut s);
                    let end = if iter.pos > p0 {
                        iter.pos - 1
                    } else {
                        idx
                    };
                    return Some(
                        Span { y_pos: y_pos, start: st, end: end, token: Token::Attribute(s) },
                    );
                }
                return Some(Span { y_pos: y_pos, start: idx, end: idx + 1, token: Token::Hash })
            },
            '/' => {
                let st = idx;
                let end = idx;
                if next_is(iter, '/') {
                    let mut s = String::new();
                    string_push(&mut s, '/');
                    take_rest_of_line(iter, &mut s);
                    let end = if iter.pos > p0 {
                        iter.pos - 1
                    } else {
                        idx
                    };
                    return Some(
                        Span {
                            y_pos: y_pos,
                            start: st,
                            end: end,
                            token: Token::SingleLineComment(s),
                        },
                    );
                }
                return Some(Span { y_pos: y_pos, start: st, end: end, token: Token::ForwardSlash });
            },
            '"' => {
                let st = idx;
                let mut s = String::new();
                string_push(&mut s, '"');
                let mut done = false;
                while !done && iter.pos < iter.chars.len()
                    invariant
                        iter.wf(),
                        iter.chars@ == chars,
                        0 <= pos <= iter.pos,
                        done ==> iter.pos == string_end(chars, pos),
                        !done ==> string_end(chars, iter.pos as int) == string_end(chars, pos),
                        s@ == seq!['"'] + chars.subrange(pos, iter.pos as int),
                    decreases iter.chars@.len() - iter.pos,
                {
                    let (_, c) = match iter.next() {
                        Some(x) => x,
                        None => {
                            return None;
                        },
                    };
                    string_push(&mut s, c);
                    proof {
                        lemma_push_next(seq!['"'], chars, pos, iter.pos - 1);
                    }
                    if c == '"' {
                        done = true;
                    }
                }
                let end = if iter.pos > p0 {
                    iter.pos - 1
                } else {
                    idx
                };
                return Some(Span { y_pos: y_pos, start: st, end: end, token: Token::String(s) });
            },
            _ => None,
        }
    }

    fn handle_ident(&self, ch: char, iter: &mut CharStream, y_pos: usize) -> (r: Span) {
        let ghost chars = iter.chars@;
        let ghost pos = iter.pos as int;
        proof {
            lemma_ident_run_end(chars, pos);
        }
        let mut ident = String::new();
        string_push(&mut ident, ch);
        let mut bytes: usize = char_utf8_len(ch);
        let start = match iter.peek() {
            Some((i, _)) => i - 1,
            None => 0,
        };
        proof {
            assert(seq![ch].drop_last() =~= Seq::<char>::empty());
            assert(utf8_size(Seq::<char>::empty()) == 0);
            assert(utf8_size(seq![ch]) == utf8_len(ch));
            assert(ident@ =~= seq![ch] + chars.subrange(pos, pos));
        }
        while self.is_ident(iter.peek())
            invariant
                iter.wf(),
                iter.chars@ == chars,
                4 * chars.len() < usize::MAX,
                1 <= pos <= iter.pos <= ident_run_end(chars, pos),
                start == pos - 1,
                ident@.len() == 1 + iter.pos - pos,
                ident_run_end(chars, iter.pos as int) == ident_run_end(chars, pos),
                ident@ == seq![ch] + chars.subrange(pos, iter.pos as int),
                bytes == utf8_size(ident@),
            decreases iter.chars@.len() - iter.pos,
        {
            let (_, c) = match iter.next() {
                Some(x) => x,
                None => {
                    return Span { y_pos: y_pos, start: start, end: start, token: Token::Ident(ident) };
                },
            };
            let ghost before = ident@;
            string_push(&mut ident, c);
            proof {
                lemma_push_next(seq![ch], chars, pos, iter.pos - 1);
                lemma_ident_run_end(chars, iter.pos as int);
                assert(ident@.drop_last() =~= before);
                lemma_utf8_size_bounds(before);
                assert(before.len() <= chars.len());
            }
            bytes = bytes + char_utf8_len(c);
        }
        proof {
            lemma_utf8_size_bounds(ident@);
        }
        Span { y_pos: y_pos, start: start, end: start + bytes - 1, token: Token::Ident(ident) }
    }
}

} // verus!
