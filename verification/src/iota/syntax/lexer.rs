//! Tokens, the lexer interface that each language implements, and the
//! syntax description of a language.

use vstd::prelude::*;

use super::langs::{PythonSyntax, RustSyntax};
use super::{next_is, CharStream};
use super::super::utils::{is_alphabetic, is_numeric, unicode_alphabetic, unicode_numeric};

verus! {

/// A token of source text.
#[derive(Debug)]
pub enum Token {
    Ident(String),
    OpenBrace,
    CloseBrace,
    OpenParen,
    CloseParen,
    OpenSquare,
    CloseSquare,
    Newline,
    Whitespace,
    Underscore,
    Dash,
    SingleQuote,
    DoubleQuote,
    Comma,
    SemiColon,
    Colon,
    ForwardSlash,
    Pipe,
    Dot,
    Equal,
    Bang,
    Greater,
    Less,
    Hash,
    Dollar,
    Amp,
    Asterisk,
    At,
    DoubleColon,
    Number(char),
    SingleLineComment(String),
    DocComment(String),
    Attribute(String),
    String(String),
    Special(String),
    FunctionCallDef(String),
}

/// A token with its text as a sequence of chars.
pub enum TokenView {
    Ident(Seq<char>),
    OpenBrace,
    CloseBrace,
    OpenParen,
    CloseParen,
    OpenSquare,
    CloseSquare,
    Newline,
    Whitespace,
    Underscore,
    Dash,
    SingleQuote,
    DoubleQuote,
    Comma,
    SemiColon,
    Colon,
    ForwardSlash,
    Pipe,
    Dot,
    Equal,
    Bang,
    Greater,
    Less,
    Hash,
    Dollar,
    Amp,
    Asterisk,
    At,
    DoubleColon,
    Number(char),
    SingleLineComment(Seq<char>),
    DocComment(Seq<char>),
    Attribute(Seq<char>),
    String(Seq<char>),
    Special(Seq<char>),
    FunctionCallDef(Seq<char>),
}

impl View for Token {
    type V = TokenView;

    open spec fn view(&self) -> TokenView {
        match self {
            Token::Ident(s) => TokenView::Ident(s@),
            Token::OpenBrace => TokenView::OpenBrace,
            Token::CloseBrace => TokenView::CloseBrace,
            Token::OpenParen => TokenView::OpenParen,
            Token::CloseParen => TokenView::CloseParen,
            Token::OpenSquare => TokenView::OpenSquare,
            Token::CloseSquare => TokenView::CloseSquare,
            Token::Newline => TokenView::Newline,
            Token::Whitespace => TokenView::Whitespace,
            Token::Underscore => TokenView::Underscore,
            Token::Dash => TokenView::Dash,
            Token::SingleQuote => TokenView::SingleQuote,
            Token::DoubleQuote => TokenView::DoubleQuote,
            Token::Comma => TokenView::Comma,
            Token::SemiColon => TokenView::SemiColon,
            Token::Colon => TokenView::Colon,
            Token::ForwardSlash => TokenView::ForwardSlash,
            Token::Pipe => TokenView::Pipe,
            Token::Dot => TokenView::Dot,
            Token::Equal => TokenView::Equal,
            Token::Bang => TokenView::Bang,
            Token::Greater => TokenView::Greater,
            Token::Less => TokenView::Less,
            Token::Hash => TokenView::Hash,
            Token::Dollar => TokenView::Dollar,
            Token::Amp => TokenView::Amp,
            Token::Asterisk => TokenView::Asterisk,
            Token::At => TokenView::At,
            Token::DoubleColon => TokenView::DoubleColon,
            Token::Number(c) => TokenView::Number(*c),
            Token::SingleLineComment(s) => TokenView::SingleLineComment(s@),
            Token::DocComment(s) => TokenView::DocComment(s@),
            Token::Attribute(s) => TokenView::Attribute(s@),
            Token::String(s) => TokenView::String(s@),
            Token::Special(s) => TokenView::Special(s@),
            Token::FunctionCallDef(s) => TokenView::FunctionCallDef(s@),
        }
    }
}

/// The punctuation and blank tokens that stand for a single char: the token
/// and its char.
pub open spec fn single_char_token(c: char) -> Option<TokenView> {
    if c == ' ' {
        Some(TokenView::Whitespace)
    } else if c == '\n' {
        Some(TokenView::Newline)
    } else if c == '{' {
        Some(TokenView::OpenBrace)
    } else if c == '}' {
        Some(TokenView::CloseBrace)
    } else if c == '(' {
        Some(TokenView::OpenParen)
    } else if c == ')' {
        Some(TokenView::CloseParen)
    } else if c == '[' {
        Some(TokenView::OpenSquare)
    } else if c == ']' {
        Some(TokenView::CloseSquare)
    } else if c == '\'' {
        Some(TokenView::SingleQuote)
    } else if c == '"' {
        Some(TokenView::DoubleQuote)
    } else if c == ',' {
        Some(TokenView::Comma)
    } else if c == ';' {
        Some(TokenView::SemiColon)
    } else if c == '/' {
        Some(TokenView::ForwardSlash)
    } else if c == '|' {
        Some(TokenView::Pipe)
    } else if c == '.' {
        Some(TokenView::Dot)
    } else if c == '=' {
        Some(TokenView::Equal)
    } else if c == '!' {
        Some(TokenView::Bang)
    } else if c == '>' {
        Some(TokenView::Greater)
    } else if c == '<' {
        Some(TokenView::Less)
    } else if c == '-' {
        Some(TokenView::Dash)
    } else if c == '#' {
        Some(TokenView::Hash)
    } else if c == '$' {
        Some(TokenView::Dollar)
    } else if c == '&' {
        Some(TokenView::Amp)
    } else if c == '*' {
        Some(TokenView::Asterisk)
    } else if c == '@' {
        Some(TokenView::At)
    } else if c == '_' {
        Some(TokenView::Underscore)
    } else {
        None
    }
}

/// The char that a token stands for, if it stands for a single one.
pub open spec fn token_char(t: TokenView) -> Option<char> {
    match t {
        TokenView::OpenBrace => Some('{'),
        TokenView::CloseBrace => Some('}'),
        TokenView::OpenParen => Some('('),
        TokenView::CloseParen => Some(')'),
        TokenView::OpenSquare => Some('['),
        TokenView::CloseSquare => Some(']'),
        TokenView::Newline => Some('\n'),
        TokenView::Whitespace => Some(' '),
        TokenView::Underscore => Some('_'),
        TokenView::Dash => Some('-'),
        TokenView::SingleQuote => Some('\''),
        TokenView::DoubleQuote => Some('"'),
        TokenView::Comma => Some(','),
        TokenView::SemiColon => Some(';'),
        TokenView::Colon => Some(':'),
        TokenView::ForwardSlash => Some('/'),
        TokenView::Pipe => Some('|'),
        TokenView::Dot => Some('.'),
        TokenView::Equal => Some('='),
        TokenView::Bang => Some('!'),
        TokenView::Greater => Some('>'),
        TokenView::Less => Some('<'),
        TokenView::Hash => Some('#'),
        TokenView::Dollar => Some('$'),
        TokenView::Amp => Some('&'),
        TokenView::Asterisk => Some('*'),
        TokenView::At => Some('@'),
        _ => None,
    }
}

/// A single-char token stands for the char it is made from.
pub proof fn law_single_char_token_round_trip(c: char)
    requires
        single_char_token(c) is Some,
    ensures
        token_char(single_char_token(c)->0) == Some(c),
{
}

impl Token {
    /// The char the token stands for, if it stands for a single one.
    pub fn as_char(&self) -> (r: Option<char>)
        ensures
            r == token_char(self@),
    {
        match *self {
            Token::OpenBrace => Some('{'),
            Token::CloseBrace => Some('}'),
            Token::OpenParen => Some('('),
            Token::CloseParen => Some(')'),
            Token::OpenSquare => Some('['),
            Token::CloseSquare => Some(']'),
            Token::Newline => Some('\n'),
            Token::Whitespace => Some(' '),
            Token::Underscore => Some('_'),
            Token::Dash => Some('-'),
            Token::SingleQuote => Some('\''),
            Token::DoubleQuote => Some('"'),
            Token::Comma => Some(','),
            Token::SemiColon => Some(';'),
            Token::Colon => Some(':'),
            Token::ForwardSlash => Some('/'),
            Token::Pipe => Some('|'),
            Token::Dot => Some('.'),
            Token::Equal => Some('='),
            Token::Bang => Some('!'),
            Token::Greater => Some('>'),
            Token::Less => Some('<'),
            Token::Hash => Some('#'),
            Token::Dollar => Some('$'),
            Token::Amp => Some('&'),
            Token::Asterisk => Some('*'),
            Token::At => Some('@'),
            _ => None,
        }
    }
}

/// The token of a char that stands for itself alone.
fn single_char(c: char) -> (r: Option<Token>)
    ensures
        r matches Some(t) ==> single_char_token(c) == Some(t@),
        r is None ==> single_char_token(c) is None,
{
    match c {
        ' ' => Some(Token::Whitespace),
        '\n' => Some(Token::Newline),
        '{' => Some(Token::OpenBrace),
        '}' => Some(Token::CloseBrace),
        '(' => Some(Token::OpenParen),
        ')' => Some(Token::CloseParen),
        '[' => Some(Token::OpenSquare),
        ']' => Some(Token::CloseSquare),
        '\'' => Some(Token::SingleQuote),
        '"' => Some(Token::DoubleQuote),
        ',' => Some(Token::Comma),
        ';' => Some(Token::SemiColon),
        '/' => Some(Token::ForwardSlash),
        '|' => Some(Token::Pipe),
        '.' => Some(Token::Dot),
        '=' => Some(Token::Equal),
        '!' => Some(Token::Bang),
        '>' => Some(Token::Greater),
        '<' => Some(Token::Less),
        '-' => Some(Token::Dash),
        '#' => Some(Token::Hash),
        '$' => Some(Token::Dollar),
        '&' => Some(Token::Amp),
        '*' => Some(Token::Asterisk),
        '@' => Some(Token::At),
        '_' => Some(Token::Underscore),
        _ => None,
    }
}

/// A char that may stand in an identifier after its first char.
pub open spec fn is_ident_char(c: char) -> bool {
    unicode_alphabetic(c) || c == '_'
}

/// The index where the run of identifier chars that starts at `pos` ends.
pub open spec fn ident_run_end(chars: Seq<char>, pos: int) -> int
    decreases chars.len() - pos,
{
    if pos < 0 || pos >= chars.len() {
        chars.len() as int
    } else if is_ident_char(chars[pos]) {
        ident_run_end(chars, pos + 1)
    } else {
        pos
    }
}

/// The run of identifier chars lies within the text and holds only identifier chars.
pub proof fn lemma_ident_run_end(chars: Seq<char>, pos: int)
    requires
        0 <= pos <= chars.len(),
    ensures
        pos <= ident_run_end(chars, pos) <= chars.len(),
        forall|i: int| pos <= i < ident_run_end(chars, pos) ==> is_ident_char(chars[i]),
        ident_run_end(chars, pos) < chars.len() ==> !is_ident_char(chars[ident_run_end(chars, pos)]),
    decreases chars.len() - pos,
{
    if pos < chars.len() && is_ident_char(chars[pos]) {
        lemma_ident_run_end(chars, pos + 1);
    }
}

/// The views of some tokens.
#[verifier::opaque]
pub open spec fn token_views(ts: Seq<Token>) -> Seq<TokenView> {
    ts.map_values(|t: Token| t@)
}

proof fn lemma_token_views_push(ts: Seq<Token>, t: Token)
    ensures
        token_views(ts.push(t)) == token_views(ts).push(t@),
{
    reveal(token_views);
    assert(token_views(ts.push(t)) =~= token_views(ts).push(t@));
}

proof fn lemma_token_views_empty()
    ensures
        token_views(Seq::<Token>::empty()) == Seq::<TokenView>::empty(),
{
    reveal(token_views);
    assert(token_views(Seq::<Token>::empty()) =~= Seq::<TokenView>::empty());
}

/// What a lexer reads: the rules that its `handle_char` and `handle_ident` follow.
pub trait LexerRules: Sized {
    /// The token that `handle_char` makes of `ch` when the chars after it
    /// start at `pos`, and where the stream stands after it; `None` where the
    /// language has no rule for `ch`.
    spec fn char_rule(&self, ch: char, chars: Seq<char>, pos: int) -> Option<(TokenView, int)>;

    /// The token that `handle_ident` makes of an identifier that starts with
    /// `ch`, the chars after it starting at `pos`, and where the stream stands after it.
    spec fn ident_rule(&self, ch: char, chars: Seq<char>, pos: int) -> (TokenView, int);
}

/// A lexer for one language. `get_stream` splits a text into tokens: at each
/// char the language's own rule (`handle_char`) comes first; where it has
/// none, the char is a single-char token, a `:` or `::`, a digit, or the start
/// of an identifier (`handle_ident`).
pub trait Lexer: LexerRules {
    /// Reads an identifier that starts with `ch`.
    fn handle_ident(&self, ch: char, iter: &mut CharStream) -> (r: Token)
        requires
            old(iter).wf(),
        ensures
            final(iter).wf(),
            final(iter).chars@ == old(iter).chars@,
            old(iter).pos <= final(iter).pos,
            (r@, final(iter).pos as int) == self.ident_rule(ch, old(iter).chars@, old(iter).pos as int),
    ;

    /// Reads the token that the language makes of `ch`, if it has a rule for it.
    fn handle_char(&self, ch: char, iter: &mut CharStream) -> (r: Option<Token>)
        requires
            old(iter).wf(),
        ensures
            final(iter).wf(),
            final(iter).chars@ == old(iter).chars@,
            old(iter).pos <= final(iter).pos,
            match self.char_rule(ch, old(iter).chars@, old(iter).pos as int) {
                Some((t, p)) => r is Some && r->0@ == t && final(iter).pos == p,
                None => r is None && final(iter).pos == old(iter).pos,
            },
    ;

    /// Whether a peeked char may go on an identifier.
    fn is_ident(&self, ch: Option<(usize, char)>) -> (r: bool)
        ensures
            r == (ch matches Some((_, c)) && is_ident_char(c)),
    {
        if let Some((_, c)) = ch {
            is_alphabetic(c) || c == '_'
        } else {
            false
        }
    }

    /// Splits a text into tokens.
    fn get_stream(&self, input: &str) -> (r: Vec<Token>)
        ensures
            token_views(r@) == lex(self, input@, 0),
    {
        let mut tokens: Vec<Token> = Vec::new();
        let mut chars = CharStream::new(input);
        let ghost text = input@;
        proof {
            lemma_token_views_empty();
        }
        while chars.pos < chars.chars.len()
            invariant
                chars.wf(),
                chars.chars@ == text,
                token_views(tokens@) + lex(self, text, chars.pos as int) == lex(self, text, 0),
            decreases text.len() - chars.pos,
        {
            let ghost pos = chars.pos as int;
            let c = chars.chars[chars.pos];
            let _ = chars.next();
            let tok = match self.handle_char(c, &mut chars) {
                Some(span) => span,
                None => {
                    match single_char(c) {
                        Some(t) => t,
                        None => {
                            if c == ':' {
                                if next_is(&chars, ':') {
                                    let _ = chars.next();
                                    Token::DoubleColon
                                } else {
                                    Token::Colon
                                }
                            } else if is_numeric(c) {
                                Token::Number(c)
                            } else {
                                self.handle_ident(c, &mut chars)
                            }
                        },
                    }
                },
            };
            proof {
                assert(lex_step(self, text, pos) == (tok@, chars.pos as int));
                assert(lex(self, text, pos) == seq![tok@] + lex(self, text, chars.pos as int));
            }
            let ghost before = tokens@;
            let ghost t = tok;
            tokens.push(tok);
            proof {
                lemma_token_views_push(before, t);
                assert(token_views(tokens@) + lex(self, text, chars.pos as int) =~= token_views(before)
                    + lex(self, text, pos));
            }
        }
        tokens
    }
}

/// The token that the lexer reads at `pos` (the char there is taken first),
/// and where the stream stands after it.
pub open spec fn lex_step<L: LexerRules>(l: &L, chars: Seq<char>, pos: int) -> (TokenView, int) {
    let c = chars[pos];
    match l.char_rule(c, chars, pos + 1) {
        Some((t, p)) => (t, p),
        None => if single_char_token(c) is Some {
            (single_char_token(c)->0, pos + 1)
        } else if c == ':' {
            if pos + 1 < chars.len() && chars[pos + 1] == ':' {
                (TokenView::DoubleColon, pos + 2)
            } else {
                (TokenView::Colon, pos + 1)
            }
        } else if unicode_numeric(c) {
            (TokenView::Number(c), pos + 1)
        } else {
            l.ident_rule(c, chars, pos + 1)
        },
    }
}

/// The tokens the lexer reads from `pos` to the end of the text.
pub open spec fn lex<L: LexerRules>(l: &L, chars: Seq<char>, pos: int) -> Seq<TokenView>
    decreases chars.len() - pos,
{
    if 0 <= pos < chars.len() {
        let (t, next) = lex_step(l, chars, pos);
        if pos < next <= chars.len() {
            seq![t] + lex(l, chars, next)
        } else {
            seq![t]
        }
    } else {
        seq![]
    }
}

/// The text at the end of a text gives no token.
pub proof fn law_lex_end<L: LexerRules>(l: &L, chars: Seq<char>)
    ensures
        lex(l, chars, chars.len() as int) == Seq::<TokenView>::empty(),
{
}

/// Every char from `pos` on stands for itself alone, and the language has no
/// rule of its own for it.
pub open spec fn single_chars_from<L: LexerRules>(l: &L, chars: Seq<char>, pos: int) -> bool {
    forall|i: int|
        pos <= i < chars.len() ==> #[trigger] single_char_token(chars[i]) is Some && l.char_rule(
            chars[i],
            chars,
            i + 1,
        ) is None
}

proof fn lemma_lex_single_chars<L: LexerRules>(l: &L, chars: Seq<char>, pos: int)
    requires
        0 <= pos <= chars.len(),
        single_chars_from(l, chars, pos),
    ensures
        lex(l, chars, pos).len() == chars.len() - pos,
        forall|j: int|
            0 <= j < chars.len() - pos ==> token_char(#[trigger] lex(l, chars, pos)[j]) == Some(
                chars[pos + j],
            ),
    decreases chars.len() - pos,
{
    if pos < chars.len() {
        lemma_lex_single_chars(l, chars, pos + 1);
        let c = chars[pos];
        assert(single_char_token(c) is Some);
        law_single_char_token_round_trip(c);
        let rest = lex(l, chars, pos + 1);
        assert(lex_step(l, chars, pos) == (single_char_token(c)->0, pos + 1));
        assert(lex(l, chars, pos) == seq![single_char_token(c)->0] + rest);
        assert forall|j: int| 0 <= j < chars.len() - pos implies token_char(
            #[trigger] lex(l, chars, pos)[j],
        ) == Some(chars[pos + j]) by {
            if j > 0 {
                assert(lex(l, chars, pos)[j] == rest[j - 1]);
            }
        }
    }
}

/// A text made only of chars that stand for themselves alone, none of which
/// the language reads in its own way, lexes to one token per char, and
/// mapping each token back to its char gives the text again.
pub proof fn law_lex_single_chars_round_trip<L: LexerRules>(l: &L, chars: Seq<char>)
    requires
        single_chars_from(l, chars, 0),
    ensures
        lex(l, chars, 0).len() == chars.len(),
        forall|j: int| 0 <= j < chars.len() ==> token_char(#[trigger] lex(l, chars, 0)[j]) == Some(chars[j]),
{
    lemma_lex_single_chars(l, chars, 0);
}

/// The syntax of a language: its lexer, keywords and type names.
pub struct SyntaxInstance<L> {
    pub lexer: L,
    pub keywords: Vec<String>,
    pub types: Vec<String>,
}

/// Whether `s` is one of `words`.
pub open spec fn is_one_of(words: Seq<String>, s: Seq<char>) -> bool {
    exists|i: int| 0 <= i < words.len() && #[trigger] words[i]@ == s
}

/// Whether `s` is one of `words`.
fn contains_word(words: &Vec<String>, s: &str) -> (r: bool)
    ensures
        r == is_one_of(words@, s@),
{
    let key = s.to_string();
    let mut i: usize = 0;
    while i < words.len()
        invariant
            i <= words@.len(),
            key@ == s@,
            forall|j: int| 0 <= j < i ==> words@[j]@ != s@,
        decreases words@.len() - i,
    {
        if words[i] == key {
            return true;
        }
        i = i + 1;
    }
    false
}

impl<L: Lexer> SyntaxInstance<L> {
    /// Whether `s` is a keyword of the language.
    pub fn is_keyword(&self, s: &str) -> (r: bool)
        ensures
            r == is_one_of(self.keywords@, s@),
    {
        contains_word(&self.keywords, s)
    }

    /// Whether `s` is a type name of the language.
    pub fn is_type(&self, s: &str) -> (r: bool)
        ensures
            r == is_one_of(self.types@, s@),
    {
        contains_word(&self.types, s)
    }

    /// Splits a text into the language's tokens.
    pub fn get_stream(&self, text: &str) -> (r: Vec<Token>)
        ensures
            token_views(r@) == lex(&self.lexer, text@, 0),
    {
        self.lexer.get_stream(text)
    }
}

/// The chars of each of some strings.
#[verifier::opaque]
pub open spec fn word_views(words: Seq<String>) -> Seq<Seq<char>> {
    words.map_values(|w: String| w@)
}

proof fn lemma_word_views_push(ws: Seq<String>, w: String)
    ensures
        word_views(ws.push(w)) == word_views(ws).push(w@),
{
    reveal(word_views);
    assert(word_views(ws.push(w)) =~= word_views(ws).push(w@));
}

/// The keywords of Rust.
pub open spec fn rust_keywords() -> Seq<Seq<char>> {
    seq![
        "fn"@, "let"@, "struct"@, "pub"@, "use"@, "impl"@, "while"@, "for"@, "match"@, "return"@,
        "if"@, "else"@, "break"@, "mod"@, "extern"@, "crate"@,
    ]
}

/// The type names of Rust.
pub open spec fn rust_types() -> Seq<Seq<char>> {
    seq!["usize"@, "u32"@, "i32"@, "String"@, "mut"@, "Buffer"@, "Option"@, "str"@, "char"@]
}

/// The keywords of Python.
pub open spec fn python_keywords() -> Seq<Seq<char>> {
    seq![
        "def"@, "for"@, "while"@, "if"@, "class"@, "import"@, "return"@, "from"@, "not"@, "in"@,
        "and"@, "else"@, "try"@, "except"@,
    ]
}

/// The type names of Python.
pub open spec fn python_types() -> Seq<Seq<char>> {
    seq!["int"@, "dict"@, "list"@, "typle"@, "type"@, "Exception"@]
}

impl SyntaxInstance<RustSyntax> {
    /// The syntax of Rust.
    pub fn rust() -> (r: SyntaxInstance<RustSyntax>)
        ensures
            word_views(r.keywords@) == rust_keywords(),
            word_views(r.types@) == rust_types(),
    {
        let keywords = words_of(
            &[
                "fn", "let", "struct", "pub", "use", "impl", "while", "for", "match", "return",
                "if", "else", "break", "mod", "extern", "crate",
            ],
        );
        let types = words_of(
            &["usize", "u32", "i32", "String", "mut", "Buffer", "Option", "str", "char"],
        );
        SyntaxInstance { lexer: RustSyntax, keywords: keywords, types: types }
    }
}

impl SyntaxInstance<PythonSyntax> {
    /// The syntax of Python.
    pub fn python() -> (r: SyntaxInstance<PythonSyntax>)
        ensures
            word_views(r.keywords@) == python_keywords(),
            word_views(r.types@) == python_types(),
    {
        let keywords = words_of(
            &[
                "def", "for", "while", "if", "class", "import", "return", "from", "not", "in",
                "and", "else", "try", "except",
            ],
        );
        let types = words_of(&["int", "dict", "list", "typle", "type", "Exception"]);
        SyntaxInstance { lexer: PythonSyntax, keywords: keywords, types: types }
    }
}

/// A list of words made from string literals.
pub(crate) fn words_of(lits: &[&str]) -> (r: Vec<String>)
    ensures
        word_views(r@) == lits@.map_values(|l: &str| l@),
{
    let mut r: Vec<String> = Vec::new();
    let mut i: usize = 0;
    proof {
        reveal(word_views);
        assert(word_views(r@) =~= lits@.take(0).map_values(|l: &str| l@));
    }
    while i < lits.len()
        invariant
            i <= lits@.len(),
            word_views(r@) == lits@.take(i as int).map_values(|l: &str| l@),
        decreases lits@.len() - i,
    {
        let w = lits[i].to_string();
        let ghost before = r@;
        let ghost wv = w;
        r.push(w);
        proof {
            lemma_word_views_push(before, wv);
            assert(lits@.take(i + 1).map_values(|l: &str| l@) =~= lits@.take(i as int).map_values(
                |l: &str| l@,
            ).push(lits@[i as int]@));
        }
        i = i + 1;
    }
    proof {
        assert(lits@.take(lits@.len() as int) =~= lits@);
    }
    r
}

} // verus!
