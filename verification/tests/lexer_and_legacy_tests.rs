use rdit::buffer::{Buffer as LineBuffer, Line};
use rdit::cursor::{Cursor, Direction};
use rdit::iota::lexer::{SyntaxInstance as SpanSyntax, Token as SpanToken};
use rdit::iota::syntax::lexer::{SyntaxInstance, Token};
use rdit::keyboard::Key as TermKey;
use rdit::rdit::keyboard::Key as RditKey;
use rdit::rdit::{Buffer as RditBuffer, Direction as RditDirection};
use rdit::view::View;

#[test]
fn rust_lexer_splits_a_function_header() {
    let rust = SyntaxInstance::rust();
    let toks = rust.get_stream("fn main() {}");
    assert_eq!(toks.len(), 8);
    assert!(matches!(&toks[0], Token::Ident(s) if s == "fn"));
    assert!(matches!(toks[1], Token::Whitespace));
    assert!(matches!(&toks[2], Token::FunctionCallDef(s) if s == "main"));
    assert!(matches!(toks[3], Token::OpenParen));
    assert!(matches!(toks[4], Token::CloseParen));
    assert!(matches!(toks[5], Token::Whitespace));
    assert!(matches!(toks[6], Token::OpenBrace));
    assert!(matches!(toks[7], Token::CloseBrace));
    assert!(rust.is_keyword("fn"));
    assert!(!rust.is_keyword("main"));
    assert!(rust.is_type("usize"));
}

#[test]
fn rust_lexer_comments_paths_macros_numbers() {
    let rust = SyntaxInstance::rust();
    let toks = rust.get_stream("// hi\na::b x1 println!(");
    assert!(matches!(&toks[0], Token::SingleLineComment(s) if s == "// hi"));
    assert!(matches!(toks[1], Token::Newline));
    assert!(matches!(&toks[2], Token::Ident(s) if s == "a"));
    assert!(matches!(toks[3], Token::DoubleColon));
    assert!(matches!(&toks[4], Token::Ident(s) if s == "b"));
    assert!(matches!(toks[5], Token::Whitespace));
    assert!(matches!(&toks[6], Token::Ident(s) if s == "x"));
    assert!(matches!(toks[7], Token::Number('1')));
    assert!(matches!(toks[8], Token::Whitespace));
    assert!(matches!(&toks[9], Token::Special(s) if s == "println!"));
    assert!(matches!(toks[10], Token::OpenParen));
    assert_eq!(toks.len(), 11);
}

#[test]
fn rust_lexer_doc_comments_and_strings() {
    let rust = SyntaxInstance::rust();
    let toks = rust.get_stream("/// d\n\"a b\"");
    assert!(matches!(&toks[0], Token::DocComment(s) if s == "/// d"));
    assert!(matches!(toks[1], Token::Newline));
    assert!(matches!(&toks[2], Token::String(s) if s == "\"a b\""));
    assert_eq!(toks.len(), 3);
}

#[test]
fn python_lexer() {
    let py = SyntaxInstance::python();
    let toks = py.get_stream("def f(x): # c\n'q'");
    assert!(matches!(&toks[0], Token::Ident(s) if s == "def"));
    assert!(matches!(toks[1], Token::Whitespace));
    assert!(matches!(&toks[2], Token::FunctionCallDef(s) if s == "f"));
    assert!(matches!(toks[3], Token::OpenParen));
    assert!(matches!(&toks[4], Token::Ident(s) if s == "x"));
    assert!(matches!(toks[5], Token::CloseParen));
    assert!(matches!(toks[6], Token::Colon));
    assert!(matches!(toks[7], Token::Whitespace));
    assert!(matches!(&toks[8], Token::SingleLineComment(s) if s == "# c"));
    assert!(matches!(toks[9], Token::Newline));
    assert!(matches!(&toks[10], Token::String(s) if s == "'q'"));
    assert_eq!(toks.len(), 11);
    assert!(py.is_keyword("def"));
    assert!(py.is_type("dict"));
    assert!(!py.is_type("fn"));
}

#[test]
fn single_char_tokens_give_their_char_back() {
    assert_eq!(Token::Comma.as_char(), Some(','));
    assert_eq!(Token::At.as_char(), Some('@'));
    assert_eq!(Token::Ident("x".to_string()).as_char(), None);
}

#[test]
fn span_tokenizer_places_spans() {
    let rust = SpanSyntax::rust();
    let spans = rust.get_stream("fn x;");
    assert_eq!(spans.len(), 4);
    assert!(matches!(&spans[0].token, SpanToken::Ident(s) if s == "fn"));
    assert_eq!((spans[0].start, spans[0].end, spans[0].y_pos), (0, 1, 0));
    assert!(matches!(spans[1].token, SpanToken::Whitespace));
    assert_eq!((spans[1].start, spans[1].end), (2, 3));
    assert!(matches!(&spans[2].token, SpanToken::Ident(s) if s == "x"));
    assert_eq!((spans[2].start, spans[2].end), (3, 3));
    assert!(matches!(spans[3].token, SpanToken::SemiColon));
    assert_eq!((spans[3].start, spans[3].end), (4, 5));
    assert_eq!(rust.file_extensions, vec!["rs".to_string()]);
}

#[test]
fn span_tokenizer_counts_lines() {
    let rust = SpanSyntax::rust();
    let spans = rust.get_stream("{\n}");
    assert_eq!(spans.len(), 3);
    assert_eq!(spans[0].y_pos, 0);
    assert_eq!(spans[2].y_pos, 1);
    assert!(matches!(spans[2].token, SpanToken::CloseBrace));
}

fn lines(v: &[&str]) -> Vec<Vec<char>> {
    v.iter().map(|s| s.chars().collect()).collect()
}

#[test]
fn line_buffer_from_file_drops_line_ends() {
    let b = LineBuffer::new_from_file("notes.txt", lines(&["ab\n", "c\n", ""]));
    assert_eq!(b.lines.len(), 3);
    assert_eq!(b.lines[0].data, vec!['a', 'b']);
    assert_eq!(b.lines[1].data, vec!['c']);
    assert_eq!(b.lines[2].data, Vec::<char>::new());
    assert_eq!(b.get_status_text(), "notes.txt, lines: 3");
}

#[test]
fn line_buffer_split_then_join_restores() {
    let mut b = LineBuffer::new_from_file("f", lines(&["hello\n", "x\n"]));
    assert_eq!(b.insert_line(2, 0), (0, 1));
    assert_eq!(b.lines.len(), 3);
    assert_eq!(b.lines[0].data, vec!['h', 'e']);
    assert_eq!(b.lines[1].data, vec!['l', 'l', 'o']);
    assert_eq!(b.join_line_with_previous(0, 1), (2, 0));
    assert_eq!(b.lines.len(), 2);
    assert_eq!(b.lines[0].data, vec!['h', 'e', 'l', 'l', 'o']);
    assert_eq!(b.lines[1].data, vec!['x']);
}

#[test]
fn legacy_cursor_moves_and_edits() {
    let mut c = Cursor::new();
    c.set_line(Some(Line::new(vec!['a', 'b'])));
    c.move_right();
    c.move_right();
    c.move_right();
    assert_eq!(c.get_offset(), 2);
    c.insert_char('c');
    assert_eq!(c.get_line().data, vec!['a', 'b', 'c']);
    c.delete_backward_char();
    assert_eq!(c.get_line().data, vec!['a', 'b']);
    c.move_left();
    c.delete_forward_char();
    assert_eq!(c.get_line().data, vec!['a']);
    assert_eq!(c.get_status_text(), "(1, 0)");
    assert!(Direction::Right.is_right());
    assert!(Direction::Left.is_left());
}

#[test]
fn legacy_view_edits_and_moves() {
    let b = LineBuffer::new_from_file("f", lines(&["ab\n", "c\n"]));
    let mut v = View::new(b);
    v.insert_char('x');
    assert_eq!(v.buffer.lines[0].data, vec!['x', 'a', 'b']);
    v.move_cursor(Direction::Down, 24);
    assert_eq!(v.draw_cursor(), (1, 1));
    v.insert_line(24);
    assert_eq!(v.buffer.lines.len(), 3);
    assert_eq!(v.buffer.lines[1].data, vec!['c']);
    assert_eq!(v.buffer.lines[2].data, Vec::<char>::new());
    v.delete_char(Direction::Left);
    assert_eq!(v.buffer.lines.len(), 2);
    assert_eq!(v.buffer.lines[1].data, vec!['c']);
    let rows = v.draw(24);
    assert_eq!(rows.len(), 2);
    assert_eq!(rows[0], (0, vec!['x', 'a', 'b']));
    assert_eq!(v.get_internal_height(24), 22);
}

#[test]
fn key_codes_round_trip() {
    assert_eq!(TermKey::from_u64(TermKey::Enter.code()), Some(TermKey::Enter));
    assert_eq!(TermKey::from_u64(1073741905), Some(TermKey::Down));
    assert_eq!(TermKey::from_i64(-1), None);
    assert_eq!(RditKey::from_u16(65517), Some(RditKey::Up));
    assert_eq!(RditKey::from_u64(RditKey::CtrlS.code()), Some(RditKey::CtrlS));
    assert_eq!(RditKey::from_u64(5), None);
}

#[test]
fn rdit_buffer_moves_up_whatever_the_direction() {
    let mut b = RditBuffer::new_from_file(vec!["one".to_string(), "two".to_string()]);
    assert_eq!(b.lines.len(), 2);
    assert_eq!(b.lines[1].data, "two");
    b.move_cursor(RditDirection::Down);
    assert_eq!(b.cursor_y, -1);
    b.move_cursor(RditDirection::Right);
    assert_eq!((b.cursor_x, b.cursor_y), (0, -2));
}

#[test]
fn legacy_line_length_counts_utf8_bytes() {
    assert_eq!(Line::new(vec!['é']).len(), 2);
    assert_eq!(Line::new(vec!['a', '€']).len(), 4);
    let mut c = Cursor::new();
    c.set_offset(9);
    c.set_line(Some(Line::new(vec!['é', 'x'])));
    assert_eq!(c.get_offset(), 3);
    assert_eq!(c.get_line_length(), 3);
    c.move_left();
    c.delete_forward_char();
    assert_eq!(c.get_line().data, vec!['é']);
    c.insert_char('y');
    assert_eq!(c.get_line().data, vec!['é', 'y']);
    assert_eq!(c.get_offset(), 3);
}

#[test]
fn legacy_split_and_join_at_a_byte_offset() {
    let mut b = LineBuffer::new_from_file("f", lines(&["héllo\n"]));
    assert_eq!(b.insert_line(3, 0), (0, 1));
    assert_eq!(b.lines[0].data, vec!['h', 'é']);
    assert_eq!(b.lines[1].data, vec!['l', 'l', 'o']);
    assert_eq!(b.join_line_with_previous(0, 1), (3, 0));
    assert_eq!(b.lines[0].data, vec!['h', 'é', 'l', 'l', 'o']);
}

#[test]
fn single_char_text_lexes_back_to_itself() {
    let rust = SyntaxInstance::rust();
    let text = "{}();,.=!<>[]";
    let toks = rust.get_stream(text);
    assert_eq!(toks.len(), text.chars().count());
    let back: String = toks.iter().map(|t| t.as_char().unwrap()).collect();
    assert_eq!(back, text);
}
