use lox_scanner::Scanner;
use lox_scanner::Token;
use lox_scanner::TokenType;
use lox_scanner::UnexpectedSymbolError;

fn scan_all(src: &str) -> Vec<Result<Token, UnexpectedSymbolError>> {
    let mut scanner = Scanner::new(src);
    let mut items: Vec<Result<Token, UnexpectedSymbolError>> = Vec::new();
    while let Some(item) = scanner.next() {
        items.push(item);
    }
    items
}

#[test]
fn trivia_only_yields_nothing() {
    assert_eq!(scan_all("   \t  ").len(), 0);
    assert_eq!(scan_all("// just a comment").len(), 0);
    assert_eq!(scan_all(" \t\n\r\n// comment\n\t ").len(), 0);
}

#[test]
fn line_bookkeeping_counts_every_break() {
    // Two lone breaks and one comment line: the token lands on line 3.
    let src = "\n\n// c\n123";
    let items = scan_all(src);
    assert_eq!(items.len(), 1);
    let t = items[0].as_ref().unwrap();
    assert_eq!(t.line_number, 3);
    assert_eq!(t.line_start_index, 7);
    assert_eq!(t.start_index_within_line, 0);
}

#[test]
fn paired_breaks_count_once() {
    // `\r\n` and `\n\r` each collapse into one break; a lone `\r` counts too.
    let src = "1\r\n2\n\r3\r4";
    let items = scan_all(src);
    assert_eq!(items.len(), 4);
    let lines: Vec<usize> = items.iter().map(|r| r.as_ref().unwrap().line_number).collect();
    assert_eq!(lines, vec![0, 1, 2, 3]);
}

#[test]
fn maximal_munch_bang_equal() {
    let items = scan_all("!=");
    assert_eq!(items.len(), 1);
    let t = items[0].as_ref().unwrap();
    assert_eq!(t.token_type, TokenType::BANG_EQUAL);
    assert_eq!(t.start_index_within_input, 0);
    assert_eq!(t.end_index_within_input, 2);
}

#[test]
fn fraction_needs_digits_on_both_sides() {
    // One number when digits flank the dot.
    let src = "123.456";
    let items = scan_all(src);
    assert_eq!(items.len(), 1);
    let t = items[0].as_ref().unwrap();
    assert_eq!(t.token_type, TokenType::NUMBER);
    assert_eq!(t.end_index_within_input, 7);
    assert_eq!(
        src[t.start_index_within_input..t.end_index_within_input].parse::<f64>().unwrap(),
        123.456
    );
}

#[test]
fn string_offsets_exclude_quotes() {
    let src = "\"hello\"";
    let items = scan_all(src);
    assert_eq!(items.len(), 1);
    let t = items[0].as_ref().unwrap();
    assert_eq!(t.token_type, TokenType::STRING);
    assert_eq!(t.start_index_within_input, 1);
    assert_eq!(t.end_index_within_input, 6);
    assert_eq!(t.start_index_within_line, 1);
    assert_eq!(t.end_index_within_line, 6);
    assert_eq!(&src[t.start_index_within_input..t.end_index_within_input], "hello");
}

#[test]
fn empty_string_token() {
    let src = "\"\"";
    let items = scan_all(src);
    assert_eq!(items.len(), 1);
    let t = items[0].as_ref().unwrap();
    assert_eq!(t.token_type, TokenType::STRING);
    assert_eq!(t.start_index_within_input, 1);
    assert_eq!(t.end_index_within_input, 1);
}

#[test]
fn unterminated_string_resumes_next_line() {
    let items = scan_all("\" \n;\"");
    assert_eq!(items.len(), 3);

    match &items[0] {
        Err(e) => {
            assert_eq!(e.line_number, 0);
            assert_eq!(e.error_index_within_input, 0);
            assert_eq!(e.error_index_within_line, 0);
            assert_eq!(e.line_start_index_within_input, 0);
        }
        Ok(_) => panic!("Expected an error for the unterminated string"),
    }

    let t = items[1].as_ref().unwrap();
    assert_eq!(t.token_type, TokenType::SEMICOLON);
    assert_eq!(t.line_number, 1);
    assert_eq!(t.line_start_index, 3);
    assert_eq!(t.start_index_within_line, 0);

    match &items[2] {
        Err(e) => {
            assert_eq!(e.line_number, 1);
            assert_eq!(e.error_index_within_input, 4);
            assert_eq!(e.error_index_within_line, 1);
        }
        Ok(_) => panic!("Expected an error for the trailing quote"),
    }
}

#[test]
fn keyword_only_as_complete_identifier() {
    // A reserved word that continues as an identifier is an identifier, and
    // matching is case-sensitive.
    let src = "andy And class_";
    let items = scan_all(src);
    assert_eq!(items.len(), 3);
    for item in &items {
        assert_eq!(item.as_ref().unwrap().token_type, TokenType::IDENTIFIER);
    }
}

#[test]
fn two_scans_are_identical() {
    let src = "var x = 1.5; // comment\n\"s\" @ <= !";
    let first = scan_all(src);
    let second = scan_all(src);
    assert_eq!(first.len(), second.len());
    for (a, b) in first.iter().zip(second.iter()) {
        assert_eq!(format!("{:?}", a), format!("{:?}", b));
    }
}

#[test]
fn error_message_names_line_and_column() {
    let items = scan_all("\n   @");
    assert_eq!(items.len(), 1);
    match &items[0] {
        Err(e) => {
            assert_eq!(e.message(), "Unexpected symbol at 1:3");
        }
        Ok(_) => panic!("Expected an error"),
    }
}

#[test]
fn multibyte_symbol_is_one_error() {
    // One well-formed multi-byte scalar yields exactly one error and the
    // scan resumes right after it.
    let src = "\u{44e}+";
    let items = scan_all(src);
    assert_eq!(items.len(), 2);
    match &items[0] {
        Err(e) => {
            assert_eq!(e.error_index_within_input, 0);
        }
        Ok(_) => panic!("Expected an error"),
    }
    let t = items[1].as_ref().unwrap();
    assert_eq!(t.token_type, TokenType::PLUS);
    assert_eq!(t.start_index_within_input, 2);
}

#[test]
fn punctuation_tokens() {
    let src = "(){},.-+;*/ < > = !";
    let items = scan_all(src);
    let expected = vec![
        TokenType::LEFT_PAREN,
        TokenType::RIGHT_PAREN,
        TokenType::LEFT_BRACE,
        TokenType::RIGHT_BRACE,
        TokenType::COMMA,
        TokenType::DOT,
        TokenType::MINUS,
        TokenType::PLUS,
        TokenType::SEMICOLON,
        TokenType::STAR,
        TokenType::SLASH,
        TokenType::LESS,
        TokenType::GREATER,
        TokenType::EQUAL,
        TokenType::BANG,
    ];
    assert_eq!(items.len(), expected.len());
    for (item, exp) in items.iter().zip(expected.iter()) {
        assert_eq!(item.as_ref().unwrap().token_type, *exp);
    }
}
