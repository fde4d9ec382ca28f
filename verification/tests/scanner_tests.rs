use lox_scanner::Scanner;
use lox_scanner::Token;
use lox_scanner::TokenType;
use lox_scanner::UnexpectedSymbolError;
use lox_scanner::TokenType::{AND, CLASS, ELSE, FALSE, TRUE, FUN, FOR, IF, NIL, OR, PRINT, RETURN, SUPER, THIS, VAR, WHILE, BANG_EQUAL, BANG, EQUAL_EQUAL, EQUAL, GREATER_EQUAL, GREATER, LESS_EQUAL, LESS};

fn scan_all(src: &str) -> Vec<Result<Token, UnexpectedSymbolError>> {
    let mut scanner = Scanner::new(src);
    let mut items: Vec<Result<Token, UnexpectedSymbolError>> = Vec::new();
    while let Some(item) = scanner.next() {
        items.push(item);
    }
    items
}

fn scan_tokens(src: &str) -> Vec<Token> {
    scan_all(src).into_iter().map(|r| r.unwrap()).collect()
}

fn assert_token_number(src: &str, token: &Token, expected_value: f64) {
    match token.token_type {
        TokenType::NUMBER => {
            let lexeme = &src[token.start_index_within_input..token.end_index_within_input];
            assert_eq!(lexeme.parse::<f64>().unwrap(), expected_value);
        }
        _ => panic!("Expected NUMBER token, got {:?}", token.token_type),
    }
}

fn assert_token_ident(src: &str, token: &Token, expected: &str) {
    match token.token_type {
        TokenType::IDENTIFIER => {
            let lexeme = &src[token.start_index_within_input..token.end_index_within_input];
            assert_eq!(lexeme, expected);
        }
        _ => panic!("Expected IDENTIFIER token, got {:?}", token.token_type),
    }
}

#[test]
fn scan_tokens_empty_source() {
    let tokens = scan_all("");
    assert_eq!(tokens.len(), 0);
}

#[test]
fn token_has_correct_line_information() {
    let src = "123\n\r345\n678";
    let tokens = scan_tokens(src);
    assert_eq!(tokens.len(), 3);

    assert_token_number(src, &tokens[0], 123.0);
    assert_eq!(tokens[0].line_number, 0);
    assert_eq!(tokens[0].line_start_index, 0);
    assert_eq!(tokens[0].start_index_within_input, 0);
    assert_eq!(tokens[0].end_index_within_input, 3);
    assert_eq!(tokens[0].start_index_within_line, 0);
    assert_eq!(tokens[0].end_index_within_line, 3);

    assert_token_number(src, &tokens[1], 345.0);
    assert_eq!(tokens[1].line_number, 1);
    assert_eq!(tokens[1].line_start_index, 5);
    assert_eq!(tokens[1].start_index_within_input, 5);
    assert_eq!(tokens[1].end_index_within_input, 8);
    assert_eq!(tokens[1].start_index_within_line, 0);
    assert_eq!(tokens[1].end_index_within_line, 3);

    assert_token_number(src, &tokens[2], 678.0);
    assert_eq!(tokens[2].line_number, 2);
    assert_eq!(tokens[2].line_start_index, 9);
    assert_eq!(tokens[2].start_index_within_input, 9);
    assert_eq!(tokens[2].end_index_within_input, 12);
    assert_eq!(tokens[2].start_index_within_line, 0);
    assert_eq!(tokens[2].end_index_within_line, 3);
}

#[test]
fn parses_numbers_correctly() {
    let src = "123.345 345 678.0 99999999999999999999999999999.99999999999999999999999999999999999999999999999";
    let tokens = scan_tokens(src);
    assert_eq!(tokens.len(), 4);

    assert_token_number(src, &tokens[0], 123.345);
    assert_token_number(src, &tokens[1], 345.0);
    assert_token_number(src, &tokens[2], 678.0);
    assert_token_number(src, &tokens[3], 1e29);
}

#[test]
fn correctly_report_unexpected_symbol_error() {
    let input = String::from("\" \n;\"");
    let tokens = scan_all(&input);
    assert_eq!(tokens.len(), 3);

    match &tokens[0] {
        Ok(_) => panic!("Expected an error, but got Ok"),
        Err(_err) => {}
    }
}

#[test]
fn identifiers_and_keywords_are_distinguished() {
    let src = "and class else false true fun for if nil or print return super this var while foo _bar bar123";
    let toks = scan_tokens(src);

    assert_eq!(toks.len(), 19);

    let expect = [
        AND, CLASS, ELSE, FALSE, TRUE, FUN, FOR, IF, NIL, OR, PRINT, RETURN, SUPER, THIS, VAR,
        WHILE,
    ];

    for (i, kw) in expect.iter().enumerate() {
        assert_eq!(toks[i].token_type, *kw);
    }

    assert_token_ident(src, &toks[16], "foo");
    assert_token_ident(src, &toks[17], "_bar");
    assert_token_ident(src, &toks[18], "bar123");
}

#[test]
fn comments_are_skipped() {
    let src = "123 // this is a comment\n 456";
    let toks = scan_tokens(src);
    assert_eq!(toks.len(), 2);

    assert_token_number(src, &toks[0], 123.0);
    assert_token_number(src, &toks[1], 456.0);

    assert_eq!(toks[1].line_number, 1);
}

#[test]
fn operator_disambiguation_prefers_longer_tokens() {
    let src = "!= ! == = >= > <= <";
    let toks = scan_tokens(src);
    let expected = [
        BANG_EQUAL,
        BANG,
        EQUAL_EQUAL,
        EQUAL,
        GREATER_EQUAL,
        GREATER,
        LESS_EQUAL,
        LESS,
    ];

    assert_eq!(toks.len(), expected.len());
    for (tok, exp) in toks.iter().zip(expected.iter()) {
        assert_eq!(tok.token_type, *exp);
    }
}

#[test]
fn slash_as_token_and_comment() {
    let src = "/ // comment here\n/ ";
    let toks = scan_tokens(src);
    assert_eq!(toks.len(), 2);

    assert_eq!(toks[0].token_type, TokenType::SLASH);
    assert_eq!(toks[1].token_type, TokenType::SLASH);

    assert_eq!(toks[1].line_number, 1);
}

#[test]
fn dot_vs_numbers_edge_cases() {
    let src = "123. .123 123.";
    let toks = scan_tokens(src);
    assert_eq!(toks.len(), 6);

    assert_token_number(src, &toks[0], 123.0);
    assert_eq!(toks[1].token_type, TokenType::DOT);

    assert_eq!(toks[2].token_type, TokenType::DOT);
    assert_token_number(src, &toks[3], 123.0);

    assert_token_number(src, &toks[4], 123.0);
    assert_eq!(toks[5].token_type, TokenType::DOT);
}

#[test]
fn unterminated_string_reports_error() {
    let tokens = scan_all("\"abc");
    assert_eq!(tokens.len(), 2);

    match &tokens[0] {
        Ok(_) => panic!("Expected an error for unterminated string"),
        Err(_err) => {}
    }
}

#[test]
fn unexpected_symbol_reports_error() {
    let tokens = scan_all("@");
    assert_eq!(tokens.len(), 1);

    match &tokens[0] {
        Ok(_) => panic!("Expected an error, but got Ok"),
        Err(e) => {
            assert_eq!(e.line_number, 0);
            assert_eq!(e.error_index_within_line, 0);
            assert_eq!(e.error_index_within_input, 0);
            assert_eq!(e.line_start_index_within_input, 0);
        }
    }
}

#[test]
fn utf8_inside_strings() {
    let src = "\"h\u{e9}ll\u{f6} \u{1f60a}\"";
    let toks = scan_tokens(src);
    assert_eq!(toks.len(), 1);

    match toks[0].token_type {
        TokenType::STRING => {
            let payload = &src[toks[0].start_index_within_input..toks[0].end_index_within_input];
            assert_eq!(payload, "h\u{e9}ll\u{f6} \u{1f60a}");
        }
        _ => panic!("Expected STRING token, got {:?}", toks[0].token_type),
    }

    assert_eq!(toks[0].start_index_within_input, 1);
    assert_eq!(toks[0].end_index_within_input, src.len() - 1);
}

#[test]
fn continue_parsing_after_utf8_symbol() {
    let src = "\u{44e}123";
    let toks = scan_all(src);
    assert_eq!(toks.len(), 2);

    assert_token_number(src, toks[1].as_ref().unwrap(), 123.0);
}

#[test]
fn example_test() {
    // Valid Lox source code
    let lox_src = r#"
            // variables and math
            var x = 42;
            var y = 3.14;
            print "hello, world";
            if (x >= y) {
                x = x + 1;
            } else {
                y = y - 1;
            }"#;

    // Each call of next returns the next token or error record.
    let mut scanner = Scanner::new(lox_src);
    while let Some(token) = scanner.next() {
        println!("{:?}", token);

        // If the item is Err, then a lexical error happened.
        if token.is_err() {
            // In case of an error, we can continue scanning.
            // In this example we just break the loop.
            break;
        }
    }
}
