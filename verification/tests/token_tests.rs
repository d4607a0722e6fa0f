use mjava_lexer::error::{LexicalError, LexicalErrorKind};
use mjava_lexer::text::{push_decimal, push_text};
use mjava_lexer::token::{Token, TokenLocation, TokenType, TokenValue};

fn place() -> TokenLocation {
    TokenLocation::new("a.mjava".to_string(), 3, 7)
}

#[test]
fn location_is_written_with_colons() {
    assert_eq!(place().to_string(), "a.mjava:3:7:");
    assert_eq!(TokenLocation::new(String::new(), 0, 0).to_string(), ":0:0:");
    assert_eq!(TokenLocation::new("dir/b".to_string(), 120, 45).to_string(), "dir/b:120:45:");
    assert_eq!(
        TokenLocation::new("x".to_string(), i32::MAX, i32::MIN).to_string(),
        "x:2147483647:-2147483648:"
    );
    assert_eq!(TokenLocation::new("x".to_string(), -1, 10).to_string(), "x:-1:10:");
}

#[test]
fn location_gives_back_its_parts() {
    let location = place();
    assert_eq!(location.get_file_name(), "a.mjava");
    assert_eq!(location.get_line(), 3);
    assert_eq!(location.get_column(), 7);
    let copy = location.clone();
    assert_eq!(copy.to_string(), location.to_string());
    assert_eq!(TokenLocation::default().to_string(), ":0:0:");
}

#[test]
fn decimal_text_of_integers() {
    for n in [0, 1, 9, 10, 11, 99, 100, 101, 1000, 65535, i32::MAX, -1, -9, -10, -12345, i32::MIN] {
        let mut out = String::from("n=");
        push_decimal(&mut out, n);
        assert_eq!(out, format!("n={}", n));
    }
}

#[test]
fn text_is_appended_at_the_end() {
    let mut out = String::from("ab");
    push_text(&mut out, "cd");
    push_text(&mut out, "");
    assert_eq!(out, "abcd");
}

#[test]
fn default_token_is_an_unreserved_identifier() {
    for token in [Token::new(), Token::default()] {
        assert_eq!(token.get_token_type(), TokenType::IDENTIFIER);
        assert_eq!(token.get_token_value(), TokenValue::UNRESERVED);
        assert_eq!(token.get_token_name(), "");
        assert_eq!(token.get_symbol_precedence(), -1);
        assert_eq!(token.get_token_location().to_string(), ":0:0:");
        assert_eq!(token.get_int_value(), None);
        assert_eq!(token.get_char_value(), None);
        assert_eq!(token.get_str_value(), None);
        assert_eq!(token.to_string(), ":0:0: Token Type: identifier Token Name: ");
    }
}

#[test]
fn plain_token_keeps_what_it_was_made_of() {
    let token = Token::new_token(TokenType::OPERATOR, TokenValue::ADD, place(), "+".to_string(), 10);
    assert_eq!(token.get_token_type(), TokenType::OPERATOR);
    assert_eq!(token.get_token_value(), TokenValue::ADD);
    assert_eq!(token.get_token_name(), "+");
    assert_eq!(token.get_symbol_precedence(), 10);
    assert_eq!(token.get_token_location().to_string(), "a.mjava:3:7:");
    assert_eq!(token.get_int_value(), None);
    assert_eq!(token.get_char_value(), None);
    assert_eq!(token.get_str_value(), None);
    assert_eq!(token.to_string(), "a.mjava:3:7: Token Type: operator Token Name: +");
}

#[test]
fn literal_tokens_have_their_payload_and_no_other() {
    let int = Token::new_int_token(place(), "42".to_string(), 42);
    assert_eq!(int.get_token_type(), TokenType::INTEGER_LITERAL);
    assert_eq!(int.get_int_value(), Some(42));
    assert_eq!(int.get_char_value(), None);
    assert_eq!(int.get_str_value(), None);
    assert_eq!(int.get_token_value(), TokenValue::UNRESERVED);
    assert_eq!(int.get_symbol_precedence(), -1);
    assert_eq!(int.to_string(), "a.mjava:3:7: Token Type: integer Token Name: 42");

    let real = Token::new_real_token(place(), "4.5".to_string());
    assert_eq!(real.get_token_type(), TokenType::REAL_LITERAL);
    assert_eq!(real.get_token_name(), "4.5");
    assert_eq!(real.get_int_value(), None);
    assert_eq!(real.get_char_value(), None);
    assert_eq!(real.get_str_value(), None);
    assert_eq!(real.to_string(), "a.mjava:3:7: Token Type: real Token Name: 4.5");

    let ch = Token::new_char_token(place(), "c".to_string(), 'c');
    assert_eq!(ch.get_token_type(), TokenType::CHAR_LITERAL);
    assert_eq!(ch.get_char_value(), Some('c'));
    assert_eq!(ch.get_int_value(), None);
    assert_eq!(ch.get_str_value(), None);
    assert_eq!(ch.to_string(), "a.mjava:3:7: Token Type: char literal Token Name: c");

    let text = Token::new_str_token(place(), "hi".to_string(), "hi".to_string());
    assert_eq!(text.get_token_type(), TokenType::STRING_LITERAL);
    assert_eq!(text.get_str_value(), Some("hi".to_string()));
    assert_eq!(text.get_int_value(), None);
    assert_eq!(text.get_char_value(), None);
    assert_eq!(text.to_string(), "a.mjava:3:7: Token Type: string literal Token Name: hi");
}

#[test]
fn every_category_has_its_label() {
    let labels = [
        (TokenType::INTEGER_LITERAL, "integer"),
        (TokenType::BOOLEAN_LITERAL, "boolean"),
        (TokenType::REAL_LITERAL, "real"),
        (TokenType::CHAR_LITERAL, "char literal"),
        (TokenType::STRING_LITERAL, "string literal"),
        (TokenType::IDENTIFIER, "identifier"),
        (TokenType::KEYWORD, "keyword"),
        (TokenType::TYPE, "type"),
        (TokenType::OPERATOR, "operator"),
        (TokenType::DELIMITER, "delimiter"),
        (TokenType::END_OF_FILE, "eof"),
        (TokenType::UNKNOWN, "unknown"),
    ];
    for (category, label) in labels {
        let token = Token::new_token(category, TokenValue::UNRESERVED, place(), "t".to_string(), -1);
        assert_eq!(token.token_type_description(), label);
        assert_eq!(token.to_string(), format!("a.mjava:3:7: Token Type: {} Token Name: t", label));
    }
}

#[test]
fn token_clone_is_the_same_token() {
    let token = Token::new_str_token(place(), "hi".to_string(), "hi".to_string());
    let copy = token.clone();
    assert_eq!(copy.to_string(), token.to_string());
    assert_eq!(copy.get_str_value(), token.get_str_value());
    assert_eq!(copy.get_token_value(), token.get_token_value());
}

#[test]
fn every_kind_of_error_has_its_message() {
    let kinds = [
        (LexicalErrorKind::UnterminatedComment, "end of file in a comment, */ is expected"),
        (LexicalErrorKind::HexDigitsMissing, "hexadecimal number format error"),
        (LexicalErrorKind::FractionDigitsMissing, "the fraction of a number should be digits"),
        (LexicalErrorKind::ExponentMalformed, "after e / E a number should have + / - or digits"),
        (LexicalErrorKind::ExponentDigitsMissing, "the exponent of a number should be digits"),
        (LexicalErrorKind::SecondDot, "a number can not have more than one dot"),
        (LexicalErrorKind::DotAfterExponent, "the exponent of a number can not have a dot"),
        (LexicalErrorKind::DotAfterHex, "a hexadecimal number can only be an integer"),
        (LexicalErrorKind::DotAfterOctal, "an octal number can only be an integer"),
        (LexicalErrorKind::SecondExponent, "a number can not have more than one e / E"),
        (LexicalErrorKind::IntegerOutOfRange, "the integer literal is out of range"),
        (LexicalErrorKind::UnterminatedChar, "end of file in a char literal, ' is expected"),
        (LexicalErrorKind::CharLength, "a char literal can contain only one character"),
        (LexicalErrorKind::UnterminatedString, "end of file in a string literal, \" is expected"),
    ];
    for (kind, message) in kinds {
        let error = LexicalError::new(kind, place());
        assert_eq!(error.get_kind(), kind);
        assert_eq!(error.get_location().to_string(), "a.mjava:3:7:");
        assert_eq!(error.message(), message);
        assert_eq!(error.to_string(), format!("a.mjava:3:7: {}", message));
        assert_eq!(error.clone().to_string(), error.to_string());
    }
}
