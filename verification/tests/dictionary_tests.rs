use mjava_lexer::dictionary::Dictionary;
use mjava_lexer::token::{TokenType, TokenValue};

fn reserved() -> Vec<(&'static str, TokenValue, TokenType, i32)> {
    vec![
        ("=", TokenValue::ASSIGN, TokenType::OPERATOR, 0),
        ("<", TokenValue::LT, TokenType::OPERATOR, 2),
        ("+", TokenValue::ADD, TokenType::OPERATOR, 10),
        ("-", TokenValue::SUB, TokenType::OPERATOR, 10),
        ("*", TokenValue::MULTI, TokenType::OPERATOR, 20),
        ("&&", TokenValue::AND, TokenType::OPERATOR, 20),
        ("!", TokenValue::NOT, TokenType::OPERATOR, 40),
        (".", TokenValue::DOT, TokenType::OPERATOR, 60),
        ("(", TokenValue::LPAREN, TokenType::DELIMITER, -1),
        (")", TokenValue::RPAREN, TokenType::DELIMITER, -1),
        ("[", TokenValue::LBRACK, TokenType::DELIMITER, -1),
        ("]", TokenValue::RBRACK, TokenType::DELIMITER, -1),
        ("{", TokenValue::LBRACE, TokenType::DELIMITER, -1),
        ("}", TokenValue::RBRACE, TokenType::DELIMITER, -1),
        (",", TokenValue::COMMA, TokenType::DELIMITER, -1),
        (";", TokenValue::SEMICOLON, TokenType::DELIMITER, -1),
        ("class", TokenValue::CLASS, TokenType::KEYWORD, -1),
        ("public", TokenValue::PUBLIC, TokenType::KEYWORD, -1),
        ("static", TokenValue::STATIC, TokenType::KEYWORD, -1),
        ("void", TokenValue::VOID, TokenType::KEYWORD, -1),
        ("main", TokenValue::MAIN, TokenType::KEYWORD, -1),
        ("extends", TokenValue::EXTENDS, TokenType::KEYWORD, -1),
        ("return", TokenValue::RETURN, TokenType::KEYWORD, -1),
        ("if", TokenValue::IF, TokenType::KEYWORD, -1),
        ("else", TokenValue::ELSE, TokenType::KEYWORD, -1),
        ("while", TokenValue::WHILE, TokenType::KEYWORD, -1),
        ("for", TokenValue::FOR, TokenType::KEYWORD, -1),
        ("System.out.println", TokenValue::PRINT, TokenType::KEYWORD, -1),
        ("length", TokenValue::LENGTH, TokenType::KEYWORD, -1),
        ("this", TokenValue::THIS, TokenType::KEYWORD, -1),
        ("new", TokenValue::NEW, TokenType::KEYWORD, -1),
        ("true", TokenValue::TRUE, TokenType::BOOLEAN_LITERAL, -1),
        ("false", TokenValue::FALSE, TokenType::BOOLEAN_LITERAL, -1),
        ("int", TokenValue::INT, TokenType::TYPE, -1),
        ("char", TokenValue::CHAR, TokenType::TYPE, -1),
        ("String", TokenValue::STRING, TokenType::TYPE, -1),
        ("boolean", TokenValue::BOOL, TokenType::TYPE, -1),
    ]
}

#[test]
fn every_reserved_lexeme_is_found_with_its_entry() {
    let dictionary = Dictionary::get_dictionary();
    for (name, value, category, precedence) in reserved() {
        assert!(dictionary.have_token(&name.to_string()), "{}", name);
        assert_eq!(dictionary.lookup(&name.to_string()), (value, category, precedence), "{}", name);
    }
}

#[test]
fn other_names_have_the_default_entry() {
    let dictionary = Dictionary::get_dictionary();
    for name in ["", "x", "Class", "CLASS", "classes", "&", "==", "double", "System", "System.out", "println", " if", "if ", "/"] {
        assert!(!dictionary.have_token(&name.to_string()), "{}", name);
        assert_eq!(
            dictionary.lookup(&name.to_string()),
            (TokenValue::UNRESERVED, TokenType::IDENTIFIER, -1),
            "{}",
            name
        );
    }
}

#[test]
fn an_added_token_is_found() {
    let mut dictionary = Dictionary::get_dictionary();
    let name = "double".to_string();
    assert!(!dictionary.have_token(&name));
    dictionary.add_token(name.clone(), (TokenValue::DOUBLE, TokenType::TYPE, -1));
    assert!(dictionary.have_token(&name));
    assert_eq!(dictionary.lookup(&name), (TokenValue::DOUBLE, TokenType::TYPE, -1));
    assert_eq!(dictionary.lookup(&"int".to_string()), (TokenValue::INT, TokenType::TYPE, -1));
}

#[test]
fn an_added_token_replaces_the_entry_of_its_name() {
    let mut dictionary = Dictionary::get_dictionary();
    dictionary.add_token("+".to_string(), (TokenValue::ADD, TokenType::OPERATOR, 11));
    assert_eq!(dictionary.lookup(&"+".to_string()), (TokenValue::ADD, TokenType::OPERATOR, 11));
    assert_eq!(dictionary.lookup(&"-".to_string()), (TokenValue::SUB, TokenType::OPERATOR, 10));
}
