use mjava_lexer::chars::{
    is_alphabetic, is_alphanumeric, is_digit, is_hex_digit, is_octal_digit, is_whitespace,
    CharClass, END_OF_INPUT,
};
use mjava_lexer::cursor::Cursor;
use mjava_lexer::grammar::{classify, number_base, NumberBase, State};
use mjava_lexer::number::{digit_of, parse_digits};

#[test]
fn cursor_reads_one_character_at_a_time() {
    let mut cursor = Cursor::new(b"ab\ncd".to_vec());
    assert_eq!(cursor.current(), '\0');
    assert_eq!(cursor.peek(), 'a');
    assert!(!cursor.is_eof());
    assert_eq!((cursor.line(), cursor.column()), (1, 0));
    cursor.advance();
    assert_eq!(cursor.current(), 'a');
    assert_eq!(cursor.peek(), 'b');
    assert_eq!(cursor.offset(), 0);
    assert_eq!((cursor.line(), cursor.column()), (1, 1));
    cursor.advance();
    assert_eq!((cursor.current(), cursor.line(), cursor.column()), ('b', 1, 2));
    cursor.advance();
    assert_eq!((cursor.current(), cursor.line(), cursor.column()), ('\n', 2, 0));
    cursor.advance();
    assert_eq!((cursor.current(), cursor.line(), cursor.column()), ('c', 2, 1));
    cursor.advance();
    assert_eq!((cursor.current(), cursor.line(), cursor.column()), ('d', 2, 2));
    assert_eq!(cursor.peek(), END_OF_INPUT);
    assert!(!cursor.is_eof());
    assert_eq!(cursor.offset(), 4);
}

#[test]
fn cursor_stays_at_the_end() {
    let mut cursor = Cursor::new(b"a".to_vec());
    cursor.advance();
    cursor.advance();
    assert!(cursor.is_eof());
    assert_eq!(cursor.current(), END_OF_INPUT);
    assert_eq!(cursor.peek(), END_OF_INPUT);
    assert_eq!((cursor.line(), cursor.column()), (1, 2));
    assert_eq!(cursor.offset(), 1);
    for _ in 0..3 {
        cursor.advance();
        assert!(cursor.is_eof());
        assert_eq!(cursor.current(), END_OF_INPUT);
        assert_eq!(cursor.peek(), END_OF_INPUT);
        assert_eq!((cursor.line(), cursor.column()), (1, 2));
        assert_eq!(cursor.offset(), 1);
    }
}

#[test]
fn cursor_over_nothing() {
    let mut cursor = Cursor::new(Vec::new());
    assert_eq!(cursor.peek(), END_OF_INPUT);
    assert!(!cursor.is_eof());
    cursor.advance();
    assert!(cursor.is_eof());
    assert_eq!(cursor.current(), END_OF_INPUT);
    assert_eq!((cursor.line(), cursor.column()), (1, 1));
    assert_eq!(cursor.bytes().len(), 0);
}

#[test]
fn peek_does_not_move_the_cursor() {
    let mut cursor = Cursor::new(b"xy".to_vec());
    cursor.advance();
    for _ in 0..3 {
        assert_eq!(cursor.peek(), 'y');
        assert_eq!(cursor.current(), 'x');
        assert_eq!(cursor.offset(), 0);
        assert_eq!((cursor.line(), cursor.column()), (1, 1));
    }
}

#[test]
fn cursor_skips_runs_and_counts() {
    let mut cursor = Cursor::new(b"123abc_9 \n\t x".to_vec());
    cursor.advance();
    cursor.skip_run(CharClass::Digit);
    assert_eq!((cursor.offset(), cursor.current()), (3, 'a'));
    cursor.skip_run(CharClass::Digit);
    assert_eq!(cursor.offset(), 3);
    cursor.skip_run(CharClass::Word);
    assert_eq!((cursor.offset(), cursor.current()), (8, ' '));
    cursor.skip_run(CharClass::Whitespace);
    assert_eq!((cursor.offset(), cursor.current()), (12, 'x'));
    assert_eq!((cursor.line(), cursor.column()), (2, 3));
    cursor.skip_run(CharClass::LineBody);
    assert!(cursor.is_eof());
    assert_eq!(cursor.offset(), 13);
}

#[test]
fn cursor_moves_by_a_count() {
    let mut cursor = Cursor::new(b"abcdef".to_vec());
    cursor.advance();
    cursor.advance_by(0);
    assert_eq!(cursor.current(), 'a');
    cursor.advance_by(3);
    assert_eq!((cursor.current(), cursor.offset(), cursor.column()), ('d', 3, 4));
    cursor.advance_by(3);
    assert!(cursor.is_eof());
}

#[test]
fn cursor_hands_out_text_and_looks_ahead() {
    let mut cursor = Cursor::new(b"System.out.println(x)".to_vec());
    assert_eq!(cursor.lexeme(0, 6), "System");
    assert_eq!(cursor.lexeme(7, 10), "out");
    assert_eq!(cursor.lexeme(3, 3), "");
    assert_eq!(cursor.lexeme(0, 21), "System.out.println(x)");
    cursor.advance();
    assert!(cursor.matches_ahead("System"));
    assert!(cursor.matches_ahead(""));
    assert!(!cursor.matches_ahead("Systen"));
    cursor.advance_by(6);
    assert!(cursor.matches_ahead(".out.println"));
    assert!(cursor.matches_ahead(".out.println(x)"));
    assert!(!cursor.matches_ahead(".out.println(x);"));
    assert!(!cursor.matches_ahead(".out.printlm"));
    assert_eq!(cursor.offset(), 6);
}

#[test]
fn bytes_are_characters_one_for_one() {
    let cursor = Cursor::new(vec![0x41, 0xE9, 0xFF, 0x00]);
    assert_eq!(cursor.lexeme(0, 4), "A\u{e9}\u{ff}\u{0}");
}

#[test]
fn character_classes() {
    for c in ['0', '5', '9'] {
        assert!(is_digit(c) && is_hex_digit(c) && is_alphanumeric(c) && !is_alphabetic(c));
    }
    for c in ['0', '7'] {
        assert!(is_octal_digit(c));
    }
    for c in ['8', '9', 'a', '/', ':'] {
        assert!(!is_octal_digit(c));
    }
    for c in ['a', 'f', 'A', 'F'] {
        assert!(is_hex_digit(c) && is_alphabetic(c) && !is_digit(c));
    }
    for c in ['g', 'G', 'z', 'Z', '_', '@', '`', '[', '{', '/', ':', END_OF_INPUT] {
        assert!(!is_hex_digit(c) && !is_digit(c));
    }
    for c in ['a', 'z', 'A', 'Z', 'm'] {
        assert!(is_alphabetic(c) && is_alphanumeric(c));
    }
    for c in ['_', '@', '`', '[', '{', '\u{e9}', END_OF_INPUT, ' '] {
        assert!(!is_alphabetic(c) && !is_alphanumeric(c));
    }
    for c in [' ', '\t', '\n', '\r', '\x0C'] {
        assert!(is_whitespace(c));
    }
    for c in ['\x0B', 'a', '\0', '\u{a0}', END_OF_INPUT] {
        assert!(!is_whitespace(c));
    }
    assert!(CharClass::Word.contains('_') && CharClass::Word.contains('a') && CharClass::Word.contains('0'));
    assert!(!CharClass::Word.contains('.') && !CharClass::Word.contains(' '));
    assert!(CharClass::LineBody.contains('a') && CharClass::LineBody.contains('\r'));
    assert!(!CharClass::LineBody.contains('\n'));
    assert!(CharClass::Whitespace.contains(' ') && !CharClass::Whitespace.contains('x'));
    assert!(CharClass::Digit.contains('9') && !CharClass::Digit.contains('a'));
    assert!(CharClass::HexDigit.contains('a') && !CharClass::HexDigit.contains('g'));
    assert!(CharClass::OctalDigit.contains('7') && !CharClass::OctalDigit.contains('8'));
}

#[test]
fn first_character_tells_the_state() {
    assert_eq!(classify('a', false), State::IDENTIFIER);
    assert_eq!(classify('Z', false), State::IDENTIFIER);
    assert_eq!(classify('0', false), State::NUMBER);
    assert_eq!(classify('9', false), State::NUMBER);
    assert_eq!(classify('\'', false), State::CHAR_LITERAL);
    assert_eq!(classify('"', false), State::STRING_LITERAL);
    assert_eq!(classify('+', false), State::OPERATOR);
    assert_eq!(classify('_', false), State::OPERATOR);
    assert_eq!(classify('.', false), State::OPERATOR);
    assert_eq!(classify(END_OF_INPUT, false), State::OPERATOR);
    assert_eq!(classify('a', true), State::END_OF_FILE);
    assert_eq!(classify(END_OF_INPUT, true), State::END_OF_FILE);
}

#[test]
fn first_characters_tell_the_base() {
    assert_eq!(number_base('0', 'x'), NumberBase::Hexadecimal);
    assert_eq!(number_base('0', 'X'), NumberBase::Hexadecimal);
    assert_eq!(number_base('0', '0'), NumberBase::Octal);
    assert_eq!(number_base('0', '7'), NumberBase::Octal);
    assert_eq!(number_base('0', '8'), NumberBase::Decimal);
    assert_eq!(number_base('0', '.'), NumberBase::Decimal);
    assert_eq!(number_base('0', END_OF_INPUT), NumberBase::Decimal);
    assert_eq!(number_base('1', 'x'), NumberBase::Decimal);
    assert_eq!(number_base('1', '7'), NumberBase::Decimal);
    assert_eq!(
        (NumberBase::Decimal.radix(), NumberBase::Decimal.prefix_len(), NumberBase::Decimal.digits()),
        (10, 0, CharClass::Digit)
    );
    assert_eq!(
        (NumberBase::Hexadecimal.radix(), NumberBase::Hexadecimal.prefix_len(), NumberBase::Hexadecimal.digits()),
        (16, 2, CharClass::HexDigit)
    );
    assert_eq!(
        (NumberBase::Octal.radix(), NumberBase::Octal.prefix_len(), NumberBase::Octal.digits()),
        (8, 1, CharClass::OctalDigit)
    );
}

#[test]
fn digits_have_their_values() {
    assert_eq!(digit_of(b'0'), 0);
    assert_eq!(digit_of(b'9'), 9);
    assert_eq!(digit_of(b'a'), 10);
    assert_eq!(digit_of(b'f'), 15);
    assert_eq!(digit_of(b'A'), 10);
    assert_eq!(digit_of(b'F'), 15);
    assert_eq!(digit_of(b'g'), 0);
    assert_eq!(digit_of(b' '), 0);
}

#[test]
fn digits_are_parsed_in_their_base() {
    let source = b"x2147483647;7fffffff;17777777777;2147483648;80000000;20000000000;0012".to_vec();
    assert_eq!(parse_digits(&source, 1, 11, NumberBase::Decimal), Some(i32::MAX));
    assert_eq!(parse_digits(&source, 12, 20, NumberBase::Hexadecimal), Some(i32::MAX));
    assert_eq!(parse_digits(&source, 21, 32, NumberBase::Octal), Some(i32::MAX));
    assert_eq!(parse_digits(&source, 33, 43, NumberBase::Decimal), None);
    assert_eq!(parse_digits(&source, 44, 52, NumberBase::Hexadecimal), None);
    assert_eq!(parse_digits(&source, 53, 64, NumberBase::Octal), None);
    assert_eq!(parse_digits(&source, 65, 69, NumberBase::Decimal), Some(12));
    assert_eq!(parse_digits(&source, 65, 69, NumberBase::Octal), Some(10));
    assert_eq!(parse_digits(&source, 65, 69, NumberBase::Hexadecimal), Some(18));
    assert_eq!(parse_digits(&source, 1, 1, NumberBase::Decimal), Some(0));
    assert_eq!(parse_digits(&source, 1, 2, NumberBase::Decimal), Some(2));
}
