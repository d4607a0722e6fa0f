/// Classes of characters.
pub mod chars;
/// The cursor that reads a source character by character.
pub mod cursor;
/// The table of reserved words.
pub mod dictionary;
/// Lexical errors.
pub mod error;
/// The lexical grammar: what the tokens of a source are.
pub mod grammar;
/// What holds of the grammar whatever the source.
pub mod laws;
/// Integer literals.
pub mod number;
/// The scanner, which reads a source token by token.
pub mod scanner;
/// Building strings.
pub mod text;
/// Tokens and their locations.
pub mod token;
