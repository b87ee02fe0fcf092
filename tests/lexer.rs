use diffpriv::lexer::Lexer;
use diffpriv::symbols::{PreprocessedTokenTypes, Symbols};
use diffpriv::tokens::{OperatorType, Token, TokenType};

#[test]
fn eat_gives_byte_positions() {
    let mut lexer = Lexer::new("é=a; ".to_string());
    let tokens = lexer.eat();
    assert_eq!("é=a;", lexer.client_string);
    let positions: Vec<usize> = tokens.iter().map(|t| t.position).collect();
    assert_eq!(vec![0, 2, 3, 4], positions);
    assert_eq!(TokenType::Misc, tokens[0].token_type);
    assert_eq!(TokenType::Operator(OperatorType::Equal), tokens[1].token_type);
    assert_eq!(TokenType::SemiColon, tokens[3].token_type);
}

#[test]
fn parse_splits_words_and_operators() {
    let mut lexer = Lexer::new("SELECT * FROM USERS WHERE NAME ='Aradhya';".to_string());
    let tokens = lexer.parse();
    assert_eq!(9, tokens.len());
    assert!(matches!(tokens[0].value, PreprocessedTokenTypes::Symbol(Symbols::SELECT)));
    assert!(matches!(tokens[1].value, PreprocessedTokenTypes::Symbol(Symbols::WILDCARD)));
    assert!(matches!(&tokens[2].value, PreprocessedTokenTypes::Identifier(w) if w == "FROM"));
    assert!(matches!(tokens[4].value, PreprocessedTokenTypes::Symbol(Symbols::WHERE)));
    assert!(matches!(tokens[6].value, PreprocessedTokenTypes::Operator(OperatorType::Equal)));
    assert!(matches!(&tokens[7].value, PreprocessedTokenTypes::Identifier(w) if w == "'Aradhya'"));
    assert!(matches!(&tokens[8].value, PreprocessedTokenTypes::Identifier(w) if w == ";"));
}

#[test]
fn parse_without_semicolon() {
    let mut lexer = Lexer::new("a b".to_string());
    let tokens = lexer.parse();
    assert_eq!(2, tokens.len());
}

#[test]
fn from_string_is_case_insensitive() {
    assert!(matches!(
        PreprocessedTokenTypes::from_string(&"Where".to_string()),
        PreprocessedTokenTypes::Symbol(Symbols::WHERE)
    ));
    assert!(matches!(
        PreprocessedTokenTypes::from_string(&"Users".to_string()),
        PreprocessedTokenTypes::Identifier(w) if w == "Users"
    ));
}

#[test]
fn token_new_keeps_fields() {
    let t = Token::new('x', 7, TokenType::Misc);
    assert_eq!('x', t.character);
    assert_eq!(7, t.position);
    assert_eq!(TokenType::Misc, t.token_type);
}
