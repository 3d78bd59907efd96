use shell_core::parser::{parse, ParseError, TokenType};

#[test]
fn test_parse_simple() {
    let line = String::from("ls -l");

    assert_eq!(
        parse(&line).unwrap(),
        vec![
            TokenType::Word("ls".to_string()),
            TokenType::Word("-l".to_string())
        ]
    );
}

#[test]
fn test_parse_double_quote() {
    let line = String::from("echo \"hola mundo\"");

    assert_eq!(
        parse(&line).unwrap(),
        vec![
            TokenType::Word("echo".to_string()),
            TokenType::DoubleQuotedString("\"hola mundo\"".to_string())
        ]
    );
}

#[test]
fn test_parse_single_quote() {
    let line = String::from("echo \'hola mundo\'");

    assert_eq!(
        parse(&line).unwrap(),
        vec![
            TokenType::Word("echo".to_string()),
            TokenType::SingleQuotedString("\'hola mundo\'".to_string())
        ]
    );
}

#[test]
fn test_parse_semicolon() {
    let line = String::from("ls;cd");

    assert_eq!(
        parse(&line).unwrap(),
        vec![
            TokenType::Word("ls".to_string()),
            TokenType::Semicolon,
            TokenType::Word("cd".to_string())
        ]
    );
}

#[test]
fn test_parse_and() {
    let line = String::from("ls&&cd");

    assert_eq!(
        parse(&line).unwrap(),
        vec![
            TokenType::Word("ls".to_string()),
            TokenType::And,
            TokenType::Word("cd".to_string())
        ]
    );
}

#[test]
fn test_parse_or() {
    let line = String::from("ls||cd");

    assert_eq!(
        parse(&line).unwrap(),
        vec![
            TokenType::Word("ls".to_string()),
            TokenType::Or,
            TokenType::Word("cd".to_string())
        ]
    );
}

#[test]
fn test_parse_pipe() {
    let line = String::from("ls | grep foo");

    assert_eq!(
        parse(&line).unwrap(),
        vec![
            TokenType::Word("ls".to_string()),
            TokenType::Pipe,
            TokenType::Word("grep".to_string()),
            TokenType::Word("foo".to_string())
        ]
    );
}

#[test]
fn test_parse_parenthesis() {
    let line = String::from("()");

    assert_eq!(
        parse(&line).unwrap(),
        vec![TokenType::Parenthesis('('), TokenType::Parenthesis(')')]
    );
}

#[test]
fn test_parse_unterminated_double_quote() {
    let line = String::from("echo \"hola mundo");

    assert_eq!(parse(&line).unwrap_err(), ParseError::UnterminatedQuote);
}

#[test]
fn test_parse_unterminated_single_quote() {
    let line = String::from("echo \'hola mundo");

    assert_eq!(parse(&line).unwrap_err(), ParseError::UnterminatedQuote);
}

#[test]
fn test_parse_incomplete_and() {
    let line = String::from("ls & cd");

    assert_eq!(parse(&line).unwrap_err(), ParseError::IncompleteAnd);
}

#[test]
fn test_parse_invalid_character() {
    let line = String::from("echo $HOME");

    assert_eq!(parse(&line).unwrap_err(), ParseError::InvalidCharacter);
}

#[test]
fn test_parse_splits_on_whitespace_runs() {
    let line = String::from("  one \t two-three \n four  ");

    assert_eq!(
        parse(&line).unwrap(),
        vec![
            TokenType::Word("one".to_string()),
            TokenType::Word("two-three".to_string()),
            TokenType::Word("four".to_string())
        ]
    );
}

#[test]
fn test_parse_empty_line() {
    let line = String::from("");

    assert_eq!(parse(&line).unwrap(), vec![]);
}

#[test]
fn test_parse_quotes_keep_embedded_operators() {
    let line = String::from("echo \"a && b; c\"");

    assert_eq!(
        parse(&line).unwrap(),
        vec![
            TokenType::Word("echo".to_string()),
            TokenType::DoubleQuotedString("\"a && b; c\"".to_string())
        ]
    );
}
