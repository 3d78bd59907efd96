use shell_core::parser::{parse, TokenType};
use shell_core::tree::{
    AndExpr, AndExprOptions, CallExpr, CallExprOptions, Expr, GrammarError, OrExpr, OrExprOptions,
    SemicolonExpr, SemicolonExprOptions,
};

#[test]
fn test_simple_tree() {
    let tokens = vec![
        TokenType::Word("echo".to_string()),
        TokenType::DoubleQuotedString("\"foo\"".to_string()),
    ];

    assert_eq!(
        Expr::from_tokens(&tokens).unwrap(),
        Expr {
            value: SemicolonExpr {
                value: SemicolonExprOptions::SingleExpr(AndExpr {
                    value: AndExprOptions::SingleExpr(OrExpr {
                        value: OrExprOptions::SingleExpr(CallExpr {
                            value: CallExprOptions::ProgCall(
                                TokenType::Word("echo".to_string()),
                                vec![TokenType::DoubleQuotedString("\"foo\"".to_string())]
                            ),
                        }),
                    }),
                }),
            },
        }
    );
}

#[test]
fn test_and() {
    let tokens = vec![
        TokenType::Word("ls".to_string()),
        TokenType::And,
        TokenType::Word("ls".to_string()),
    ];

    assert_eq!(
        Expr::from_tokens(&tokens).unwrap(),
        Expr {
            value: SemicolonExpr {
                value: SemicolonExprOptions::SingleExpr(AndExpr {
                    value: AndExprOptions::And(
                        OrExpr {
                            value: OrExprOptions::SingleExpr(CallExpr {
                                value: CallExprOptions::ProgCall(
                                    TokenType::Word("ls".to_string()),
                                    vec![]
                                ),
                            }),
                        },
                        Box::new(AndExpr {
                            value: AndExprOptions::SingleExpr(OrExpr {
                                value: OrExprOptions::SingleExpr(CallExpr {
                                    value: CallExprOptions::ProgCall(
                                        TokenType::Word("ls".to_string()),
                                        vec![]
                                    ),
                                })
                            }),
                        })
                    ),
                }),
            },
        }
    );
}

#[test]
fn test_or() {
    let tokens = vec![
        TokenType::Word("ls".to_string()),
        TokenType::Or,
        TokenType::Word("ls".to_string()),
    ];

    assert_eq!(
        Expr::from_tokens(&tokens).unwrap(),
        Expr {
            value: SemicolonExpr {
                value: SemicolonExprOptions::SingleExpr(AndExpr {
                    value: AndExprOptions::SingleExpr(OrExpr {
                        value: OrExprOptions::Or(
                            CallExpr {
                                value: CallExprOptions::ProgCall(
                                    TokenType::Word("ls".to_string()),
                                    vec![]
                                ),
                            },
                            Box::new(OrExpr {
                                value: OrExprOptions::SingleExpr(CallExpr {
                                    value: CallExprOptions::ProgCall(
                                        TokenType::Word("ls".to_string()),
                                        vec![]
                                    ),
                                }),
                            })
                        ),
                    }),
                }),
            },
        }
    );
}

#[test]
fn test_semicolon() {
    let tokens = vec![
        TokenType::Word("ls".to_string()),
        TokenType::Semicolon,
        TokenType::Word("ls".to_string()),
    ];

    assert_eq!(
        Expr::from_tokens(&tokens).unwrap(),
        Expr {
            value: SemicolonExpr {
                value: SemicolonExprOptions::Semicolon(
                    AndExpr {
                        value: AndExprOptions::SingleExpr(OrExpr {
                            value: OrExprOptions::SingleExpr(CallExpr {
                                value: CallExprOptions::ProgCall(
                                    TokenType::Word("ls".to_string()),
                                    vec![]
                                ),
                            }),
                        }),
                    },
                    Box::new(SemicolonExpr {
                        value: SemicolonExprOptions::SingleExpr(AndExpr {
                            value: AndExprOptions::SingleExpr(OrExpr {
                                value: OrExprOptions::SingleExpr(CallExpr {
                                    value: CallExprOptions::ProgCall(
                                        TokenType::Word("ls".to_string()),
                                        vec![]
                                    ),
                                }),
                            }),
                        }),
                    })
                ),
            },
        }
    );
}

#[test]
fn test_parenthesis() {
    let tokens = vec![
        TokenType::Word("ls".to_string()),
        TokenType::And,
        TokenType::Parenthesis('('),
        TokenType::Word("ls".to_string()),
        TokenType::Parenthesis(')'),
    ];

    assert_eq!(
        Expr::from_tokens(&tokens).unwrap(),
        Expr {
            value: SemicolonExpr {
                value: SemicolonExprOptions::SingleExpr(AndExpr {
                    value: AndExprOptions::And(
                        OrExpr {
                            value: OrExprOptions::SingleExpr(CallExpr {
                                value: CallExprOptions::ProgCall(
                                    TokenType::Word("ls".to_string()),
                                    vec![]
                                ),
                            }),
                        },
                        Box::new(AndExpr {
                            value: AndExprOptions::SingleExpr(OrExpr {
                                value: OrExprOptions::SingleExpr(CallExpr {
                                    value: CallExprOptions::Parenthesis(Box::new(Expr {
                                        value: SemicolonExpr {
                                            value: SemicolonExprOptions::SingleExpr(AndExpr {
                                                value: AndExprOptions::SingleExpr(OrExpr {
                                                    value: OrExprOptions::SingleExpr(CallExpr {
                                                        value: CallExprOptions::ProgCall(
                                                            TokenType::Word("ls".to_string()),
                                                            vec![]
                                                        ),
                                                    }),
                                                }),
                                            }),
                                        },
                                    })),
                                })
                            }),
                        })
                    ),
                }),
            },
        }
    );
}

#[test]
fn test_parenthesis_mismatched() {
    let tokens = vec![
        TokenType::Word("ls".to_string()),
        TokenType::And,
        TokenType::Parenthesis('('),
        TokenType::Word("ls".to_string()),
    ];

    assert_eq!(
        Expr::from_tokens(&tokens).unwrap_err(),
        GrammarError::MismatchedParenthesis
    );
}

#[test]
fn test_invalid_command_start() {
    let tokens = vec![TokenType::And, TokenType::Word("ls".to_string())];

    assert_eq!(
        Expr::from_tokens(&tokens).unwrap_err(),
        GrammarError::InvalidCmdStart
    );
}

#[test]
fn test_pipe_is_rejected() {
    let line = String::from("ls|grep x");
    let tokens = parse(&line).unwrap();

    assert_eq!(
        Expr::from_tokens(&tokens).unwrap_err(),
        GrammarError::InvalidCmdStart
    );
}

#[test]
fn test_stray_closing_parenthesis_is_rejected() {
    let tokens = vec![
        TokenType::Word("ls".to_string()),
        TokenType::Parenthesis(')'),
    ];

    assert_eq!(
        Expr::from_tokens(&tokens).unwrap_err(),
        GrammarError::InvalidCmdStart
    );
}

#[test]
fn test_empty_parentheses_are_rejected() {
    let tokens = vec![TokenType::Parenthesis('('), TokenType::Parenthesis(')')];

    assert_eq!(
        Expr::from_tokens(&tokens).unwrap_err(),
        GrammarError::InvalidCmdStart
    );
}

#[test]
fn test_round_trip_reproduces_tokens() {
    let line = String::from("ls -l&&(du||df);cd tmp");
    let tokens = parse(&line).unwrap();
    let expr = Expr::from_tokens(&tokens).unwrap();

    assert_eq!(expr.to_tokens(), tokens);
}

#[test]
fn test_round_trip_trailing_operator() {
    let line = String::from("ls&&");
    let tokens = parse(&line).unwrap();
    let expr = Expr::from_tokens(&tokens).unwrap();

    assert_eq!(expr.to_tokens(), tokens);
}
