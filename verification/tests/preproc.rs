use styleparse::lex::Token;
use styleparse::preproc::{process, Variables};

#[test]
fn defined_variable_is_replaced() {
    let vars: Variables = vec![(
        "$x".to_string(),
        vec![Token::Identifier("red".to_string())],
    )];
    let toks = vec![Token::Identifier("$x".to_string())];
    let out = process(&vars, toks);
    assert_eq!(out, vec![Token::Identifier("red".to_string())]);
}

#[test]
fn unmatched_identifier_passes_through() {
    let vars: Variables = vec![(
        "$x".to_string(),
        vec![Token::Identifier("red".to_string())],
    )];
    let toks = vec![Token::Identifier("$y".to_string())];
    let out = process(&vars, toks);
    assert_eq!(out, vec![Token::Identifier("$y".to_string())]);
}

#[test]
fn splice_keeps_order_and_neighbours() {
    let vars: Variables = vec![(
        "$pair".to_string(),
        vec![
            Token::Identifier("red".to_string()),
            Token::Other(",".to_string()),
            Token::Identifier("blue".to_string()),
        ],
    )];
    let toks = vec![
        Token::Identifier("before".to_string()),
        Token::Identifier("$pair".to_string()),
        Token::Identifier("after".to_string()),
    ];
    let out = process(&vars, toks);
    assert_eq!(
        out,
        vec![
            Token::Identifier("before".to_string()),
            Token::Identifier("red".to_string()),
            Token::Other(",".to_string()),
            Token::Identifier("blue".to_string()),
            Token::Identifier("after".to_string()),
        ]
    );
}

#[test]
fn no_sigil_means_no_substitution() {
    let vars: Variables = vec![(
        "plain".to_string(),
        vec![Token::Identifier("red".to_string())],
    )];
    let toks = vec![Token::Identifier("plain".to_string())];
    let out = process(&vars, toks);
    assert_eq!(out, vec![Token::Identifier("plain".to_string())]);
}
