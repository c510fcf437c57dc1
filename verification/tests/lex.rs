use styleparse::lex::{self, Indent, Literal, Token};

#[test]
fn loose() {
    let mode = lex::Mode::loose();
    let act_res = lex::Token::parse(&"hello14641\"hey friend\"".to_string(), mode);
    let exp_res = vec![
        lex::Token::Identifier("hello14641".to_string()),
        lex::Token::Literal(Literal::Str("hey friend".to_string())),
    ];
    let act: Vec<Token> = {
        let toks = act_res.expect("lexing failed");
        let mut v = Vec::new();
        let mut i = 0;
        while i < toks.len() {
            v.push(toks.get(i).duplicate());
            i += 1;
        }
        v
    };
    assert_eq!(exp_res, act);
}

#[test]
fn strict() {
    let mode = lex::Mode::strict();
    let act_res = lex::Token::parse(&"hello14641\n\"hey\tfriend\"'c'".to_string(), mode);
    let exp_res = vec![
        lex::Token::Identifier("hello14641".to_string()),
        lex::Token::Indent(Indent::NewLine),
        lex::Token::Literal(Literal::Str("hey\tfriend".to_string())),
        lex::Token::Literal(Literal::Character('c')),
    ];
    let act: Vec<Token> = {
        let toks = act_res.expect("lexing failed");
        let mut v = Vec::new();
        let mut i = 0;
        while i < toks.len() {
            v.push(toks.get(i).duplicate());
            i += 1;
        }
        v
    };
    assert_eq!(exp_res, act);
}

fn collect(toks: lex::Tokens) -> Vec<Token> {
    let mut v = Vec::new();
    let mut i = 0;
    while i < toks.len() {
        v.push(toks.get(i).duplicate());
        i += 1;
    }
    v
}

#[test]
fn letters_make_one_identifier() {
    let toks = lex::tokenize("stylesheet", &lex::Mode::loose()).expect("lexing failed");
    let v = collect(toks);
    assert_eq!(v, vec![Token::Identifier("stylesheet".to_string())]);
}

#[test]
fn string_literal_with_escaped_quote() {
    let toks = lex::tokenize("\"say \\\"hi\\\"\"", &lex::Mode::loose()).expect("lexing failed");
    let v = collect(toks);
    assert_eq!(
        v,
        vec![Token::Literal(Literal::Str("say \"hi\"".to_string()))]
    );
    // a backslash consumes any following character verbatim
    let toks2 = lex::tokenize("\"a\\xb\"", &lex::Mode::loose()).expect("lexing failed");
    assert_eq!(
        collect(toks2),
        vec![Token::Literal(Literal::Str("axb".to_string()))]
    );
}

#[test]
fn strict_char_literal_rules() {
    let one = lex::tokenize("'x'", &lex::Mode::strict()).expect("single char must lex");
    assert_eq!(
        collect(one),
        vec![Token::Literal(Literal::Character('x'))]
    );
    let two = lex::tokenize("'xy'", &lex::Mode::strict());
    assert!(matches!(two, Err(lex::LexError::MalformedCharLiteral)));
}

#[test]
fn numbers_and_punctuation() {
    let toks = lex::tokenize("12px(3.5%)", &lex::Mode::loose()).expect("lexing failed");
    let v = collect(toks);
    assert_eq!(
        v,
        vec![
            Token::Literal(Literal::Integer(12)),
            Token::Identifier("px".to_string()),
            Token::OpenBracket,
            Token::Literal(Literal::Floater(styleparse::num::Scalar {
                whole: 3,
                frac: "5".to_string(),
            })),
            Token::Other("%".to_string()),
            Token::CloseBracket,
        ]
    );
}

#[test]
fn special_chars_extend_identifiers() {
    let mode = styleparse::asset::style::style_mode(false);
    let toks = lex::tokenize("$accent-1: red", &mode).expect("lexing failed");
    let v = collect(toks);
    assert_eq!(
        v,
        vec![
            Token::Identifier("$accent-1".to_string()),
            Token::Other(":".to_string()),
            Token::Identifier("red".to_string()),
        ]
    );
}
