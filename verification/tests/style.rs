use styleparse::asset::style::{Asset, Error, Property, Selector, Value};
use styleparse::lex::{tokenize, Token, Tokens};
use styleparse::preproc::process;
use styleparse::asset::style::bg::{BackgroundColor, BackgroundProperty, BackgroundValue, Color};
use styleparse::traits::{Name, PropertyValue};

#[test]
fn selector_chain_renders_dotted_path() {
    let sel = Selector {
        name: "title".to_string(),
        parent: Some(Box::new(Selector {
            name: "card".to_string(),
            parent: None,
        })),
    };
    assert_eq!(sel.construct(), ".card .title");
    assert_eq!(sel.to_string(), ".card .title");
}

#[test]
fn unmatched_closing_brace_is_syntax_error() {
    let res = Asset::parse("sheet", "a { } }", false);
    assert!(matches!(res, Err(Error::SyntaxError)));
}

#[test]
fn simple_rule_parses() {
    let asset = Asset::parse("sheet", "a { background-color: red; }", false)
        .expect("stylesheet must parse");
    let rules = asset.rules();
    assert_eq!(rules.len(), 1);
    let (sel, decls) = &rules[0];
    assert_eq!(sel.name().as_str(), "a");
    assert!(sel.parent.is_none());
    assert_eq!(decls.len(), 1);
    let rule = &decls[0];
    assert_eq!(
        *rule.property(),
        Property::Background(Some(BackgroundProperty::Color))
    );
    assert_eq!(
        *rule.value(),
        Value::Background(BackgroundValue::Color(BackgroundColor::Color(Color::Name(
            "red".to_string()
        ))))
    );
}

#[test]
fn indent_mode_rejects_braces() {
    let open = Asset::parse("sheet", "a\n\tbackground-color: red{\n", true);
    assert!(matches!(open, Err(Error::SyntaxError)));
    let close = Asset::parse("sheet", "a }\n", true);
    assert!(matches!(close, Err(Error::SyntaxError)));
}

#[test]
fn unknown_property_is_invalid_property() {
    let res = Asset::parse("sheet", "a { foo: bar; }", false);
    assert!(matches!(res, Err(Error::InvalidProperty)));
}

#[test]
fn indent_mode_parses_declarations() {
    let asset = Asset::parse("sheet", "card\n\tbackground-color: blue\n", true)
        .expect("indented stylesheet must parse");
    let rules = asset.rules();
    assert_eq!(rules.len(), 1);
    let (sel, decls) = &rules[0];
    assert_eq!(sel.construct(), ".card");
    assert_eq!(decls.len(), 1);
    assert_eq!(
        *decls[0].value(),
        Value::Background(BackgroundValue::Color(BackgroundColor::Color(Color::Name(
            "blue".to_string()
        ))))
    );
}

#[test]
fn nested_selectors_share_the_asset() {
    let src = "card { title { background-color: red; } background-clip: border-box; }";
    let asset = Asset::parse("sheet", src, false).expect("nested stylesheet must parse");
    let rules = asset.rules();
    assert_eq!(rules.len(), 2);
    assert_eq!(rules[0].0.construct(), ".card .title");
    assert_eq!(rules[1].0.construct(), ".card");
}

#[test]
fn invalid_value_is_reported() {
    let res = Asset::parse("sheet", "a { background-clip: nonsense; }", false);
    assert!(matches!(res, Err(Error::InvalidValue)));
}

#[test]
fn asset_keeps_its_name() {
    let asset = Asset::parse("mysheet", "a { background-color: red; }", false).unwrap();
    assert_eq!(asset.name().as_str(), "mysheet");
}

#[test]
fn parse_scss() {
    let src = "card {\n  background-color: rgb(10, 20, 30);\n  background-image: none;\n  title { background: transparent; }\n}\n";
    let asset = Asset::parse("style.scss", src, false).expect("Error parsing SCSS source");
    let rules = asset.rules();
    assert_eq!(rules.len(), 2);
    assert_eq!(rules[0].0.construct(), ".card");
    assert_eq!(rules[0].1.len(), 2);
    assert_eq!(rules[1].0.construct(), ".card .title");
}

#[test]
fn parse_sass() {
    let src = "card\n\tbackground-color: hsl(200, 40%, 50%)\n\tbackground-repeat: no-repeat\nfooter\n\tbackground: gray\n";
    let asset = Asset::parse("style.sass", src, true).expect("Error parsing SASS source");
    let rules = asset.rules();
    assert_eq!(rules.len(), 2);
    assert_eq!(rules[0].0.construct(), ".card");
    assert_eq!(rules[0].1.len(), 2);
    assert_eq!(rules[1].0.construct(), ".footer");
    assert_eq!(rules[1].1.len(), 1);
}

#[test]
fn variables_substitute_before_parsing() {
    let mode = styleparse::asset::style::style_mode(false);
    let toks = tokenize("a { background-color: $accent; }", &mode).expect("lexing failed");
    let mut flat = Vec::new();
    let mut i = 0;
    while i < toks.len() {
        flat.push(toks.get(i).duplicate());
        i += 1;
    }
    let vars = vec![(
        "$accent".to_string(),
        vec![Token::Identifier("teal".to_string())],
    )];
    let substituted = process(&vars, flat);
    let mut rebuilt = Tokens::new();
    for t in substituted {
        rebuilt.push(t);
    }
    let asset = Asset::from_tokens("sheet", &rebuilt, false).expect("substituted source parses");
    let (sel, decls) = &asset.rules()[0];
    assert_eq!(sel.name().as_str(), "a");
    assert_eq!(
        *decls[0].value(),
        Value::Background(BackgroundValue::Color(BackgroundColor::Color(Color::Name(
            "teal".to_string()
        ))))
    );
}

#[test]
fn deep_indentation_nests_selectors() {
    let src = "a\n\tb\n\t\tbackground-color: red\n";
    let asset = Asset::parse("sheet", src, true).expect("nested indentation must parse");
    let rules = asset.rules();
    assert_eq!(rules.len(), 1);
    assert_eq!(rules[0].0.construct(), ".a .b");
}

#[test]
fn pseudo_class_extends_the_selector() {
    let asset = Asset::parse("sheet", "a:hover { background-color: red; }", false)
        .expect("pseudo-class selector must parse");
    let rules = asset.rules();
    assert_eq!(rules.len(), 1);
    assert_eq!(rules[0].0.name().as_str(), "a:hover");
}

#[test]
fn sibling_blocks_get_their_own_entries() {
    let src = "a { background-color: red; } b { background-color: blue; }";
    let asset = Asset::parse("sheet", src, false).expect("sibling blocks must parse");
    let rules = asset.rules();
    assert_eq!(rules.len(), 2);
    assert_eq!(rules[0].0.construct(), ".a");
    assert_eq!(rules[1].0.construct(), ".b");
}

#[test]
fn repeated_selector_appends_rules_in_order() {
    let src = "a { background-color: red; background-color: blue; }";
    let asset = Asset::parse("sheet", src, false).expect("repeated declarations must parse");
    let rules = asset.rules();
    assert_eq!(rules.len(), 1);
    let decls = &rules[0].1;
    assert_eq!(decls.len(), 2);
    assert_eq!(
        *decls[0].value(),
        Value::Background(BackgroundValue::Color(BackgroundColor::Color(Color::Name(
            "red".to_string()
        ))))
    );
    assert_eq!(
        *decls[1].value(),
        Value::Background(BackgroundValue::Color(BackgroundColor::Color(Color::Name(
            "blue".to_string()
        ))))
    );
}

#[test]
fn declaration_without_selector_is_syntax_error() {
    let res = Asset::parse("sheet", "{ background-color: red; }", false);
    assert!(matches!(res, Err(Error::SyntaxError)));
}

#[test]
fn unclosed_block_is_syntax_error() {
    let res = Asset::parse("sheet", "a { background-color: red;", false);
    assert!(matches!(res, Err(Error::SyntaxError)));
}

#[test]
fn shorthand_declaration_parses_positionally() {
    // in source text, bare words glue under the whitespace rule, so the
    // groups of a positional run separate at brackets
    let asset = Asset::parse("sheet", "a { background: url(\"a.png\") red; }", false)
        .expect("positional shorthand must parse");
    let rules = asset.rules();
    assert_eq!(rules.len(), 1);
    match rules[0].1[0].value() {
        Value::Background(BackgroundValue::Shorthand(b)) => {
            assert_eq!(
                b.image,
                vec![styleparse::asset::style::bg::BackgroundImage::Url("a.png".to_string())]
            );
            assert_eq!(
                b.color,
                BackgroundColor::Color(Color::Name("red".to_string()))
            );
        }
        other => panic!("unexpected value: {:?}", other),
    }
}
