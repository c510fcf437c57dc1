use styleparse::asset::style::bg::{
    BackgroundColor, BackgroundImage, BackgroundValue, Color, ConicGradient, ConicGradientValue,
    Direction, DirectionPair, Hue, Lightness, LinearGradient, PositionValue, PositionValueType,
    RadialGradient, RadialGradientSize, Saturation,
};
use styleparse::lex::{self, Literal, Token, Tokens};
use styleparse::num::Scalar;

fn s(n: i64) -> Scalar {
    Scalar { whole: n, frac: String::new() }
}

#[test]
fn color_function_forms_render() {
    let hsl = Color::HSL(
        Hue { val: 120 },
        Saturation { val: s(50) },
        Lightness { val: Scalar { whole: 12, frac: "5".to_string() } },
    );
    assert_eq!(hsl.to_string(), "hsl(120, 50%, 12.5%)");
    let rgb = Color::RGB(s(255), s(0), s(128));
    assert_eq!(rgb.to_string(), "rgb(255, 0, 128)");
    let rgba = Color::RGBA(s(1), s(2), s(3), s(4));
    assert_eq!(rgba.to_string(), "rgba(1, 2, 3, 4)");
    assert_eq!(Color::Transparent.to_string(), "transparent");
    assert_eq!(Color::Name("teal".to_string()).to_string(), "teal");
}

#[test]
fn gradients_render() {
    let lin = LinearGradient {
        directions: DirectionPair { first: Direction::Right, second: None },
        colors: vec![Color::Name("red".to_string()), Color::Name("blue".to_string())],
    };
    assert_eq!(lin.to_string(), "linear-gradient(right, red, blue)");
    let rad = RadialGradient {
        elipsis: true,
        repeats: true,
        position: PositionValue { kind: PositionValueType::Center, amount: s(0) },
        size: RadialGradientSize::FarthestCorner,
        colors: vec![Color::Name("red".to_string()), Color::Name("blue".to_string())],
    };
    assert_eq!(rad.to_string(), "repeating-radial-gradient(red, blue)");
    let con = ConicGradient {
        repeats: false,
        values: vec![
            ConicGradientValue {
                from_angle: Some(s(45)),
                at_position: None,
                color: Color::Name("red".to_string()),
            },
            ConicGradientValue {
                from_angle: None,
                at_position: Some(PositionValue {
                    kind: PositionValueType::Percentage,
                    amount: s(30),
                }),
                color: Color::Name("gold".to_string()),
            },
        ],
    };
    assert_eq!(con.to_string(), "conic-gradient(red 45, gold 30%)");
}

#[test]
fn background_values_render() {
    assert_eq!(
        BackgroundValue::Image(BackgroundImage::Url("a.png".to_string())).to_string(),
        "url(a.png)"
    );
    assert_eq!(
        BackgroundValue::Color(BackgroundColor::CurrentColor).to_string(),
        ""
    );
    assert_eq!(BackgroundValue::Image(BackgroundImage::NoImage).to_string(), "none");
}

#[test]
fn literals_and_tokens_render() {
    assert_eq!(Literal::Integer(-42).to_string(), "-42");
    assert_eq!(
        Literal::Floater(Scalar { whole: 3, frac: "25".to_string() }).to_string(),
        "3.25"
    );
    assert_eq!(Literal::Character('q').to_string(), "q");
    assert_eq!(Literal::Str("hi".to_string()).to_string(), "hi");

    let mut toks = Tokens::new();
    toks.push(Token::Identifier("width".to_string()));
    toks.push(Token::Other(":".to_string()));
    toks.push(Token::Literal(Literal::Integer(7)));
    toks.push(Token::OpenBracket);
    toks.push(Token::CloseBracket);
    toks.push(Token::Indent(lex::Indent::NewLine));
    toks.push(Token::Empty);
    assert_eq!(toks.to_string(), "width:\"7\"()\n");
}

#[test]
fn numeric_components_render_and_read_back() {
    assert_eq!(Hue { val: 360 }.to_string(), "360");
    assert_eq!(
        Saturation { val: Scalar { whole: 33, frac: "3".to_string() } }.to_string(),
        "33.3"
    );
    let h = Hue::from_str("270").expect("digits must read");
    assert_eq!(h.val, 270);
    assert!(Hue::from_str("70000").is_none());
    assert!(Hue::from_str("12a").is_none());
    assert!(Hue::from_str("").is_none());
    let l = Lightness::from_str("12.5").expect("decimal must read");
    assert_eq!(l.val, Scalar { whole: 12, frac: "5".to_string() });
    assert!(Lightness::from_str("1.2.3").is_none());
    let sat = Saturation::from_str("88").expect("whole number must read");
    assert_eq!(sat.val, s(88));
}

#[test]
fn shorthand_renders_canonically() {
    let b = styleparse::asset::style::bg::Background::initial();
    assert_eq!(
        b.to_string(),
        "transparent 0% 0% scroll normal border-box padding-box repeat auto"
    );
}

#[test]
fn hue_text_round_trips() {
    let h = Hue { val: 359 };
    let back = Hue::from_str(&h.to_string()).expect("rendered hue must read back");
    assert_eq!(back, h);
    let top = Hue { val: 65535 };
    assert_eq!(Hue::from_str(&top.to_string()), Some(top));
}
