use styleparse::asset::style::bg::{
    self, BackgroundAttachment, BackgroundImage, BackgroundProperty, BackgroundRepeat,
    BackgroundSize, BackgroundValue, Color, Direction, Hue, Lightness, PositionValueType,
    RadialGradientSize, Saturation,
};
use styleparse::lex::{Literal, Token};
use styleparse::num::Scalar;

fn ident(s: &str) -> Token {
    Token::Identifier(s.to_string())
}

fn whole(n: i64) -> Token {
    Token::Literal(Literal::Integer(n))
}

fn punct(s: &str) -> Token {
    Token::Other(s.to_string())
}

#[test]
fn hue_validity_bounds() {
    assert!(Hue { val: 360 }.valid());
    assert!(!Hue { val: 400 }.valid());
}

#[test]
fn saturation_and_lightness_validity() {
    assert!(Saturation { val: Scalar { whole: 100, frac: "0".to_string() } }.valid());
    assert!(!Saturation { val: Scalar { whole: 100, frac: "5".to_string() } }.valid());
    assert!(Lightness { val: Scalar { whole: 99, frac: "9".to_string() } }.valid());
    assert!(!Lightness { val: Scalar { whole: 101, frac: String::new() } }.valid());
}

#[test]
fn hue_400_parses_but_is_invalid() {
    let toks = vec![
        ident("hsl"),
        Token::OpenBracket,
        whole(400),
        punct(","),
        whole(50),
        punct("%"),
        punct(","),
        whole(50),
        punct("%"),
        Token::CloseBracket,
    ];
    let v = bg::color(&toks).expect("hsl with hue 400 must still parse");
    match v {
        BackgroundValue::Color(styleparse::asset::style::bg::BackgroundColor::Color(
            Color::HSL(h, s, l),
        )) => {
            assert!(!h.valid());
            assert!(s.valid());
            assert!(l.valid());
        }
        other => panic!("unexpected value: {:?}", other),
    }
}

#[test]
fn attachment_keywords() {
    let v = bg::attachment(&vec![ident("fixed")]).unwrap();
    assert_eq!(v, BackgroundValue::Attachment(BackgroundAttachment::Fixed));
    assert!(bg::attachment(&vec![ident("sticky")]).is_err());
}

#[test]
fn repeat_keywords() {
    let v = bg::repeat(&vec![ident("repeat-x")]).unwrap();
    assert_eq!(v, BackgroundValue::Repeat(BackgroundRepeat::RepeatX));
}

#[test]
fn size_forms() {
    let v = bg::size(&vec![whole(50), punct("%")]).unwrap();
    assert_eq!(
        v,
        BackgroundValue::Size(BackgroundSize::Percentage(Scalar {
            whole: 50,
            frac: String::new()
        }))
    );
    let v2 = bg::size(&vec![whole(10), ident("px"), whole(20), ident("px")]).unwrap();
    assert_eq!(
        v2,
        BackgroundValue::Size(BackgroundSize::Length(
            Scalar { whole: 10, frac: String::new() },
            Some(Scalar { whole: 20, frac: String::new() })
        ))
    );
    assert!(bg::size(&vec![whole(10), ident("furlongs")]).is_err());
}

#[test]
fn rgb_function_form() {
    let toks = vec![
        ident("rgb"),
        Token::OpenBracket,
        whole(255),
        punct(","),
        whole(0),
        punct(","),
        whole(128),
        Token::CloseBracket,
    ];
    let v = bg::color(&toks).unwrap();
    assert_eq!(
        v,
        BackgroundValue::Color(styleparse::asset::style::bg::BackgroundColor::Color(
            Color::RGB(
                Scalar { whole: 255, frac: String::new() },
                Scalar { whole: 0, frac: String::new() },
                Scalar { whole: 128, frac: String::new() }
            )
        ))
    );
}

#[test]
fn url_and_none_images() {
    let url = vec![
        ident("url"),
        Token::OpenBracket,
        Token::Literal(Literal::Str("bg.png".to_string())),
        Token::CloseBracket,
    ];
    let v = bg::image(&url).unwrap();
    assert_eq!(v, BackgroundValue::Image(BackgroundImage::Url("bg.png".to_string())));
    let v2 = bg::image(&vec![ident("none")]).unwrap();
    assert_eq!(v2, BackgroundValue::Image(BackgroundImage::NoImage));
}

#[test]
fn linear_gradient_direction_and_stops() {
    let toks = vec![
        ident("linear-gradient"),
        Token::OpenBracket,
        ident("to"),
        ident("right"),
        punct(","),
        ident("red"),
        punct(","),
        ident("blue"),
        Token::CloseBracket,
    ];
    let v = bg::image(&toks).unwrap();
    match v {
        BackgroundValue::Image(BackgroundImage::LinearGradient(g)) => {
            assert_eq!(g.directions.first, Direction::Right);
            assert_eq!(g.directions.second, None);
            assert_eq!(
                g.colors,
                vec![Color::Name("red".to_string()), Color::Name("blue".to_string())]
            );
        }
        other => panic!("unexpected value: {:?}", other),
    }
}

#[test]
fn shorthand_fills_the_aggregate_positionally() {
    // a color followed by a repeat keyword, in one positional run
    let v = bg::parse(&None, &vec![ident("red"), ident("round")]).unwrap();
    match v {
        BackgroundValue::Shorthand(b) => {
            assert_eq!(
                b.color,
                styleparse::asset::style::bg::BackgroundColor::Color(Color::Name(
                    "red".to_string()
                ))
            );
            assert_eq!(b.repeat, BackgroundRepeat::Round);
            assert_eq!(b.attachment, BackgroundAttachment::Scroll);
            assert_eq!(b.image, vec![]);
        }
        other => panic!("unexpected value: {:?}", other),
    }
    assert!(bg::parse(&Some(BackgroundProperty::Attachment), &vec![ident("red")]).is_err());
}

#[test]
fn shorthand_recognizes_each_sub_grammar() {
    let toks = vec![
        ident("fixed"),
        ident("url"),
        Token::OpenBracket,
        Token::Literal(Literal::Str("a.png".to_string())),
        Token::CloseBracket,
        ident("multiply"),
        ident("content-box"),
        whole(25),
        punct("%"),
        ident("top"),
        ident("cover"),
        ident("teal"),
    ];
    let v = bg::parse(&None, &toks).unwrap();
    match v {
        BackgroundValue::Shorthand(b) => {
            assert_eq!(b.attachment, BackgroundAttachment::Fixed);
            assert_eq!(b.image, vec![BackgroundImage::Url("a.png".to_string())]);
            assert_eq!(
                b.blend_mode,
                styleparse::asset::style::bg::BackgroundBlendMode::Multiply
            );
            assert_eq!(b.clip, styleparse::asset::style::bg::BackgroundClip::ContentBox);
            assert_eq!(
                b.origin,
                styleparse::asset::style::bg::BackgroundOrigin::ContentBox
            );
            assert_eq!(b.position.x.kind, PositionValueType::Percentage);
            assert_eq!(b.position.x.amount, Scalar { whole: 25, frac: String::new() });
            assert_eq!(b.position.y.kind, PositionValueType::Top);
            assert_eq!(b.size, BackgroundSize::Cover);
            assert_eq!(
                b.color,
                styleparse::asset::style::bg::BackgroundColor::Color(Color::Name(
                    "teal".to_string()
                ))
            );
        }
        other => panic!("unexpected value: {:?}", other),
    }
}

#[test]
fn shorthand_none_lands_in_the_image_list() {
    let v = bg::parse(&None, &vec![ident("none")]).unwrap();
    match v {
        BackgroundValue::Shorthand(b) => {
            assert_eq!(b.image, vec![BackgroundImage::NoImage]);
        }
        other => panic!("unexpected value: {:?}", other),
    }
}

#[test]
fn shorthand_rejects_a_group_fitting_no_sub_grammar() {
    assert!(bg::parse(&None, &vec![ident("red"), punct("#")]).is_err());
    assert!(bg::parse(&None, &vec![whole(12)]).is_err());
    assert!(bg::parse(&None, &vec![]).is_err());
}

#[test]
fn hsla_function_form() {
    let toks = vec![
        ident("hsla"),
        Token::OpenBracket,
        whole(200),
        punct(","),
        whole(40),
        punct("%"),
        punct(","),
        whole(50),
        punct("%"),
        punct(","),
        Token::Literal(Literal::Floater(Scalar { whole: 0, frac: "5".to_string() })),
        Token::CloseBracket,
    ];
    let v = bg::color(&toks).unwrap();
    match v {
        BackgroundValue::Color(styleparse::asset::style::bg::BackgroundColor::Color(
            Color::HSLA(h, s, l, a),
        )) => {
            assert_eq!(h.val, 200);
            assert_eq!(s.val, Scalar { whole: 40, frac: String::new() });
            assert_eq!(l.val, Scalar { whole: 50, frac: String::new() });
            assert_eq!(a, Scalar { whole: 0, frac: "5".to_string() });
        }
        other => panic!("unexpected value: {:?}", other),
    }
}

#[test]
fn radial_gradient_with_prelude() {
    let toks = vec![
        ident("repeating-radial-gradient"),
        Token::OpenBracket,
        ident("circle"),
        ident("closest-side"),
        ident("at"),
        whole(25),
        punct("%"),
        punct(","),
        ident("red"),
        punct(","),
        ident("blue"),
        Token::CloseBracket,
    ];
    let v = bg::image(&toks).unwrap();
    match v {
        BackgroundValue::Image(BackgroundImage::RadialGradient(g)) => {
            assert!(!g.elipsis);
            assert!(g.repeats);
            assert_eq!(g.size, RadialGradientSize::ClosestSide);
            assert_eq!(g.position.kind, PositionValueType::Percentage);
            assert_eq!(g.position.amount, Scalar { whole: 25, frac: String::new() });
            assert_eq!(g.colors.len(), 2);
        }
        other => panic!("unexpected value: {:?}", other),
    }
}

#[test]
fn radial_gradient_without_prelude() {
    let toks = vec![
        ident("radial-gradient"),
        Token::OpenBracket,
        ident("red"),
        punct(","),
        ident("blue"),
        Token::CloseBracket,
    ];
    let v = bg::image(&toks).unwrap();
    match v {
        BackgroundValue::Image(BackgroundImage::RadialGradient(g)) => {
            assert!(g.elipsis);
            assert!(!g.repeats);
            assert_eq!(g.size, RadialGradientSize::FarthestCorner);
            assert_eq!(g.colors.len(), 2);
        }
        other => panic!("unexpected value: {:?}", other),
    }
}

#[test]
fn conic_gradient_stops_keep_order() {
    let toks = vec![
        ident("conic-gradient"),
        Token::OpenBracket,
        ident("red"),
        whole(45),
        punct(","),
        ident("rgb"),
        Token::OpenBracket,
        whole(1),
        punct(","),
        whole(2),
        punct(","),
        whole(3),
        Token::CloseBracket,
        Token::CloseBracket,
    ];
    let v = bg::image(&toks).unwrap();
    match v {
        BackgroundValue::Image(BackgroundImage::ConicGradient(g)) => {
            assert!(!g.repeats);
            assert_eq!(g.values.len(), 2);
            assert_eq!(g.values[0].color, Color::Name("red".to_string()));
            assert_eq!(
                g.values[0].from_angle,
                Some(Scalar { whole: 45, frac: String::new() })
            );
            assert_eq!(
                g.values[1].color,
                Color::RGB(
                    Scalar { whole: 1, frac: String::new() },
                    Scalar { whole: 2, frac: String::new() },
                    Scalar { whole: 3, frac: String::new() }
                )
            );
            assert_eq!(g.values[1].from_angle, None);
        }
        other => panic!("unexpected value: {:?}", other),
    }
}

#[test]
fn clip_origin_and_blend_keywords() {
    assert_eq!(
        bg::clip(&vec![ident("padding-box")]).unwrap(),
        BackgroundValue::Clip(styleparse::asset::style::bg::BackgroundClip::PaddingBox)
    );
    assert_eq!(
        bg::origin(&vec![ident("content-box")]).unwrap(),
        BackgroundValue::Origin(styleparse::asset::style::bg::BackgroundOrigin::ContentBox)
    );
    assert_eq!(
        bg::blend_mode(&vec![ident("color-dodge")]).unwrap(),
        BackgroundValue::BlendMode(
            styleparse::asset::style::bg::BackgroundBlendMode::ColorDodge
        )
    );
}
